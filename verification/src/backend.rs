//! How requests and responses are converted for each kind of upstream.
use vstd::prelude::*;
use crate::encoding::{codec_limit, response_euc_to_utf8, response_to_utf8_spec, NEWLINE};
use crate::protocol::{
    encode_request, encode_request_for_encoding_checked, encode_spec, midashi_fits, midashi_of,
    Request,
};
use crate::encoding::decode_spec;

verus! {

/// The encodings an upstream speaks.
#[derive(Debug, Clone, Copy, PartialEq, Eq)]
pub enum UpstreamEncoding {
    /// Request: UTF-8, response: UTF-8
    Utf8,
    /// Request: EUC-JP, response: UTF-8 (azoo-key-skkserv)
    EucJpRequestUtf8Response,
    /// Request: EUC-JP, response: EUC-JP (yaskkserv2)
    EucJp,
}

/// Whether the upstream wants its requests in EUC-JP.
pub open spec fn wants_euc(e: UpstreamEncoding) -> bool {
    e != UpstreamEncoding::Utf8
}

/// `r` with a line feed appended unless it already ends in one.
pub open spec fn with_newline(r: Seq<u8>) -> Seq<u8> {
    if r.len() > 0 && r.last() == NEWLINE {
        r
    } else {
        r.push(NEWLINE)
    }
}

/// Appends a line feed unless the response already ends in one.
pub fn ensure_trailing_newline(response: Vec<u8>) -> (r: Vec<u8>)
    ensures
        r@ == with_newline(response@),
{
    let mut response = response;
    if !(response.len() > 0 && response[response.len() - 1] == NEWLINE) {
        response.push(NEWLINE);
    }
    response
}

/// The request as sent to an upstream of encoding `encoding`; `None` when
/// the midashi is too long for the EUC-JP encoder.
pub fn wire_request(request: &Request<'_>, encoding: UpstreamEncoding) -> (r: Option<Vec<u8>>)
    requires
        midashi_fits(request@),
    ensures
        !wants_euc(encoding) ==> (r matches Some(v) && v@ == encode_spec(request@, false)),
        wants_euc(encoding) ==> (r is Some <==> (midashi_of(request@) matches Some(m)
            ==> vstd::utf8::encode_utf8(decode_spec(m)).len() <= codec_limit())),
        wants_euc(encoding) ==> (r matches Some(v) ==> v@ == encode_spec(request@, true)),
{
    match encoding {
        UpstreamEncoding::Utf8 => Some(encode_request(request)),
        _ => encode_request_for_encoding_checked(request),
    }
}

/// An upstream's raw response as passed on: converted to UTF-8 for an
/// EUC-JP upstream, and always ending in a line feed.
pub fn upstream_response(raw: Vec<u8>, encoding: UpstreamEncoding) -> (r: Vec<u8>)
    requires
        raw@.len() <= codec_limit(),
    ensures
        encoding == UpstreamEncoding::EucJp ==> r@ == with_newline(response_to_utf8_spec(raw@)),
        encoding != UpstreamEncoding::EucJp ==> r@ == with_newline(raw@),
{
    match encoding {
        UpstreamEncoding::EucJp => ensure_trailing_newline(response_euc_to_utf8(raw.as_slice())),
        _ => ensure_trailing_newline(raw),
    }
}

// ---------------------------------------------------------------------------
// One request/response exchange with an upstream
// ---------------------------------------------------------------------------

/// The longest response line taken from an upstream.
pub const MAX_BACKEND_RESPONSE_BYTES: usize = 65536;

/// How many times a request is tried on a (re)opened connection.
pub const EXCHANGE_ATTEMPTS: u32 = 2;

/// What came of sending a request and reading the reply line.
pub enum ExchangeOutcome {
    /// Writing or flushing the request failed.
    SendFailed,
    /// The connection was closed before anything was read.
    Closed,
    /// Reading failed.
    ReceiveFailed,
    /// Bytes were read, up to and including a line feed if one came within
    /// one byte over the limit.
    Received(Vec<u8>),
}

/// What the client of an upstream does next.
pub enum ExchangeStep {
    /// Return the response line.
    Accept(Vec<u8>),
    /// Drop the connection and report an empty response: the reply was too
    /// long or not terminated.
    Reject,
    /// Drop the connection and try once more.
    Retry,
    /// Drop the connection and report the last failure.
    GiveUp,
}

/// A reply line is taken when it fits the limit and ends in a line feed.
pub open spec fn reply_ok(b: Seq<u8>) -> bool {
    b.len() <= MAX_BACKEND_RESPONSE_BYTES && b.len() > 0 && b.last() == NEWLINE
}

/// After a failed attempt: once more while attempts are left.
pub open spec fn retry_step(attempt: u32, r: ExchangeStep) -> bool {
    if attempt + 1 < EXCHANGE_ATTEMPTS {
        r is Retry
    } else {
        r is GiveUp
    }
}

/// Decides what follows attempt number `attempt` (from 0) of an exchange:
/// a non-empty reply is accepted or rejected by `reply_ok`, anything else
/// is a failed attempt.
pub fn after_exchange(attempt: u32, outcome: ExchangeOutcome) -> (r: ExchangeStep)
    ensures
        match outcome {
            ExchangeOutcome::Received(b) => if b@.len() == 0 {
                retry_step(attempt, r)
            } else if reply_ok(b@) {
                r matches ExchangeStep::Accept(a) && a@ == b@
            } else {
                r is Reject
            },
            _ => retry_step(attempt, r),
        },
{
    match outcome {
        ExchangeOutcome::Received(b) => {
            if b.len() > 0 {
                if b.len() <= MAX_BACKEND_RESPONSE_BYTES && b[b.len() - 1] == NEWLINE {
                    ExchangeStep::Accept(b)
                } else {
                    ExchangeStep::Reject
                }
            } else if attempt < EXCHANGE_ATTEMPTS - 1 {
                ExchangeStep::Retry
            } else {
                ExchangeStep::GiveUp
            }
        },
        _ => {
            if attempt < EXCHANGE_ATTEMPTS - 1 {
                ExchangeStep::Retry
            } else {
                ExchangeStep::GiveUp
            }
        },
    }
}

} // verus!
