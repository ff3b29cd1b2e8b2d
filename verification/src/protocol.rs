//! The skkserv request protocol: one line per request, an opcode byte
//! followed by the midashi for lookups and completions.
use vstd::prelude::*;
use vstd::utf8::{decode_utf8, encode_utf8, valid_utf8};
use std::borrow::Cow;
use crate::encoding::{
    codec_limit, decode_euc_or_utf8, decode_spec, encode_euc_jp, euc_jp_encoded, FOUND, NEWLINE,
};
use crate::text::{concat_str, decimal, u8_decimal, is_ascii_white_byte, lemma_trim_ascii_end_at, trim_ascii_end};

verus! {

broadcast use vstd::utf8::group_utf8_lib;

/// ` `: ends the midashi of a request.
pub const SPACE: u8 = 0x20;

/// One skkserv request; the midashi is borrowed from the request line.
#[derive(Debug, Clone, PartialEq, Eq)]
pub enum Request<'a> {
    /// opcode `0`: disconnect
    End,
    /// opcode `1`: dictionary lookup
    Lookup(&'a [u8]),
    /// opcode `2`: server version
    Version,
    /// opcode `3`: host info
    Host,
    /// opcode `4`: server completion
    Completion(&'a [u8]),
}

/// The abstract content of a request.
pub enum RequestView {
    End,
    Lookup(Seq<u8>),
    Version,
    Host,
    Completion(Seq<u8>),
}

impl<'a> View for Request<'a> {
    type V = RequestView;

    open spec fn view(&self) -> RequestView {
        match self {
            Request::End => RequestView::End,
            Request::Lookup(m) => RequestView::Lookup(m@),
            Request::Version => RequestView::Version,
            Request::Host => RequestView::Host,
            Request::Completion(m) => RequestView::Completion(m@),
        }
    }
}

/// Why a request line was refused.
#[derive(Debug, Clone, Copy, PartialEq, Eq)]
pub enum ProtocolError {
    /// The line holds nothing but whitespace.
    Empty,
    /// The first byte is not an opcode.
    UnknownOpcode(u8),
}

impl ProtocolError {
    /// The message this error is reported with.
    pub fn message(&self) -> (r: String)
        ensures
            *self == ProtocolError::Empty ==> r@ == "empty request"@,
            self matches ProtocolError::UnknownOpcode(b) ==> r@ == "unknown opcode: "@ + decimal(b as nat),
    {
        match self {
            ProtocolError::Empty => "empty request".to_string(),
            ProtocolError::UnknownOpcode(b) => {
                let digits = u8_decimal(*b);
                concat_str("unknown opcode: ", digits.as_str())
            },
        }
    }
}

/// How a request line (without its line feed) reads: trailing ASCII
/// whitespace is ignored, the first byte is the opcode, the rest (trailing
/// whitespace removed) the midashi.
pub open spec fn parse_spec(line: Seq<u8>) -> Result<RequestView, ProtocolError> {
    let l = trim_ascii_end(line);
    if l.len() == 0 {
        Err(ProtocolError::Empty)
    } else if l[0] == 0x30 {
        Ok(RequestView::End)
    } else if l[0] == 0x31 {
        Ok(RequestView::Lookup(trim_ascii_end(l.drop_first())))
    } else if l[0] == 0x32 {
        Ok(RequestView::Version)
    } else if l[0] == 0x33 {
        Ok(RequestView::Host)
    } else if l[0] == 0x34 {
        Ok(RequestView::Completion(trim_ascii_end(l.drop_first())))
    } else {
        Err(ProtocolError::UnknownOpcode(l[0]))
    }
}

/// The midashi carried by a request, if any.
pub open spec fn midashi_of(r: RequestView) -> Option<Seq<u8>> {
    match r {
        RequestView::Lookup(m) => Some(m),
        RequestView::Completion(m) => Some(m),
        _ => None,
    }
}

/// The wire form of a request for an upstream server: the opcode, the
/// midashi re-encoded (as EUC-JP when `is_euc`, else UTF-8), then ` \n`.
pub open spec fn encode_spec(r: RequestView, is_euc: bool) -> Seq<u8> {
    match r {
        RequestView::End => seq![0x30u8, SPACE, NEWLINE],
        RequestView::Version => seq![0x32u8, SPACE, NEWLINE],
        RequestView::Host => seq![0x33u8, SPACE, NEWLINE],
        RequestView::Lookup(m) => seq![0x31u8] + midashi_bytes(m, is_euc) + seq![SPACE, NEWLINE],
        RequestView::Completion(m) => seq![0x34u8] + midashi_bytes(m, is_euc) + seq![SPACE, NEWLINE],
    }
}

/// A midashi decoded (UTF-8, else EUC-JP) and re-encoded for the upstream.
pub open spec fn midashi_bytes(m: Seq<u8>, is_euc: bool) -> Seq<u8> {
    if is_euc {
        euc_jp_encoded(decode_spec(m))
    } else {
        encode_utf8(decode_spec(m))
    }
}

/// The midashi of a request fits the codec.
pub open spec fn midashi_fits(r: RequestView) -> bool {
    midashi_of(r) matches Some(m) ==> m.len() <= codec_limit()
}

/// `s` without its trailing ASCII whitespace.
pub fn trim_ascii_whitespace_end(bytes: &[u8]) -> (r: &[u8])
    ensures
        r@ == trim_ascii_end(bytes@),
{
    let mut end: usize = bytes.len();
    while end > 0 && (bytes[end - 1] == 0x20 || bytes[end - 1] == 0x09 || bytes[end - 1] == 0x0a
        || bytes[end - 1] == 0x0c || bytes[end - 1] == 0x0d)
        invariant
            0 <= end <= bytes.len(),
            forall|j: int| end <= j < bytes.len() ==> is_ascii_white_byte(bytes@[j]),
        decreases end,
    {
        end = end - 1;
    }
    proof {
        lemma_trim_ascii_end_at(bytes@, end as int);
    }
    &bytes[0..end]
}

/// The midashi of an operand: trailing whitespace removed.
pub fn normalize_midashi(operand: &[u8]) -> (r: &[u8])
    ensures
        r@ == trim_ascii_end(operand@),
{
    trim_ascii_whitespace_end(operand)
}

/// Parses one request line (without its line feed): `0`, `1<midashi> `,
/// `2`, `3`, `4<midashi> `; the trailing space is optional.
pub fn parse_request(line: &[u8]) -> (r: Result<Request<'_>, ProtocolError>)
    ensures
        match (r, parse_spec(line@)) {
            (Ok(req), Ok(v)) => req@ == v,
            (Err(e), Err(f)) => e == f,
            _ => false,
        },
{
    let line = trim_ascii_whitespace_end(line);
    if line.len() == 0 {
        return Err(ProtocolError::Empty);
    }
    let opcode = line[0];
    let operand = &line[1..line.len()];
    assert(operand@ == line@.drop_first());
    if opcode == 0x30 {
        Ok(Request::End)
    } else if opcode == 0x31 {
        Ok(Request::Lookup(normalize_midashi(operand)))
    } else if opcode == 0x32 {
        Ok(Request::Version)
    } else if opcode == 0x33 {
        Ok(Request::Host)
    } else if opcode == 0x34 {
        Ok(Request::Completion(normalize_midashi(operand)))
    } else {
        Err(ProtocolError::UnknownOpcode(opcode))
    }
}

/// The midashi bytes for an upstream: decoded, then encoded as UTF-8.
fn midashi_utf8(m: &[u8]) -> (r: Vec<u8>)
    requires
        m@.len() <= codec_limit(),
    ensures
        r@ == encode_utf8(decode_spec(m@)),
{
    let s = decode_euc_or_utf8(m);
    match s {
        Cow::Borrowed(b) => crate::encoding::bytes_to_vec(b.as_bytes()),
        Cow::Owned(o) => crate::encoding::bytes_to_vec(o.as_str().as_bytes()),
    }
}

/// The wire form of a request for an upstream server.
fn encode_request_inner(request: &Request<'_>, is_euc: bool) -> (r: Vec<u8>)
    requires
        midashi_fits(request@),
        is_euc ==> (midashi_of(request@) matches Some(m) ==> encode_utf8(decode_spec(m)).len() <= codec_limit()),
    ensures
        r@ == encode_spec(request@, is_euc),
{
    let (opcode, midashi): (u8, &[u8]) = match request {
        Request::End => {
            let v: Vec<u8> = vec![0x30u8, SPACE, NEWLINE];
            assert(v@ =~= seq![0x30u8, SPACE, NEWLINE]);
            return v;
        },
        Request::Version => {
            let v: Vec<u8> = vec![0x32u8, SPACE, NEWLINE];
            assert(v@ =~= seq![0x32u8, SPACE, NEWLINE]);
            return v;
        },
        Request::Host => {
            let v: Vec<u8> = vec![0x33u8, SPACE, NEWLINE];
            assert(v@ =~= seq![0x33u8, SPACE, NEWLINE]);
            return v;
        },
        Request::Lookup(m) => (0x31u8, *m),
        Request::Completion(m) => (0x34u8, *m),
    };
    let body: Vec<u8> = if is_euc {
        let s = decode_euc_or_utf8(midashi);
        match s {
            Cow::Borrowed(b) => encode_euc_jp(b),
            Cow::Owned(o) => encode_euc_jp(o.as_str()),
        }
    } else {
        midashi_utf8(midashi)
    };
    let mut buf: Vec<u8> = Vec::new();
    buf.push(opcode);
    crate::encoding::append_bytes(&mut buf, body.as_slice());
    buf.push(SPACE);
    buf.push(NEWLINE);
    assert(buf@ =~= seq![opcode] + body@ + seq![SPACE, NEWLINE]);
    buf
}

/// The wire form of a request for an upstream that speaks UTF-8.
pub fn encode_request(request: &Request<'_>) -> (r: Vec<u8>)
    requires
        midashi_fits(request@),
    ensures
        r@ == encode_spec(request@, false),
{
    encode_request_inner(request, false)
}

/// The wire form of a request for an upstream that wants EUC-JP: the
/// midashi is decoded, then encoded as EUC-JP.
pub fn encode_request_for_encoding(request: &Request<'_>) -> (r: Vec<u8>)
    requires
        midashi_fits(request@),
        midashi_of(request@) matches Some(m) ==> encode_utf8(decode_spec(m)).len() <= codec_limit(),
    ensures
        r@ == encode_spec(request@, true),
{
    encode_request_inner(request, true)
}

/// [`encode_request_for_encoding`], or `None` when the decoded midashi is
/// too long for the EUC-JP encoder.
pub fn encode_request_for_encoding_checked(request: &Request<'_>) -> (r: Option<Vec<u8>>)
    requires
        midashi_fits(request@),
    ensures
        r is Some <==> (midashi_of(request@) matches Some(m) ==> encode_utf8(decode_spec(m)).len()
            <= codec_limit()),
        r matches Some(v) ==> v@ == encode_spec(request@, true),
{
    match request {
        Request::Lookup(m) | Request::Completion(m) => {
            let decoded = midashi_utf8(*m);
            if decoded.len() > (usize::MAX / 8) {
                return None;
            }
        },
        _ => {},
    }
    Some(encode_request_for_encoding(request))
}

/// Whether a response reports a hit (its first byte is `1`).
pub fn is_found(response: &[u8]) -> (found: bool)
    ensures
        found == (response@.len() > 0 && response@[0] == FOUND),
{
    response.len() > 0 && response[0] == FOUND
}

proof fn lemma_midashi_roundtrip(m: Seq<u8>, completion: bool)
    requires
        valid_utf8(m),
        m.len() == 0 || !is_ascii_white_byte(m.last()),
    ensures
        ({
            let r = if completion {
                RequestView::Completion(m)
            } else {
                RequestView::Lookup(m)
            };
            let wire = encode_spec(r, false);
            parse_spec(wire.drop_last()) == Ok::<RequestView, ProtocolError>(r)
        }),
{
    let r = if completion {
        RequestView::Completion(m)
    } else {
        RequestView::Lookup(m)
    };
    let op: u8 = if completion {
        0x34
    } else {
        0x31
    };
    assert(decode_spec(m) == decode_utf8(m));
    vstd::utf8::decode_utf8_encode_utf8(m);
    assert(midashi_bytes(m, false) == m);
    let wire = encode_spec(r, false);
    let line = wire.drop_last();
    assert(line =~= seq![op] + m + seq![SPACE]);
    assert(trim_ascii_end(line) == seq![op] + m) by {
        lemma_trim_ascii_end_at(line, m.len() + 1int);
        assert(line.subrange(0, m.len() + 1int) =~= seq![op] + m);
    }
    let l = seq![op] + m;
    assert(l.drop_first() =~= m);
    assert(trim_ascii_end(m) == m) by {
        lemma_trim_ascii_end_at(m, m.len() as int);
        assert(m.subrange(0, m.len() as int) =~= m);
    }
}

/// Re-encoding a request for a UTF-8 upstream and reading the line back
/// (its line feed removed) gives the same request: every request without a
/// midashi, and every lookup or completion whose midashi is valid UTF-8
/// without trailing ASCII whitespace.
pub proof fn law_encode_then_parse(r: RequestView)
    requires
        midashi_of(r) matches Some(m) ==> valid_utf8(m) && (m.len() == 0 || !is_ascii_white_byte(m.last())),
    ensures
        parse_spec(encode_spec(r, false).drop_last()) == Ok::<RequestView, ProtocolError>(r),
{
    match r {
        RequestView::Lookup(m) => lemma_midashi_roundtrip(m, false),
        RequestView::Completion(m) => lemma_midashi_roundtrip(m, true),
        _ => {
            let line = encode_spec(r, false).drop_last();
            assert(line.len() == 2 && line[1] == SPACE);
            lemma_trim_ascii_end_at(line, 1);
            assert(trim_ascii_end(line) =~= seq![line[0]]);
        },
    }
}

} // verus!
