//! The decisions of a proxy session: framing request lines, remembering the
//! last confirmed word as context, merging okuri-ari stems with the
//! fallback dictionary, ranking, and the time budgets of upstream queries.
//! The I/O around them (sockets, clocks, upstream queries) is the caller's.
use vstd::prelude::*;
use crate::encoding::{
    candidates_spec, codec_limit, extract_first_candidate, first_candidate_spec,
    format_candidates_response_str, format_spec, parse_candidates_borrowed,
    parse_candidates_unpacked, unpacked_spec, NEWLINE, NOT_FOUND,
};
use crate::frequency::{clean_candidate, clean_spec, rules_apply, FrequencyPredictor};
use crate::okuri::{
    extract_spec, extract_stem_candidates_borrowed, is_kanji, is_kanji_spec, normalized_key_spec,
    normalize_okuri_midashi_key, stem_len, OkuriVariation,
};
use crate::protocol::is_found;
use crate::ranking::stable_rank;
use crate::text::{
    char_count, chars_of, contains_string, push_unique, str_eq, str_views, string_views,
    to_owned_string,
};

verus! {

/// The longest request line accepted, line feed included.
pub const MAX_LINE_BYTES: usize = 8192;
/// Lookups closer than this to the previous response on the same
/// connection are completion bursts and leave the context alone.
pub const COMPLETION_BURST_MS: u64 = 50;
/// A pending word older than this is no longer context.
pub const CONTEXT_TTL_MS: u64 = 60000;
/// Upper bound on one primary query of a plain lookup.
pub const PRIMARY_CAP_MS: u64 = 600;
/// Deadline for a plain lookup, primary and fallback together.
pub const OVERALL_DEADLINE_MS: u64 = 850;
/// Upper bound on one okuri-ari variation query.
pub const OKURI_QUERY_CAP_MS: u64 = 300;
/// Deadline for all okuri-ari variation queries together.
pub const OKURI_TOTAL_MS: u64 = 600;
/// Upper bound on the fallback query that completes okuri-ari stems.
pub const OKURI_FALLBACK_CAP_MS: u64 = 200;

// ---------------------------------------------------------------------------
// Request lines
// ---------------------------------------------------------------------------

/// A line as read (at most `MAX_LINE_BYTES + 1` bytes, up to a line feed):
/// refused when too long or not terminated; otherwise without its `\n` or
/// `\r\n`.
pub open spec fn frame_spec(line: Seq<u8>) -> Option<Seq<u8>> {
    if line.len() > MAX_LINE_BYTES || line.len() == 0 || line.last() != NEWLINE {
        None
    } else if line.len() >= 2 && line[line.len() - 2] == 0x0d {
        Some(line.subrange(0, line.len() - 2))
    } else {
        Some(line.drop_last())
    }
}

/// The request in a line read from the client, or `None` when the session
/// must end (line too long or not terminated).
pub fn frame_request_line(line: &[u8]) -> (r: Option<&[u8]>)
    ensures
        r is None <==> frame_spec(line@) is None,
        r matches Some(l) ==> frame_spec(line@) == Some(l@),
{
    let n = line.len();
    if n > MAX_LINE_BYTES || n == 0 || line[n - 1] != NEWLINE {
        return None;
    }
    if n >= 2 && line[n - 2] == 0x0d {
        Some(&line[0..n - 2])
    } else {
        Some(&line[0..n - 1])
    }
}

/// The reply to a version request: `ruskkserv/<version> `.
pub fn version_response(version: &str) -> (r: Vec<u8>)
    ensures
        r@ == vstd::utf8::encode_utf8("ruskkserv/"@) + vstd::utf8::encode_utf8(version@) + seq![0x20u8],
{
    let mut v = crate::encoding::bytes_to_vec("ruskkserv/".as_bytes());
    crate::encoding::append_bytes(&mut v, version.as_bytes());
    v.push(0x20);
    v
}

/// The reply to a host request: `ruskkserv/<listen address>: `.
pub fn host_response(listen: &str) -> (r: Vec<u8>)
    ensures
        r@ == vstd::utf8::encode_utf8("ruskkserv/"@) + vstd::utf8::encode_utf8(listen@) + seq![0x3au8, 0x20u8],
{
    let mut v = crate::encoding::bytes_to_vec("ruskkserv/".as_bytes());
    crate::encoding::append_bytes(&mut v, listen.as_bytes());
    v.push(0x3a);
    v.push(0x20);
    v
}

// ---------------------------------------------------------------------------
// Context
// ---------------------------------------------------------------------------

/// A word returned as first candidate, waiting to be confirmed by a lookup
/// of another midashi.
pub struct PendingContext {
    pub midashi: String,
    pub word: String,
    pub time_ms: u64,
}

/// The context shared by the sessions of one proxy.
pub struct SharedContextState {
    /// The last confirmed word.
    pub session_context: Option<String>,
    /// The word waiting for confirmation.
    pub pending_context: Option<PendingContext>,
}

/// The abstract content of a pending word: midashi, word, time.
pub open spec fn pending_view(p: Option<PendingContext>) -> Option<(Seq<char>, Seq<char>, u64)> {
    match p {
        Some(x) => Some((x.midashi@, x.word@, x.time_ms)),
        None => None,
    }
}

/// The abstract content of a confirmed word.
pub open spec fn word_view(w: Option<String>) -> Option<Seq<char>> {
    match w {
        Some(x) => Some(x@),
        None => None,
    }
}

/// Some character is a kanji.
pub open spec fn contains_kanji_spec(s: Seq<char>) -> bool {
    exists|i: int| 0 <= i < s.len() && is_kanji_spec(#[trigger] s[i])
}

/// Whether `s` holds a kanji.
pub fn contains_kanji(s: &str) -> (r: bool)
    ensures
        r == contains_kanji_spec(s@),
{
    let cs = chars_of(s);
    let mut i: usize = 0;
    while i < cs.len()
        invariant
            0 <= i <= cs.len(),
            cs@ == s@,
            forall|j: int| 0 <= j < i ==> !is_kanji_spec(#[trigger] s@[j]),
        decreases cs.len() - i,
    {
        if is_kanji(cs[i]) {
            assert(is_kanji_spec(s@[i as int]));
            return true;
        }
        i = i + 1;
    }
    false
}

impl SharedContextState {
    /// No context yet.
    pub fn new() -> (s: Self)
        ensures
            s.session_context is None,
            s.pending_context is None,
    {
        SharedContextState { session_context: None, pending_context: None }
    }
}

/// Whether a lookup comes within the burst window after the previous
/// response on the same connection (the clock never runs backwards: an
/// earlier `now` counts as no time passed).
pub fn is_completion_burst(last_response_ms: Option<u64>, now_ms: u64) -> (r: bool)
    ensures
        r == (last_response_ms matches Some(t) && (if now_ms >= t {
            now_ms - t
        } else {
            0
        }) < COMPLETION_BURST_MS),
{
    match last_response_ms {
        Some(t) => {
            let elapsed = if now_ms >= t {
                now_ms - t
            } else {
                0
            };
            elapsed < COMPLETION_BURST_MS
        },
        None => false,
    }
}

/// The context after a lookup of `midashi` starts: a pending word is
/// confirmed (or dropped when too old) once another midashi is looked up;
/// it stays pending while the same midashi is looked up again.
pub open spec fn begin_spec(
    session: Option<Seq<char>>,
    pending: Option<(Seq<char>, Seq<char>, u64)>,
    context_ranking: bool,
    burst: bool,
    midashi: Seq<char>,
    now_ms: u64,
) -> (Option<Seq<char>>, Option<(Seq<char>, Seq<char>, u64)>) {
    if context_ranking && !burst && pending is Some {
        let (pm, pw, pt) = pending.unwrap();
        if pm == midashi {
            (session, pending)
        } else if (if now_ms >= pt {
            now_ms - pt
        } else {
            0
        }) <= CONTEXT_TTL_MS {
            (Some(pw), None)
        } else {
            (None, None)
        }
    } else {
        (session, pending)
    }
}

/// Starts a lookup of `midashi`: updates the shared context and returns the
/// context words to rank by (the confirmed word, when context ranking is on).
pub fn begin_lookup(
    state: &mut SharedContextState,
    context_ranking: bool,
    burst: bool,
    midashi: &str,
    now_ms: u64,
) -> (context: Vec<String>)
    ensures
        (word_view(final(state).session_context), pending_view(final(state).pending_context))
            == begin_spec(
            word_view(old(state).session_context),
            pending_view(old(state).pending_context),
            context_ranking,
            burst,
            midashi@,
            now_ms,
        ),
        context_ranking && final(state).session_context is Some ==> string_views(context@) == seq![
            final(state).session_context.unwrap()@,
        ],
        !(context_ranking && final(state).session_context is Some) ==> context@.len() == 0,
{
    if context_ranking && !burst {
        match state.pending_context.take() {
            Some(p) => {
                if str_eq(p.midashi.as_str(), midashi) {
                    state.pending_context = Some(p);
                } else {
                    let elapsed = if now_ms >= p.time_ms {
                        now_ms - p.time_ms
                    } else {
                        0
                    };
                    if elapsed <= CONTEXT_TTL_MS {
                        state.session_context = Some(p.word);
                    } else {
                        state.session_context = None;
                    }
                }
            },
            None => {},
        }
    }
    let mut context: Vec<String> = Vec::new();
    if context_ranking {
        match &state.session_context {
            Some(w) => {
                context.push(to_owned_string(w.as_str()));
                assert(string_views(context@) =~= seq![w@]);
            },
            None => {},
        }
    }
    context
}

/// The pending word after a lookup of `midashi` answered with `top` first:
/// a cleaned first candidate holding a kanji becomes pending, unless context
/// ranking is off or the lookup was a completion burst.
pub open spec fn end_spec(
    pending: Option<(Seq<char>, Seq<char>, u64)>,
    context_ranking: bool,
    burst: bool,
    midashi: Seq<char>,
    top: Option<Seq<char>>,
    now_ms: u64,
) -> Option<(Seq<char>, Seq<char>, u64)> {
    if context_ranking && !burst && top is Some && contains_kanji_spec(clean_spec(top.unwrap())) {
        Some((midashi, clean_spec(top.unwrap()), now_ms))
    } else {
        pending
    }
}

/// Ends a lookup of `midashi` answered with `top` first (see `end_spec`).
pub fn end_lookup(
    state: &mut SharedContextState,
    context_ranking: bool,
    burst: bool,
    midashi: &str,
    top: Option<&str>,
    now_ms: u64,
)
    ensures
        pending_view(final(state).pending_context) == end_spec(
            pending_view(old(state).pending_context),
            context_ranking,
            burst,
            midashi@,
            match top {
                Some(t) => Some(t@),
                None => None,
            },
            now_ms,
        ),
        word_view(final(state).session_context) == word_view(old(state).session_context),
{
    if context_ranking && !burst {
        if let Some(t) = top {
            let clean = clean_candidate(t);
            if contains_kanji(clean) {
                state.pending_context = Some(
                    PendingContext {
                        midashi: to_owned_string(midashi),
                        word: to_owned_string(clean),
                        time_ms: now_ms,
                    },
                );
            }
        }
    }
}

// ---------------------------------------------------------------------------
// Replies
// ---------------------------------------------------------------------------

/// What is sent back for a lookup, and its first candidate (for context).
pub struct LookupReply {
    pub response: Vec<u8>,
    pub top_candidate: Option<String>,
}

/// The views of a sequence of owned strings as slices.
fn as_strs(v: &Vec<String>) -> (r: Vec<&str>)
    ensures
        str_views(r@) == string_views(v@),
{
    let mut out: Vec<&str> = Vec::new();
    let mut i: usize = 0;
    while i < v.len()
        invariant
            0 <= i <= v.len(),
            out@.len() == i,
            str_views(out@) == string_views(v@).take(i as int),
        decreases v.len() - i,
    {
        let ghost before = out@;
        out.push(v[i].as_str());
        assert(str_views(out@) =~= str_views(before).push(v@[i as int]@));
        assert(string_views(v@).take(i + 1) =~= string_views(v@).take(i as int).push(v@[i as int]@));
        i = i + 1;
    }
    assert(string_views(v@).take(v.len() as int) =~= string_views(v@));
    out
}

/// Ranking `cands` cannot overflow: at most one candidate, no rule, or
/// every score fits.
pub open spec fn rank_safe(p: FrequencyPredictor, context: Seq<Seq<char>>, midashi: Seq<char>, cands: Seq<Seq<char>>) -> bool {
    cands.len() <= 1 || !rules_apply(p.frequencies@, p.context_frequencies@, context, midashi)
        || p.scores_fit_spec(context, midashi, cands)
}

/// The reply for an upstream response to a plain lookup: ranked when a rule
/// applies (the first candidate is then the ranked first), passed on
/// untouched otherwise. `None` when a score would overflow.
pub fn finish_plain_lookup(
    predictor: &FrequencyPredictor,
    context: &[String],
    midashi: &str,
    response: Vec<u8>,
) -> (r: Option<LookupReply>)
    requires
        predictor.wf(),
    ensures
        ({
            let cv = string_views(context@);
            let cands = candidates_spec(response@);
            let rank = rules_apply(predictor.frequencies@, predictor.context_frequencies@, cv, midashi@);
            &&& r is None <==> (response@.len() > 0 && response@[0] == 0x31u8 && rank && !rank_safe(*predictor, cv, midashi@, cands))
            &&& r matches Some(reply) ==> if !(response@.len() > 0 && response@[0] == 0x31u8) {
                reply.response@ == response@ && reply.top_candidate is None
            } else if rank && cands.len() > 0 {
                let ranked = stable_rank(cands, predictor.rank_score(cv, midashi@));
                &&& reply.response@ == format_spec(ranked)
                &&& reply.top_candidate matches Some(t) && t@ == ranked[0]
            } else if rank {
                reply.response@ == response@ && reply.top_candidate is None
            } else {
                &&& reply.response@ == response@
                &&& word_view(reply.top_candidate) == first_candidate_spec(response@)
            }
        }),
{
    if !is_found(response.as_slice()) {
        return Some(LookupReply { response, top_candidate: None });
    }
    if predictor.should_rank(context, midashi) {
        let cands = parse_candidates_borrowed(response.as_slice());
        if cands.len() == 0 {
            return Some(LookupReply { response, top_candidate: None });
        }
        if cands.len() > 1 && !predictor.scores_fit(context, midashi, cands.as_slice()) {
            return None;
        }
        let ranked = predictor.rank_candidates_borrowed(context, midashi, cands.as_slice());
        proof {
            crate::ranking::lemma_stable_rank_sorted(
                str_views(cands@),
                predictor.rank_score(string_views(context@), midashi@),
            );
        }
        let top = to_owned_string(ranked[0]);
        let out = format_candidates_response_str(ranked.as_slice());
        return Some(LookupReply { response: out, top_candidate: Some(top) });
    }
    let top = match extract_first_candidate(response.as_slice()) {
        Some(t) => Some(to_owned_string(t)),
        None => None,
    };
    Some(LookupReply { response, top_candidate: top })
}

/// `acc` with each of `xs` appended unless already present.
pub open spec fn push_all_unique(acc: Seq<Seq<char>>, xs: Seq<Seq<char>>) -> Seq<Seq<char>>
    decreases xs.len(),
{
    if xs.len() == 0 {
        acc
    } else {
        push_unique(push_all_unique(acc, xs.drop_last()), xs.last())
    }
}

/// The stems recovered from the found responses to okuri-ari variations,
/// in order, without repeats.
pub open spec fn okuri_stems_spec(resps: Seq<(Seq<u8>, (Seq<char>, Seq<char>))>) -> Seq<Seq<char>>
    decreases resps.len(),
{
    if resps.len() == 0 {
        Seq::empty()
    } else {
        let (resp, var) = resps.last();
        push_all_unique(
            okuri_stems_spec(resps.drop_last()),
            extract_spec(candidates_spec(resp), var.1, stem_len(var.0, var.1)),
        )
    }
}

/// The abstract content of the variation responses.
pub open spec fn responses_view(v: Seq<(Vec<u8>, OkuriVariation)>) -> Seq<(Seq<u8>, (Seq<char>, Seq<char>))> {
    v.map_values(|x: (Vec<u8>, OkuriVariation)| (x.0@, x.1@))
}

/// The stems recovered from the responses to okuri-ari variations (each
/// paired with its variation), merged in order without repeats.
pub fn collect_okuri_stems(responses: &[(Vec<u8>, OkuriVariation)]) -> (r: Vec<String>)
    ensures
        string_views(r@) == okuri_stems_spec(responses_view(responses@)),
{
    let ghost rv = responses_view(responses@);
    let mut all: Vec<String> = Vec::new();
    let mut i: usize = 0;
    while i < responses.len()
        invariant
            0 <= i <= responses.len(),
            rv == responses_view(responses@),
            string_views(all@) == okuri_stems_spec(rv.take(i as int)),
        decreases responses.len() - i,
    {
        let (resp, var) = &responses[i];
        proof {
            assert(rv.take(i + 1).drop_last() =~= rv.take(i as int));
            assert(rv.take(i + 1).last() == (resp@, var@));
        }
        let raw = parse_candidates_borrowed(resp.as_slice());
        let stems = extract_stem_candidates_borrowed(
            raw.as_slice(),
            var.okuri_suffix.as_str(),
            var.query_midashi.as_str(),
        );
        let ghost base = string_views(all@);
        let ghost xs = str_views(stems@);
        let mut k: usize = 0;
        while k < stems.len()
            invariant
                0 <= k <= stems.len(),
                xs == str_views(stems@),
                string_views(all@) == push_all_unique(base, xs.take(k as int)),
            decreases stems.len() - k,
        {
            let st = stems[k];
            proof {
                assert(xs.take(k + 1).drop_last() =~= xs.take(k as int));
                assert(xs.take(k + 1).last() == st@);
            }
            if !contains_string(all.as_slice(), st) {
                let ghost before = all@;
                all.push(to_owned_string(st));
                assert(string_views(all@) =~= string_views(before).push(st@));
            }
            k = k + 1;
        }
        assert(xs.take(stems.len() as int) =~= xs);
        i = i + 1;
    }
    assert(rv.take(responses.len() as int) =~= rv);
    all
}

/// `acc` with the fallback candidate `cand` appended unless its cleaned
/// form is empty or already present (compared cleaned).
pub open spec fn fallback_step(acc: Seq<Seq<char>>, cand: Seq<char>) -> Seq<Seq<char>> {
    let c = clean_spec(cand);
    if c.len() > 0 && !(exists|i: int| 0 <= i < acc.len() && clean_spec(#[trigger] acc[i]) == c) {
        acc.push(cand)
    } else {
        acc
    }
}

/// The fallback candidates appended one by one.
pub open spec fn fallback_merge_spec(acc: Seq<Seq<char>>, fb: Seq<Seq<char>>) -> Seq<Seq<char>>
    decreases fb.len(),
{
    if fb.len() == 0 {
        acc
    } else {
        fallback_step(fallback_merge_spec(acc, fb.drop_last()), fb.last())
    }
}

/// Whether some element of `acc`, cleaned, equals `c`.
fn contains_clean(acc: &Vec<String>, c: &str) -> (r: bool)
    ensures
        r == exists|i: int| 0 <= i < acc@.len() && clean_spec(#[trigger] string_views(acc@)[i]) == c@,
{
    let mut i: usize = 0;
    while i < acc.len()
        invariant
            0 <= i <= acc.len(),
            forall|j: int| 0 <= j < i ==> clean_spec(#[trigger] string_views(acc@)[j]) != c@,
        decreases acc.len() - i,
    {
        if str_eq(clean_candidate(acc[i].as_str()), c) {
            assert(clean_spec(string_views(acc@)[i as int]) == c@);
            return true;
        }
        i = i + 1;
    }
    false
}

/// The stems completed with the fallback dictionary's candidates for the
/// midashi as typed (when it has a hit): each new candidate, compared
/// cleaned, is appended after the stems.
pub fn merge_fallback_candidates(stems: Vec<String>, fallback_response: Option<&[u8]>) -> (r: Vec<String>)
    requires
        fallback_response matches Some(f) ==> f@.len() <= codec_limit(),
    ensures
        string_views(r@) == match fallback_response {
            Some(f) => fallback_merge_spec(string_views(stems@), unpacked_spec(f@)),
            None => string_views(stems@),
        },
{
    let mut merged = stems;
    match fallback_response {
        Some(f) => {
            let fb = parse_candidates_unpacked(f);
            let ghost fv = string_views(fb@);
            let ghost base = string_views(merged@);
            let mut i: usize = 0;
            while i < fb.len()
                invariant
                    0 <= i <= fb.len(),
                    fv == string_views(fb@),
                    string_views(merged@) == fallback_merge_spec(base, fv.take(i as int)),
                decreases fb.len() - i,
            {
                let cand = &fb[i];
                proof {
                    assert(fv.take(i + 1).drop_last() =~= fv.take(i as int));
                    assert(fv.take(i + 1).last() == cand@);
                }
                let clean = clean_candidate(cand.as_str());
                if char_count(clean) > 0 && !contains_clean(&merged, clean) {
                    let ghost before = merged@;
                    merged.push(to_owned_string(cand.as_str()));
                    assert(string_views(merged@) =~= string_views(before).push(cand@));
                }
                i = i + 1;
            }
            assert(fv.take(fb.len() as int) =~= fv);
            merged
        },
        None => merged,
    }
}

/// The reply for an okuri-ari lookup whose stems (with the fallback
/// candidates) are `merged`: ranked by the normalised midashi (`かK` is
/// ranked as `かk`). `None` when a score would overflow.
pub fn finish_okuri_lookup(
    predictor: &FrequencyPredictor,
    context: &[String],
    midashi: &str,
    merged: &Vec<String>,
) -> (r: Option<LookupReply>)
    requires
        predictor.wf(),
        merged@.len() > 0,
    ensures
        ({
            let cv = string_views(context@);
            let key = normalized_key_spec(midashi@);
            let cands = string_views(merged@);
            &&& r is None <==> !rank_safe(*predictor, cv, key, cands)
            &&& r matches Some(reply) ==> {
                let ranked = stable_rank(cands, predictor.rank_score(cv, key));
                &&& reply.response@ == format_spec(ranked)
                &&& reply.top_candidate matches Some(t) && t@ == ranked[0]
            }
        }),
{
    let refs = as_strs(merged);
    let norm = normalize_okuri_midashi_key(midashi);
    let key: &str = match &norm {
        std::borrow::Cow::Borrowed(b) => b,
        std::borrow::Cow::Owned(o) => o.as_str(),
    };
    if refs.len() > 1 && predictor.should_rank(context, key) && !predictor.scores_fit(
        context,
        key,
        refs.as_slice(),
    ) {
        return None;
    }
    let ranked = predictor.rank_candidates_borrowed(context, key, refs.as_slice());
    proof {
        crate::ranking::lemma_stable_rank_sorted(
            str_views(refs@),
            predictor.rank_score(string_views(context@), key@),
        );
    }
    let top = to_owned_string(ranked[0]);
    let out = format_candidates_response_str(ranked.as_slice());
    Some(LookupReply { response: out, top_candidate: Some(top) })
}

// ---------------------------------------------------------------------------
// Time budgets
// ---------------------------------------------------------------------------

/// Which upstream answered a lookup.
#[derive(Debug, Clone, Copy, PartialEq, Eq)]
pub enum BackendHit {
    Primary,
    Fallback,
    Miss,
}

/// The next step of a plain lookup after the primary query.
pub enum LookupStep {
    /// Reply with this response.
    Done(Vec<u8>, BackendHit),
    /// Query the fallback within this many milliseconds.
    QueryFallback(u64),
}

/// The timeout of the primary query of a plain lookup.
pub fn primary_timeout_ms(configured_ms: u64) -> (r: u64)
    ensures
        r == if configured_ms < PRIMARY_CAP_MS {
            configured_ms
        } else {
            PRIMARY_CAP_MS
        },
{
    if configured_ms < PRIMARY_CAP_MS {
        configured_ms
    } else {
        PRIMARY_CAP_MS
    }
}

/// `4\n`.
pub fn not_found_response() -> (r: Vec<u8>)
    ensures
        r@ == seq![NOT_FOUND, NEWLINE],
{
    let v: Vec<u8> = vec![NOT_FOUND, NEWLINE];
    assert(v@ =~= seq![NOT_FOUND, NEWLINE]);
    v
}

/// After the primary query (`None` when it failed): a hit is the answer;
/// otherwise the fallback gets what is left of the overall deadline, and
/// when nothing is left the answer is `4\n`.
pub fn after_primary(primary: Option<Vec<u8>>, elapsed_ms: u64) -> (r: LookupStep)
    ensures
        (primary matches Some(p) && p@.len() > 0 && p@[0] == 0x31u8) ==> (r matches LookupStep::Done(
            resp,
            hit,
        ) && resp@ == primary.unwrap()@ && hit == BackendHit::Primary),
        !(primary matches Some(p) && p@.len() > 0 && p@[0] == 0x31u8) ==> if elapsed_ms >= OVERALL_DEADLINE_MS {
            (r matches LookupStep::Done(resp, hit) && resp@ == seq![NOT_FOUND, NEWLINE] && hit == BackendHit::Miss)
        } else {
            (r matches LookupStep::QueryFallback(t) && t == OVERALL_DEADLINE_MS - elapsed_ms)
        },
{
    match primary {
        Some(p) => {
            if is_found(p.as_slice()) {
                return LookupStep::Done(p, BackendHit::Primary);
            }
        },
        None => {},
    }
    if elapsed_ms >= OVERALL_DEADLINE_MS {
        LookupStep::Done(not_found_response(), BackendHit::Miss)
    } else {
        LookupStep::QueryFallback(OVERALL_DEADLINE_MS - elapsed_ms)
    }
}

/// After the fallback query (`None` when it failed): its response, or `4\n`.
pub fn after_fallback(fallback: Option<Vec<u8>>) -> (r: (Vec<u8>, BackendHit))
    ensures
        fallback matches Some(f) ==> (r.0@ == f@ && r.1 == if f@.len() > 0 && f@[0] == 0x31u8 {
            BackendHit::Fallback
        } else {
            BackendHit::Miss
        }),
        fallback is None ==> r.0@ == seq![NOT_FOUND, NEWLINE] && r.1 == BackendHit::Miss,
{
    match fallback {
        Some(f) => {
            let hit = if is_found(f.as_slice()) {
                BackendHit::Fallback
            } else {
                BackendHit::Miss
            };
            (f, hit)
        },
        None => (not_found_response(), BackendHit::Miss),
    }
}

/// The timeout of the next okuri-ari variation query, or `None` once the
/// variations' overall budget is spent.
pub fn okuri_query_timeout_ms(primary_ms: u64, elapsed_ms: u64) -> (r: Option<u64>)
    ensures
        elapsed_ms >= OKURI_TOTAL_MS ==> r is None,
        elapsed_ms < OKURI_TOTAL_MS ==> (r matches Some(t) && t <= primary_ms && t <= OKURI_QUERY_CAP_MS
            && t <= OKURI_TOTAL_MS - elapsed_ms && (t == primary_ms || t == OKURI_QUERY_CAP_MS || t
            == OKURI_TOTAL_MS - elapsed_ms)),
{
    if elapsed_ms >= OKURI_TOTAL_MS {
        return None;
    }
    let remaining = OKURI_TOTAL_MS - elapsed_ms;
    let mut t = primary_ms;
    if OKURI_QUERY_CAP_MS < t {
        t = OKURI_QUERY_CAP_MS;
    }
    if remaining < t {
        t = remaining;
    }
    Some(t)
}

/// The timeout of the fallback query that completes okuri-ari stems.
pub fn okuri_fallback_timeout_ms(fallback_ms: u64) -> (r: u64)
    ensures
        r == if fallback_ms < OKURI_FALLBACK_CAP_MS {
            fallback_ms
        } else {
            OKURI_FALLBACK_CAP_MS
        },
{
    if fallback_ms < OKURI_FALLBACK_CAP_MS {
        fallback_ms
    } else {
        OKURI_FALLBACK_CAP_MS
    }
}

// ---------------------------------------------------------------------------
// Laws of the shared context
// ---------------------------------------------------------------------------

/// A first candidate holding a kanji becomes the ranking context of the next
/// lookup of another midashi made within the time limit (`肉` answered for
/// `にく` ranks the candidates of `きr`).
pub proof fn law_answer_becomes_context(
    session: Option<Seq<char>>,
    pending: Option<(Seq<char>, Seq<char>, u64)>,
    first_midashi: Seq<char>,
    top: Seq<char>,
    t1: u64,
    next_midashi: Seq<char>,
    t2: u64,
)
    requires
        contains_kanji_spec(clean_spec(top)),
        first_midashi != next_midashi,
        t1 <= t2,
        t2 - t1 <= CONTEXT_TTL_MS,
    ensures
        begin_spec(
            session,
            end_spec(pending, true, false, first_midashi, Some(top), t1),
            true,
            false,
            next_midashi,
            t2,
        ) == (Some(clean_spec(top)), None::<(Seq<char>, Seq<char>, u64)>),
{
}

/// A pending word older than the time limit is dropped, with the context,
/// when another midashi is looked up.
pub proof fn law_stale_answer_is_dropped(
    session: Option<Seq<char>>,
    pending_midashi: Seq<char>,
    word: Seq<char>,
    t1: u64,
    next_midashi: Seq<char>,
    t2: u64,
)
    requires
        pending_midashi != next_midashi,
        t1 <= t2,
        t2 - t1 > CONTEXT_TTL_MS,
    ensures
        begin_spec(session, Some((pending_midashi, word, t1)), true, false, next_midashi, t2) == (
            None::<Seq<char>>,
            None::<(Seq<char>, Seq<char>, u64)>,
        ),
{
}

/// Looking up the same midashi again (stepping through its candidates)
/// keeps the pending word pending and the context as it was.
pub proof fn law_same_midashi_keeps_pending(
    session: Option<Seq<char>>,
    midashi: Seq<char>,
    word: Seq<char>,
    t1: u64,
    now_ms: u64,
    context_ranking: bool,
    burst: bool,
)
    ensures
        begin_spec(session, Some((midashi, word, t1)), context_ranking, burst, midashi, now_ms) == (
            session,
            Some((midashi, word, t1)),
        ),
{
}

/// A completion burst, or context ranking turned off, leaves the shared
/// context untouched from the start of a lookup to its end.
pub proof fn law_burst_or_off_leaves_context(
    session: Option<Seq<char>>,
    pending: Option<(Seq<char>, Seq<char>, u64)>,
    context_ranking: bool,
    burst: bool,
    midashi: Seq<char>,
    top: Option<Seq<char>>,
    t1: u64,
    t2: u64,
)
    requires
        burst || !context_ranking,
    ensures
        begin_spec(session, pending, context_ranking, burst, midashi, t1) == (session, pending),
        end_spec(pending, context_ranking, burst, midashi, top, t2) == pending,
{
}

/// Only a first candidate holding a kanji (after its annotation is removed)
/// is kept as the next context word.
pub proof fn law_only_kanji_words_pend(
    pending: Option<(Seq<char>, Seq<char>, u64)>,
    midashi: Seq<char>,
    top: Seq<char>,
    now_ms: u64,
)
    requires
        !contains_kanji_spec(clean_spec(top)),
    ensures
        end_spec(pending, true, false, midashi, Some(top), now_ms) == pending,
{
}

/// A request's effect on the shared context, as the session applies it:
/// a lookup runs `begin_spec` then `end_spec` with its answer's first
/// candidate; a completion leaves the context alone.
pub enum ContextEvent {
    Lookup { midashi: Seq<char>, burst: bool, top: Option<Seq<char>>, now_ms: u64 },
    Completion,
}

/// The shared context (confirmed word, pending word) after one lookup.
pub open spec fn lookup_effect(
    st: (Option<Seq<char>>, Option<(Seq<char>, Seq<char>, u64)>),
    context_ranking: bool,
    burst: bool,
    midashi: Seq<char>,
    top: Option<Seq<char>>,
    now_ms: u64,
) -> (Option<Seq<char>>, Option<(Seq<char>, Seq<char>, u64)>) {
    let (session, pending) = begin_spec(st.0, st.1, context_ranking, burst, midashi, now_ms);
    (session, end_spec(pending, context_ranking, burst, midashi, top, now_ms))
}

/// The shared context after a sequence of requests.
pub open spec fn apply_events(
    st: (Option<Seq<char>>, Option<(Seq<char>, Seq<char>, u64)>),
    context_ranking: bool,
    events: Seq<ContextEvent>,
) -> (Option<Seq<char>>, Option<(Seq<char>, Seq<char>, u64)>)
    decreases events.len(),
{
    if events.len() == 0 {
        st
    } else {
        let before = apply_events(st, context_ranking, events.drop_last());
        match events.last() {
            ContextEvent::Lookup { midashi, burst, top, now_ms } => lookup_effect(
                before,
                context_ranking,
                burst,
                midashi,
                top,
                now_ms,
            ),
            ContextEvent::Completion => before,
        }
    }
}

/// Completions and completion-burst lookups only.
pub open spec fn only_bursts(events: Seq<ContextEvent>) -> bool {
    forall|i: int| 0 <= i < events.len() ==> match #[trigger] events[i] {
        ContextEvent::Lookup { burst, .. } => burst,
        ContextEvent::Completion => true,
    }
}

proof fn lemma_bursts_leave_context(
    st: (Option<Seq<char>>, Option<(Seq<char>, Seq<char>, u64)>),
    context_ranking: bool,
    events: Seq<ContextEvent>,
)
    requires
        only_bursts(events),
    ensures
        apply_events(st, context_ranking, events) == st,
    decreases events.len(),
{
    if events.len() > 0 {
        assert(only_bursts(events.drop_last())) by {
            assert forall|i: int| 0 <= i < events.drop_last().len() implies match #[trigger] events.drop_last()[i] {
                ContextEvent::Lookup { burst, .. } => burst,
                ContextEvent::Completion => true,
            } by {
                assert(events.drop_last()[i] == events[i]);
            }
        }
        lemma_bursts_leave_context(st, context_ranking, events.drop_last());
        assert(match events[events.len() - 1] {
            ContextEvent::Lookup { burst, .. } => burst,
            ContextEvent::Completion => true,
        });
    }
}

/// Across any requests in between: a lookup of `first_midashi` answered
/// first with a word holding a kanji (not a burst), followed by any number
/// of completions and completion-burst lookups, makes that word the ranking
/// context of the next regular lookup of another midashi within the time
/// limit (`にく` → `肉`, then bursts for `にほん`, `にほんご`, then `きr`
/// is ranked by `肉`).
pub proof fn law_context_survives_bursts(
    st: (Option<Seq<char>>, Option<(Seq<char>, Seq<char>, u64)>),
    first_midashi: Seq<char>,
    top: Seq<char>,
    t1: u64,
    between: Seq<ContextEvent>,
    next_midashi: Seq<char>,
    t2: u64,
)
    requires
        contains_kanji_spec(clean_spec(top)),
        only_bursts(between),
        first_midashi != next_midashi,
        t1 <= t2,
        t2 - t1 <= CONTEXT_TTL_MS,
    ensures
        ({
            let after_first = lookup_effect(st, true, false, first_midashi, Some(top), t1);
            let before_next = apply_events(after_first, true, between);
            begin_spec(before_next.0, before_next.1, true, false, next_midashi, t2).0 == Some(clean_spec(top))
        }),
{
    let after_first = lookup_effect(st, true, false, first_midashi, Some(top), t1);
    lemma_bursts_leave_context(after_first, true, between);
}

// ---------------------------------------------------------------------------
// Laws of the okuri merge
// ---------------------------------------------------------------------------

/// Merging fallback candidates after the stems keeps the stems first and
/// untouched; appends only fallback candidates with a non-empty cleaned
/// form, none of which repeats (once its annotation is removed) anything
/// before it; and leaves out no fallback candidate whose cleaned form is
/// not already there.
pub proof fn law_fallback_merge(stems: Seq<Seq<char>>, fb: Seq<Seq<char>>)
    ensures
        ({
            let r = fallback_merge_spec(stems, fb);
            &&& r.len() >= stems.len()
            &&& r.subrange(0, stems.len() as int) == stems
            &&& forall|i: int, j: int| stems.len() <= i < r.len() && 0 <= j < i ==> clean_spec(#[trigger] r[i])
                != clean_spec(#[trigger] r[j])
            &&& forall|i: int| stems.len() <= i < r.len() ==> fb.contains(#[trigger] r[i]) && clean_spec(r[i]).len() > 0
            &&& forall|k: int| 0 <= k < fb.len() && clean_spec(#[trigger] fb[k]).len() > 0 ==> exists|i: int|
                0 <= i < r.len() && clean_spec(#[trigger] r[i]) == clean_spec(fb[k])
        }),
    decreases fb.len(),
{
    if fb.len() == 0 {
        assert(stems.subrange(0, stems.len() as int) =~= stems);
    } else {
        let prev = fb.drop_last();
        law_fallback_merge(stems, prev);
        let a = fallback_merge_spec(stems, prev);
        let cand = fb.last();
        let r = fallback_merge_spec(stems, fb);
        assert(r == fallback_step(a, cand));
        assert forall|i: int| stems.len() <= i < a.len() implies fb.contains(#[trigger] a[i]) by {
            assert(prev.contains(a[i]));
            let k = choose|k: int| 0 <= k < prev.len() && prev[k] == a[i];
            assert(fb[k] == prev[k]);
        }
        if r.len() > a.len() {
            assert(r =~= a.push(cand));
            assert(r.subrange(0, stems.len() as int) =~= a.subrange(0, stems.len() as int));
            assert(fb.contains(cand)) by {
                assert(fb[fb.len() - 1] == cand);
            }
        }
        assert forall|k: int| 0 <= k < fb.len() && clean_spec(#[trigger] fb[k]).len() > 0 implies exists|i: int|
            0 <= i < r.len() && clean_spec(#[trigger] r[i]) == clean_spec(fb[k]) by {
            if k < fb.len() - 1 {
                assert(prev[k] == fb[k]);
                let i = choose|i: int| 0 <= i < a.len() && clean_spec(#[trigger] a[i]) == clean_spec(prev[k]);
                assert(r[i] == a[i]);
            } else {
                assert(fb[k] == cand);
                if r.len() > a.len() {
                    assert(r[a.len() as int] == cand);
                } else {
                    let i = choose|i: int| 0 <= i < a.len() && clean_spec(#[trigger] a[i]) == clean_spec(cand);
                    assert(r[i] == a[i]);
                }
            }
        }
    }
}

} // verus!
