//! The decisions of a proxy session, driven through the library with
//! upstream servers simulated by closures.
use ruskkserv::frequency::{CandidateScores, FrequencyPredictor};
use ruskkserv::okuri::expand_okuri_variations;
use ruskkserv::protocol::is_found;
use ruskkserv::session::{
    after_fallback, after_primary, begin_lookup, collect_okuri_stems, end_lookup,
    finish_okuri_lookup, finish_plain_lookup, is_completion_burst, merge_fallback_candidates,
    BackendHit, LookupStep, SharedContextState,
};
use ruskkserv::strmap::StrMap;

fn scores(pairs: &[(&str, u64)]) -> CandidateScores {
    let mut m = StrMap::new();
    for (k, v) in pairs {
        m.insert(k.to_string(), *v);
    }
    m
}

struct Session<'a> {
    state: &'a mut SharedContextState,
    last_response_ms: Option<u64>,
}

#[allow(clippy::too_many_arguments)]
fn lookup(
    session: &mut Session,
    predictor: &FrequencyPredictor,
    context_ranking: bool,
    okuri_expansion: bool,
    now: u64,
    midashi: &str,
    primary: &dyn Fn(&str) -> Vec<u8>,
    fallback: &dyn Fn(&str) -> Option<Vec<u8>>,
) -> String {
    let burst = is_completion_burst(session.last_response_ms, now);
    let context = begin_lookup(session.state, context_ranking, burst, midashi, now);
    let mut reply = None;
    if okuri_expansion {
        let mut responses = Vec::new();
        for var in expand_okuri_variations(midashi) {
            let r = primary(&var.query_midashi);
            if is_found(&r) {
                responses.push((r, var));
            }
        }
        let stems = collect_okuri_stems(&responses);
        if !stems.is_empty() {
            let fb = fallback(midashi).filter(|r| is_found(r));
            let merged = merge_fallback_candidates(stems, fb.as_deref());
            reply = Some(finish_okuri_lookup(predictor, &context, midashi, &merged).unwrap());
        }
    }
    let reply = match reply {
        Some(r) => r,
        None => {
            let response = match after_primary(Some(primary(midashi)), 0) {
                LookupStep::Done(r, _) => r,
                LookupStep::QueryFallback(_) => after_fallback(fallback(midashi)).0,
            };
            finish_plain_lookup(predictor, &context, midashi, response).unwrap()
        }
    };
    end_lookup(
        session.state,
        context_ranking,
        burst,
        midashi,
        reply.top_candidate.as_deref(),
        now,
    );
    session.last_response_ms = Some(now);
    String::from_utf8(reply.response).unwrap()
}

fn no_fallback(_: &str) -> Option<Vec<u8>> {
    None
}

fn kiru_upstream(m: &str) -> Vec<u8> {
    let r = match m {
        "にく" => "1/肉/\n",
        "ふく" => "1/服/\n",
        "き" => "1/木/\n",
        "きる" => "1/着る/切る/伐る/\n",
        "にほん" => "1/日本/\n",
        "にほんご" => "1/日本語/\n",
        _ => "4\n",
    };
    r.as_bytes().to_vec()
}

fn kiru_predictor() -> FrequencyPredictor {
    let mut predictor = FrequencyPredictor::new(None);
    predictor.frequencies.insert("きr".to_string(), scores(&[("着", 3), ("切", 2), ("伐", 1)]));
    predictor.context_frequencies.insert("肉".to_string(), scores(&[("切る", 10)]));
    predictor.context_frequencies.insert("服".to_string(), scores(&[("着る", 10)]));
    predictor.context_frequencies.insert("木".to_string(), scores(&[("伐る", 10)]));
    predictor.expand_aliases();
    predictor
}

#[test]
fn okuri_expansion_resolves_verb() {
    let predictor = FrequencyPredictor::new(None);
    let mut state = SharedContextState::new();
    let mut s = Session { state: &mut state, last_response_ms: None };
    let primary = |m: &str| -> Vec<u8> {
        if m == "かく" { "1/書く/各/描く/辛く/\n".as_bytes().to_vec() } else { b"4\n".to_vec() }
    };
    let resp = lookup(&mut s, &predictor, false, true, 0, "かk", &primary, &no_fallback);
    assert_eq!(resp, "1/書/描/辛/\n");
}

#[test]
fn okuri_expansion_disabled_passes_through() {
    let predictor = FrequencyPredictor::new(None);
    let mut state = SharedContextState::new();
    let mut s = Session { state: &mut state, last_response_ms: None };
    let primary = |m: &str| -> Vec<u8> {
        if m == "かk" { "1/化/家/書/\n".as_bytes().to_vec() } else { b"4\n".to_vec() }
    };
    let resp = lookup(&mut s, &predictor, false, false, 0, "かk", &primary, &no_fallback);
    assert_eq!(resp, "1/化/家/書/\n");
}

#[test]
fn okuri_stems_merge_fallback_candidates() {
    let predictor = FrequencyPredictor::new(None);
    let mut state = SharedContextState::new();
    let mut s = Session { state: &mut state, last_response_ms: None };
    let primary = |m: &str| -> Vec<u8> {
        if m == "おもった" {
            "1/思った/\n".as_bytes().to_vec()
        } else if m == "おもって" {
            "1/思って/想って/\n".as_bytes().to_vec()
        } else {
            b"4\n".to_vec()
        }
    };
    let fallback = |m: &str| -> Option<Vec<u8>> {
        if m == "おもt" { Some("1/重;注釈/[っ/思/]/想/\n".as_bytes().to_vec()) } else { None }
    };
    let resp = lookup(&mut s, &predictor, false, true, 0, "おもt", &primary, &fallback);
    assert_eq!(resp, "1/思/想/重;注釈/\n");
}

#[test]
fn context_ranking_promotes_candidates() {
    let predictor = kiru_predictor();
    let mut state = SharedContextState::new();
    {
        let mut s = Session { state: &mut state, last_response_ms: None };
        assert_eq!(lookup(&mut s, &predictor, true, true, 0, "にく", &kiru_upstream, &no_fallback), "1/肉/\n");
        assert_eq!(lookup(&mut s, &predictor, true, true, 80, "きr", &kiru_upstream, &no_fallback), "1/切/着/伐/\n");
    }
    {
        let mut s = Session { state: &mut state, last_response_ms: None };
        assert_eq!(lookup(&mut s, &predictor, true, true, 240, "ふく", &kiru_upstream, &no_fallback), "1/服/\n");
        assert_eq!(lookup(&mut s, &predictor, true, true, 320, "きr", &kiru_upstream, &no_fallback), "1/着/切/伐/\n");
    }
    {
        let mut s = Session { state: &mut state, last_response_ms: None };
        assert_eq!(lookup(&mut s, &predictor, true, true, 480, "き", &kiru_upstream, &no_fallback), "1/木/\n");
        assert_eq!(lookup(&mut s, &predictor, true, true, 560, "きr", &kiru_upstream, &no_fallback), "1/伐/着/切/\n");
    }
}

#[test]
fn context_ranking_disabled_keeps_frequency_order() {
    let predictor = kiru_predictor();
    let mut state = SharedContextState::new();
    let mut s = Session { state: &mut state, last_response_ms: None };
    assert_eq!(lookup(&mut s, &predictor, false, true, 0, "にく", &kiru_upstream, &no_fallback), "1/肉/\n");
    assert_eq!(lookup(&mut s, &predictor, false, true, 80, "きr", &kiru_upstream, &no_fallback), "1/着/切/伐/\n");
}

#[test]
fn context_protected_against_completion_burst() {
    let mut predictor = kiru_predictor();
    predictor.context_frequencies.insert("日本語".to_string(), scores(&[("着る", 50)]));
    predictor.expand_aliases();
    let mut state = SharedContextState::new();
    let mut s = Session { state: &mut state, last_response_ms: None };
    assert_eq!(lookup(&mut s, &predictor, true, true, 0, "にく", &kiru_upstream, &no_fallback), "1/肉/\n");
    lookup(&mut s, &predictor, true, true, 10, "にほん", &kiru_upstream, &no_fallback);
    lookup(&mut s, &predictor, true, true, 20, "にほんご", &kiru_upstream, &no_fallback);
    assert_eq!(lookup(&mut s, &predictor, true, true, 220, "きr", &kiru_upstream, &no_fallback), "1/切/着/伐/\n");
}

#[test]
fn stale_context_is_dropped() {
    let predictor = kiru_predictor();
    let mut state = SharedContextState::new();
    let mut s = Session { state: &mut state, last_response_ms: None };
    lookup(&mut s, &predictor, true, true, 0, "にく", &kiru_upstream, &no_fallback);
    // More than a minute later the pending word no longer counts.
    assert_eq!(
        lookup(&mut s, &predictor, true, true, 60_001, "きr", &kiru_upstream, &no_fallback),
        "1/着/切/伐/\n"
    );
    assert!(state.session_context.is_none());
}

#[test]
fn repeated_midashi_keeps_pending_word() {
    let predictor = kiru_predictor();
    let mut state = SharedContextState::new();
    let mut s = Session { state: &mut state, last_response_ms: None };
    lookup(&mut s, &predictor, true, true, 0, "にく", &kiru_upstream, &no_fallback);
    lookup(&mut s, &predictor, true, true, 100, "にく", &kiru_upstream, &no_fallback);
    assert!(s.state.session_context.is_none());
    let p = s.state.pending_context.as_ref().unwrap();
    assert_eq!(p.midashi, "にく");
    assert_eq!(p.word, "肉");
}

#[test]
fn fallback_answers_a_primary_miss() {
    let primary = Some(b"4\n".to_vec());
    match after_primary(primary, 100) {
        LookupStep::QueryFallback(ms) => assert_eq!(ms, 750),
        LookupStep::Done(..) => panic!("expected a fallback query"),
    }
    let (resp, hit) = after_fallback(Some("1/服/\n".as_bytes().to_vec()));
    assert_eq!(resp, "1/服/\n".as_bytes());
    assert_eq!(hit, BackendHit::Fallback);
    let (resp, hit) = after_fallback(None);
    assert_eq!(resp, b"4\n");
    assert_eq!(hit, BackendHit::Miss);
    let (resp, hit) = after_fallback(Some(b"4\n".to_vec()));
    assert_eq!(resp, b"4\n");
    assert_eq!(hit, BackendHit::Miss);
}

#[test]
fn primary_hit_is_returned_and_deadline_ends_search() {
    match after_primary(Some("1/木/\n".as_bytes().to_vec()), 900) {
        LookupStep::Done(r, hit) => {
            assert_eq!(r, "1/木/\n".as_bytes());
            assert_eq!(hit, BackendHit::Primary);
        }
        LookupStep::QueryFallback(_) => panic!("expected the primary's hit"),
    }
    match after_primary(None, 850) {
        LookupStep::Done(r, hit) => {
            assert_eq!(r, b"4\n");
            assert_eq!(hit, BackendHit::Miss);
        }
        LookupStep::QueryFallback(_) => panic!("expected the deadline to end the lookup"),
    }
}

#[test]
fn seed_frequency_promotes_over_upstream_order() {
    let mut predictor = FrequencyPredictor::new(None);
    predictor.frequencies.insert("KiRu".to_string(), scores(&[("着る", 10)]));
    predictor.expand_aliases();
    let mut state = SharedContextState::new();
    let mut s = Session { state: &mut state, last_response_ms: None };
    let primary_down = |_: &str| -> Vec<u8> { b"4\n".to_vec() };
    let fallback = |m: &str| -> Option<Vec<u8>> {
        if m == "KiRu" || m == "kiru" { Some("1/切る/着る/\n".as_bytes().to_vec()) } else { Some(b"4\n".to_vec()) }
    };
    let resp = lookup(&mut s, &predictor, false, false, 0, "KiRu", &primary_down, &fallback);
    assert_eq!(resp, "1/着る/切る/\n");
    // A midashi without seed data is passed on as the upstream gave it.
    let resp = lookup(&mut s, &predictor, false, false, 100, "kiru", &primary_down, &fallback);
    assert_eq!(resp, "1/切る/着る/\n");
}
