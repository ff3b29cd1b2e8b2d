use ruskkserv::dict_import::{dict_line_entry, ImportError};
use ruskkserv::frequency::{CandidateScores, FrequencyPredictor, FrequencyPredictorData, ScoreTable};
use ruskkserv::strmap::StrMap;

fn scores(pairs: &[(&str, u64)]) -> CandidateScores {
    let mut m = StrMap::new();
    for (k, v) in pairs {
        m.insert(k.to_string(), *v);
    }
    m
}

fn no_preset() -> FrequencyPredictorData {
    FrequencyPredictorData { frequencies: StrMap::new(), context_frequencies: None }
}

fn sample_preset() -> FrequencyPredictorData {
    let mut ctx: ScoreTable = StrMap::new();
    ctx.insert("服".to_string(), scores(&[("着る", 10)]));
    ctx.insert("肉".to_string(), scores(&[("切る", 10)]));
    ctx.insert("時間".to_string(), scores(&[("計る", 10)]));
    FrequencyPredictorData { frequencies: StrMap::new(), context_frequencies: Some(ctx) }
}

fn score(t: &ScoreTable, key: &str, cand: &str) -> u64 {
    t.get(key).and_then(|m| m.get(cand).copied()).unwrap_or(0)
}

#[test]
fn test_import_from_skk_dict() {
    let mut dict = String::new();
    dict.push_str(";; okuri-ari entries.\n");
    dict.push_str("きr /[る/着/切;注釈/伐/]/[り/切/]/\n");
    dict.push_str(";; okuri-nasi entries.\n");
    dict.push_str("ふく /服/吹く/副/\n");

    let mut predictor = FrequencyPredictor::new(None);
    // Existing context data is kept.
    predictor.context_frequencies.insert("肉".to_string(), scores(&[("切", 10)]));

    predictor.import_from_skk_dict(&dict, no_preset()).unwrap();

    // `/[る/着/切;注釈/伐/]/[り/切/]/` gives 着=3, 切=2, 伐=1, and no `[る` or `]`.
    let kir_freqs = predictor.frequencies.get("きr").unwrap();
    assert!(!kir_freqs.contains_key("[る"));
    assert!(!kir_freqs.contains_key("]"));
    assert_eq!(kir_freqs.get("着").copied().unwrap_or(0), 3);
    assert_eq!(kir_freqs.get("切").copied().unwrap_or(0), 2);
    assert_eq!(kir_freqs.get("伐").copied().unwrap_or(0), 1);

    // An annotated candidate (`切;注釈あり`) is scored by its cleaned form.
    let ranked = predictor.rank_candidates(
        &[] as &[String],
        "きr",
        &["伐".to_string(), "切;注釈あり".to_string(), "着".to_string()],
    );
    assert_eq!(ranked[0], "着");
    assert_eq!(ranked[1], "切;注釈あり");
    assert_eq!(ranked[2], "伐");

    let fuku_freqs = predictor.frequencies.get("ふく").unwrap();
    assert_eq!(fuku_freqs.get("服").copied().unwrap_or(0), 3);
    assert_eq!(fuku_freqs.get("吹く").copied().unwrap_or(0), 2);
    assert_eq!(fuku_freqs.get("副").copied().unwrap_or(0), 1);

    let niku_ctx = predictor.context_frequencies.get("肉").unwrap();
    assert_eq!(niku_ctx.get("切").copied().unwrap_or(0), 10);
}

#[test]
fn test_init_seed_and_merge_default_presets() {
    let mut predictor = FrequencyPredictor::new(None);
    assert!(predictor.context_frequencies.is_empty());

    predictor.init_seed(false, sample_preset());

    assert_eq!(score(&predictor.context_frequencies, "服", "着る"), 10);
    assert_eq!(score(&predictor.context_frequencies, "肉", "切る"), 10);
    assert_eq!(score(&predictor.context_frequencies, "時間", "計る"), 10);
}

#[test]
fn import_adds_to_existing_scores() {
    let mut predictor = FrequencyPredictor::new(None);
    predictor.frequencies.insert("ふく".to_string(), scores(&[("副", 5)]));
    predictor.context_frequencies.insert("肉".to_string(), scores(&[("切", 1)]));
    predictor
        .import_from_skk_dict("ふく /服/吹く/副/\nふく /吹く/\n", no_preset())
        .unwrap();
    assert_eq!(score(&predictor.frequencies, "ふく", "服"), 3);
    assert_eq!(score(&predictor.frequencies, "ふく", "吹く"), 3);
    assert_eq!(score(&predictor.frequencies, "ふく", "副"), 6);
}

#[test]
fn import_merges_preset_when_context_is_empty() {
    let mut predictor = FrequencyPredictor::new(None);
    predictor.import_from_skk_dict("ふく /服/\n", sample_preset()).unwrap();
    assert_eq!(score(&predictor.frequencies, "ふく", "服"), 1);
    assert_eq!(score(&predictor.context_frequencies, "服", "着る"), 10);
    // Context aliases are expanded: `着る` is also found as `着`.
    assert_eq!(score(&predictor.context_frequencies, "服", "着"), 10);
}

#[test]
fn import_skips_malformed_lines() {
    let mut predictor = FrequencyPredictor::new(None);
    predictor.context_frequencies.insert("肉".to_string(), scores(&[("切", 1)]));
    let dict = "\n   \n;; comment\nnospace\nふく 服/\nふく /服\nき //\n  かい /会/貝/  \r\n";
    predictor.import_from_skk_dict(dict, no_preset()).unwrap();
    assert!(predictor.frequencies.get("ふく").is_none());
    assert!(predictor.frequencies.get("き").is_none());
    assert_eq!(score(&predictor.frequencies, "かい", "会"), 2);
    assert_eq!(score(&predictor.frequencies, "かい", "貝"), 1);
}

#[test]
fn import_overflow_is_refused_unchanged() {
    let mut predictor = FrequencyPredictor::new(None);
    predictor.frequencies.insert("ふく".to_string(), scores(&[("服", u64::MAX - 1)]));
    predictor.context_frequencies.insert("肉".to_string(), scores(&[("切", 1)]));
    let r = predictor.import_from_skk_dict("ふく /副/\nふく /服/吹く/\n", no_preset());
    assert_eq!(r, Err(ImportError::ScoreOverflow));
    assert_eq!(score(&predictor.frequencies, "ふく", "服"), u64::MAX - 1);
    assert!(predictor.frequencies.get("ふく").unwrap().get("副").is_none());
    assert_eq!(ImportError::ScoreOverflow.message(), "candidate score overflow");
}

#[test]
fn dict_line_entry_reads_midashi_and_candidates() {
    let (m, c) = dict_line_entry("  きr /[る/着/切;注釈/伐/]/[り/切/]/ ").unwrap();
    assert_eq!(m, "きr");
    assert_eq!(c, vec!["着", "切", "伐"]);
    assert!(dict_line_entry(";; comment /a/").is_none());
    assert!(dict_line_entry("ふく").is_none());
    assert!(dict_line_entry("ふく 服/").is_none());
    assert!(dict_line_entry("ふく /[る/]/").is_none());
}
