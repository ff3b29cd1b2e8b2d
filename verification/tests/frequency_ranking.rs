use ruskkserv::frequency::{CandidateScores, FrequencyPredictor};
use ruskkserv::strmap::StrMap;

fn scores(pairs: &[(&str, u64)]) -> CandidateScores {
    let mut m = StrMap::new();
    for (k, v) in pairs {
        m.insert(k.to_string(), *v);
    }
    m
}

#[test]
fn predictor_ranking_by_frequency() {
    let mut predictor = FrequencyPredictor::new(None);
    let candidates = vec!["愛".to_string(), "相".to_string(), "藍".to_string()];

    // Without scores the order is kept.
    let ranked = predictor.rank_candidates(&[] as &[String], "あい", &candidates);
    assert_eq!(ranked, vec!["愛", "相", "藍"]);

    // Seed data set directly, as a hand edit would.
    predictor.frequencies.insert("あい".to_string(), scores(&[("相", 2), ("藍", 7)]));
    predictor.expand_aliases();

    let ranked_after = predictor.rank_candidates(&[] as &[String], "あい", &candidates);
    assert_eq!(ranked_after, vec!["藍", "相", "愛"]);
}

#[test]
fn kanji_context_cooccurrence_ranking() {
    let mut predictor = FrequencyPredictor::new(None);
    let candidates = vec!["着る".to_string(), "切る".to_string(), "伐る".to_string()];
    let stem_candidates = vec!["着".to_string(), "切".to_string(), "伐".to_string()];

    predictor.context_frequencies.insert("肉".to_string(), scores(&[("切る", 3)]));
    predictor.context_frequencies.insert("服".to_string(), scores(&[("着る", 2)]));
    predictor.context_frequencies.insert("木".to_string(), scores(&[("伐る", 4)]));
    predictor.expand_aliases();

    let ranked_niku = predictor.rank_candidates(&["肉".to_string()], "きる", &candidates);
    assert_eq!(ranked_niku[0], "切る");
    let ranked_niku_stem = predictor.rank_candidates(&["肉".to_string()], "きr", &stem_candidates);
    assert_eq!(ranked_niku_stem[0], "切");

    let ranked_fuku = predictor.rank_candidates(&["服".to_string()], "きる", &candidates);
    assert_eq!(ranked_fuku[0], "着る");
    let ranked_fuku_stem = predictor.rank_candidates(&["服".to_string()], "きr", &stem_candidates);
    assert_eq!(ranked_fuku_stem[0], "着");

    let ranked_ki = predictor.rank_candidates(&["木".to_string()], "きる", &candidates);
    assert_eq!(ranked_ki[0], "伐る");
    let ranked_ki_stem = predictor.rank_candidates(&["木".to_string()], "きr", &stem_candidates);
    assert_eq!(ranked_ki_stem[0], "伐");

    // A context key `切る` is also found by the context word `切`.
    predictor.context_frequencies.insert("切る".to_string(), scores(&[("包丁", 10)]));
    predictor.expand_aliases();
    let nouchi_cands = vec!["包丁".to_string(), "庖丁".to_string()];
    let ranked_hocho = predictor.rank_candidates(&["切".to_string()], "ほうちょう", &nouchi_cands);
    assert_eq!(ranked_hocho[0], "包丁");
}

#[test]
fn test_should_rank_fast_path() {
    let mut predictor = FrequencyPredictor::new(None);
    assert!(!predictor.should_rank(&[] as &[String], "とうきょう"));
    assert!(!predictor.should_rank(&["服".to_string()], "とうきょう"));

    predictor.context_frequencies.insert("服".to_string(), scores(&[("着る", 10)]));
    predictor.expand_aliases();
    assert!(predictor.should_rank(&["服".to_string()], "きr"));
    assert!(!predictor.should_rank(&["車".to_string()], "きr"));

    predictor.frequencies.insert("あい".to_string(), scores(&[("愛", 5)]));
    predictor.expand_aliases();
    assert!(predictor.should_rank(&[] as &[String], "あい"));
}

#[test]
fn test_tedare_ranking() {
    let mut predictor = FrequencyPredictor::new(None);
    predictor.frequencies.insert("てだr".to_string(), scores(&[("手練", 2), ("手", 2)]));
    predictor.expand_aliases();
    let candidates = vec!["手だ", "手練", "て誰", "手足"];

    assert!(predictor.should_rank(&[] as &[String], "てだr"));
    let ranked = predictor.rank_candidates_borrowed(&[] as &[String], "てだr", &candidates);
    assert_eq!(ranked[0], "手練");

    assert!(predictor.should_rank(&[] as &[String], "てだR"));
    let ranked_upper = predictor.rank_candidates_borrowed(&[] as &[String], "てだR", &candidates);
    assert_eq!(ranked_upper[0], "手練");
}

#[test]
fn ranking_is_stable_for_equal_scores() {
    let mut predictor = FrequencyPredictor::new(None);
    predictor.frequencies.insert("かい".to_string(), scores(&[("貝", 3), ("会", 3), ("回", 1)]));
    let candidates = vec!["回", "会", "階", "貝"];
    let ranked = predictor.rank_candidates_borrowed(&[] as &[String], "かい", &candidates);
    assert_eq!(ranked, vec!["会", "貝", "回", "階"]);
}

#[test]
fn context_score_weighs_ten_times_frequency() {
    let mut predictor = FrequencyPredictor::new(None);
    predictor.frequencies.insert("きる".to_string(), scores(&[("着る", 15)]));
    predictor.context_frequencies.insert("肉".to_string(), scores(&[("切る", 2)]));
    let candidates = vec!["着る", "切る"];
    // 切る: 2 * 10 = 20 beats 着る: 15.
    let ranked = predictor.rank_candidates_borrowed(&["肉".to_string()], "きる", &candidates);
    assert_eq!(ranked, vec!["切る", "着る"]);
    // Without context 着る leads.
    let plain = predictor.rank_candidates_borrowed(&[] as &[String], "きる", &candidates);
    assert_eq!(plain, vec!["着る", "切る"]);
}

#[test]
fn annotations_are_ignored_when_scoring() {
    let mut predictor = FrequencyPredictor::new(None);
    predictor.frequencies.insert("きr".to_string(), scores(&[("切", 2), ("着", 3)]));
    let candidates = vec!["切;注釈", "着"];
    let ranked = predictor.rank_candidates_borrowed(&[] as &[String], "きr", &candidates);
    assert_eq!(ranked, vec!["着", "切;注釈"]);
}

#[test]
fn scores_fit_detects_overflow() {
    let mut predictor = FrequencyPredictor::new(None);
    predictor.context_frequencies.insert("肉".to_string(), scores(&[("切る", u64::MAX / 5)]));
    assert!(!predictor.scores_fit(&["肉".to_string()], "きる", &["切る", "着る"]));
    assert!(predictor.scores_fit(&[] as &[String], "きる", &["切る", "着る"]));
}

fn dump(t: &ruskkserv::frequency::ScoreTable) -> Vec<(String, Vec<(String, u64)>)> {
    let mut out = Vec::new();
    for i in 0..t.len() {
        let inner = t.value_at(i);
        let mut v: Vec<(String, u64)> =
            (0..inner.len()).map(|j| (inner.key_at(j).to_string(), *inner.value_at(j))).collect();
        v.sort();
        out.push((t.key_at(i).to_string(), v));
    }
    out.sort();
    out
}

#[test]
fn expanding_aliases_twice_changes_nothing() {
    let mut predictor = FrequencyPredictor::new(None);
    predictor.frequencies.insert("きr".to_string(), scores(&[("切る", 3), ("切", 1), ("着る", 2)]));
    predictor.context_frequencies.insert("切る".to_string(), scores(&[("包丁", 10)]));
    predictor.context_frequencies.insert("切り身".to_string(), scores(&[("魚", 4), ("包丁", 12)]));
    predictor.expand_aliases();
    let once = (dump(&predictor.frequencies), dump(&predictor.context_frequencies));
    // `切` got the larger score of `切る`.
    assert_eq!(predictor.frequencies.get("きr").unwrap().get("切").copied(), Some(3));
    predictor.expand_aliases();
    let twice = (dump(&predictor.frequencies), dump(&predictor.context_frequencies));
    assert_eq!(once, twice);
}
