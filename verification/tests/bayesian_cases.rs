use ruskkserv::bayesian::BayesianPredictor;

#[test]
fn test_predictor_ranking() {
    let mut predictor = BayesianPredictor::new(None);
    let candidates = vec!["愛".to_string(), "相".to_string(), "藍".to_string()];

    // Initial ranking should preserve the input order
    let ranked = predictor.rank_candidates("あい", &candidates);
    assert_eq!(ranked, vec!["愛", "相", "藍"]);

    // Observe "相" twice and "藍" 5 times
    predictor.observe("あい", "相");
    predictor.observe("あい", "相");
    predictor.observe("あい", "藍");
    predictor.observe("あい", "藍");
    predictor.observe("あい", "藍");
    predictor.observe("あい", "藍");
    predictor.observe("あい", "藍");

    let ranked_after = predictor.rank_candidates("あい", &candidates);
    assert_eq!(ranked_after, vec!["藍", "相", "愛"]);
}
