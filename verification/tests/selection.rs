use price_scraper::select::select_price;

#[test]
fn first_match_wins() {
    let candidates = vec!["abc".to_string(), "50,00".to_string(), "99,00".to_string()];
    let (i, p) = select_price(&candidates).unwrap();
    assert_eq!(i, 1);
    assert!(!p.negative);
    assert_eq!(p.mantissa, 5000);
    assert_eq!(p.scale, 2);
    assert_eq!(p.mantissa as f64 / 10f64.powi(p.scale as i32), 50.0);
}

#[test]
fn non_positive_candidates_are_skipped() {
    let candidates = vec!["0,00".to_string(), "-3".to_string(), "7".to_string()];
    let (i, p) = select_price(&candidates).unwrap();
    assert_eq!(i, 2);
    assert_eq!(p.mantissa, 7);
}

#[test]
fn no_usable_candidate_yields_none() {
    let candidates = vec!["abc".to_string(), "-3".to_string(), "0".to_string()];
    assert!(select_price(&candidates).is_none());
}

#[test]
fn empty_candidate_list_yields_none() {
    let candidates: Vec<String> = Vec::new();
    assert!(select_price(&candidates).is_none());
}
