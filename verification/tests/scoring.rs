use sherlock::scoring::{element_match, match_elements, ElementMatch};

#[test]
fn element_kinds_rank_as_search_expects() {
    assert_eq!(element_match("calc", "calc"), ElementMatch::Exact);
    assert_eq!(element_match("calc", "CALC"), ElementMatch::CaseInsensitive);
    assert_eq!(element_match("calc", "Calculator"), ElementMatch::Prefix);
    assert_eq!(element_match("calc", "my_calc_app"), ElementMatch::Substring(3));
    assert_eq!(element_match("calc", "clac"), ElementMatch::Distance(2));
    assert_eq!(element_match("calc", "firefox"), ElementMatch::NoMatch);
    // the window for a query of four bytes is two bytes
    assert_eq!(element_match("calc", "cabcd"), ElementMatch::Distance(2));
    assert_eq!(element_match("calc", "cabcde"), ElementMatch::NoMatch);
    // positions count characters of the lowered name
    assert_eq!(element_match("b", "äb"), ElementMatch::Substring(1));
}

#[test]
fn names_are_matched_up_to_a_decisive_one() {
    let r = match_elements("calc", "calculator;;CALC;calc");
    assert_eq!(
        r,
        vec![
            ("calculator".to_string(), ElementMatch::Prefix),
            ("CALC".to_string(), ElementMatch::CaseInsensitive),
        ]
    );
    assert!(match_elements("calc", "").is_empty());
    assert_eq!(match_elements("x", ";y;").len(), 1);
}
