use solvanity::predicate::{MatchPredicate, PredicateConfig};

fn build(config: PredicateConfig) -> MatchPredicate {
    match MatchPredicate::build(config) {
        Ok(p) => p,
        Err(e) => panic!("configuration unexpectedly rejected: {}", e),
    }
}

#[test]
fn prefix_literal_agrees_with_starts_with() {
    let p = build(PredicateConfig::Prefix { word: "1".to_string(), ignore_case: false });
    for address in ["1abc", "11", "abc1", "", "2222", "1"] {
        assert_eq!(p.matches(address), address.starts_with("1"));
    }
    let q = build(PredicateConfig::Prefix { word: "So".to_string(), ignore_case: false });
    assert!(q.matches("Solana"));
    assert!(!q.matches("soLana"));
}

#[test]
fn empty_word_prefix_matches_everything() {
    let p = build(PredicateConfig::Prefix { word: String::new(), ignore_case: false });
    assert!(p.matches("x"));
    assert!(p.matches(""));
}

#[test]
fn case_insensitive_prefix() {
    let p = build(PredicateConfig::Prefix { word: "ABC".to_string(), ignore_case: true });
    assert!(p.matches("abcdef"));
    assert!(!p.matches("abxdef"));
}

#[test]
fn case_insensitive_suffix() {
    let p = build(PredicateConfig::Suffix { word: "DEF".to_string(), ignore_case: true });
    assert!(p.matches("abcdef"));
    let q = build(PredicateConfig::Suffix { word: "def".to_string(), ignore_case: false });
    assert!(q.matches("abcdef"));
    assert!(!q.matches("abcDEF"));
}

#[test]
fn repeating_counts_leading_run() {
    let three = build(PredicateConfig::Repeating { min_count: 3 });
    assert!(three.matches("aaabc"));
    let four = build(PredicateConfig::Repeating { min_count: 4 });
    assert!(!four.matches("aaabc"));
    let one = build(PredicateConfig::Repeating { min_count: 1 });
    assert!(!one.matches(""));
}

#[test]
fn regex_unanchored_search() {
    let p = build(PredicateConfig::Regex { pattern: "^A.*Z$".to_string() });
    assert!(p.matches("AxyzZ"));
    assert!(!p.matches("AxyzY"));
    let anywhere = build(PredicateConfig::Regex { pattern: "xyz".to_string() });
    assert!(anywhere.matches("00xyz11"));
}

#[test]
fn regex_with_lookahead() {
    let p = build(PredicateConfig::Regex { pattern: "a(?=b)".to_string() });
    assert!(p.matches("zab"));
    assert!(!p.matches("zac"));
}

#[test]
fn malformed_regex_is_rejected() {
    assert!(MatchPredicate::build(PredicateConfig::Regex { pattern: "(".to_string() }).is_err());
    assert!(MatchPredicate::build(PredicateConfig::Regex { pattern: "[".to_string() }).is_err());
}

#[test]
fn try_matches_reports_no_fault_on_plain_rules() {
    let p = build(PredicateConfig::Prefix { word: "a".to_string(), ignore_case: false });
    assert_eq!(p.try_matches("abc"), Ok(true));
    assert_eq!(p.try_matches("bbc"), Ok(false));
}

#[test]
fn duplicate_keeps_the_rule() {
    let p = build(PredicateConfig::Regex { pattern: "^A".to_string() });
    let q = p.duplicate();
    assert!(q.matches("Abc"));
    assert!(!q.matches("aAbc"));
}
