use receipt_ingest::relevance::{FilterError, KeywordRegex};
use receipt_ingest::rules::{applies, contains_text, matches_at, CompiledRule, Normalize};

fn rule(subject_re: Option<&str>) -> CompiledRule {
    CompiledRule {
        id: "x".to_string(),
        from_contains: vec!["bank.com".to_string()],
        subject_re: subject_re.map(|p| KeywordRegex { pattern: p.to_string() }),
        patterns: vec![],
        norm: Normalize { currency_from_symbol: true, decimal_heuristics: None, tz: None },
    }
}

#[test]
fn applies_checks_from_and_subject() {
    let rule = rule(Some(r"(?i)receipt"));
    assert_eq!(applies(&rule, "no-reply@bank.com", "Your receipt is ready"), Ok(true));
    assert_eq!(applies(&rule, "no-reply@shop.com", "Your receipt is ready"), Ok(false));
    assert_eq!(applies(&rule, "no-reply@bank.com", "Statement"), Ok(false));
}

#[test]
fn a_rule_without_a_pattern_takes_every_subject() {
    assert_eq!(applies(&rule(None), "no-reply@bank.com", "anything"), Ok(true));
    assert_eq!(applies(&rule(None), "no-reply@shop.com", "anything"), Ok(false));
    let mut nobody = rule(None);
    nobody.from_contains = Vec::new();
    assert_eq!(applies(&nobody, "no-reply@bank.com", "anything"), Ok(false));
}

#[test]
fn a_broken_pattern_counts_only_for_a_fitting_sender() {
    let broken = rule(Some("("));
    assert_eq!(applies(&broken, "no-reply@bank.com", "x"), Err(FilterError::InvalidPattern));
    assert_eq!(applies(&broken, "no-reply@shop.com", "x"), Ok(false));
}

#[test]
fn texts_are_searched_for() {
    let hay: Vec<char> = "abcabd".chars().collect();
    let find = |n: &str| contains_text(&hay, &n.chars().collect());
    assert!(find("abd"));
    assert!(find("abc"));
    assert!(find(""));
    assert!(find("abcabd"));
    assert!(!find("abe"));
    assert!(!find("abcabdx"));
    assert!(contains_text(&Vec::new(), &Vec::new()));
    assert!(matches_at(&vec!['c', 'a'], &hay, 2));
    assert!(!matches_at(&vec!['c', 'a'], &hay, 3));
}
