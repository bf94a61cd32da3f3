use receipt_ingest::relevance::{build_keyword_regex, default_keywords, FilterError, KeywordRegex};

#[test]
fn a_subject_with_a_keyword_is_relevant() {
    let filter = build_keyword_regex(&default_keywords());
    assert_eq!(filter.is_match("You spent $12.34"), Ok(true));
    assert_eq!(filter.is_match("Weekly newsletter"), Ok(false));
    assert_eq!(filter.is_match("Payment confirmation"), Ok(true));
    assert_eq!(filter.is_match("Hello"), Ok(false));
}

#[test]
fn a_configured_keyword_is_found() {
    let filter = build_keyword_regex(&vec!["receipt".to_string()]);
    assert_eq!(filter.is_match("Your receipt is ready"), Ok(true));
    assert_eq!(filter.is_match("Statement"), Ok(false));
}

#[test]
fn keywords_match_whole_words_whatever_the_case() {
    let filter = build_keyword_regex(&default_keywords());
    assert_eq!(filter.is_match("TRANSACTION alert"), Ok(true));
    assert_eq!(filter.is_match("overspent again"), Ok(false));
    assert_eq!(filter.is_match("payments due"), Ok(false));
}

#[test]
fn the_pattern_is_written_out() {
    let filter = build_keyword_regex(&default_keywords());
    assert_eq!(filter.pattern, r"(?i)\b(?:transaction|spent|payment)\b");
}

#[test]
fn meta_characters_of_a_keyword_are_escaped() {
    let filter = build_keyword_regex(&vec!["a.b".to_string(), "c+d".to_string()]);
    assert_eq!(filter.pattern, r"(?i)\b(?:a\.b|c\+d)\b");
    assert_eq!(filter.is_match("see a.b here"), Ok(true));
    assert_eq!(filter.is_match("see axb here"), Ok(false));
}

#[test]
fn a_pattern_that_does_not_compile_is_an_error() {
    let broken = KeywordRegex { pattern: "(".to_string() };
    assert_eq!(broken.is_match("anything"), Err(FilterError::InvalidPattern));
}
