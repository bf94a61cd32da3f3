use receipt_ingest::amount::{canonicalize_amount, find_last, map_currency, remove_char};

#[test]
fn canonicalize_amount_handles_commas_and_dots() {
    assert_eq!(canonicalize_amount("1,234.56"), "1234.56");
    assert_eq!(canonicalize_amount("1.234,56"), "1234.56");
    assert_eq!(canonicalize_amount("  12 345  "), "12345");
}

#[test]
fn map_currency_from_code_and_symbol() {
    assert_eq!(map_currency("sgd", true).as_deref(), Some("SGD"));
    assert_eq!(map_currency("S$", true).as_deref(), Some("SGD"));
    assert_eq!(map_currency("$", false), None);
}

#[test]
fn a_lone_comma_is_the_decimal_mark() {
    assert_eq!(canonicalize_amount("12,5"), "12.5");
    assert_eq!(canonicalize_amount("1,234,567"), "1.234.567");
    assert_eq!(canonicalize_amount("1.234.567"), "1.234.567");
    assert_eq!(canonicalize_amount(""), "");
    assert_eq!(canonicalize_amount("\t 7 \n"), "7");
}

#[test]
fn symbols_map_to_codes() {
    assert_eq!(map_currency("$", true).as_deref(), Some("USD"));
    assert_eq!(map_currency(" \u{a3} ", true).as_deref(), Some("GBP"));
    assert_eq!(map_currency("\u{a5}", true).as_deref(), Some("JPY"));
    assert_eq!(map_currency("?", true).as_deref(), Some("UNKNOWN"));
    assert_eq!(map_currency("", true).as_deref(), Some("UNKNOWN"));
    assert_eq!(map_currency("euro", false), None);
    // three bytes are taken as a code, whatever they are
    assert_eq!(map_currency("\u{20ac}", true).as_deref(), Some("\u{20ac}"));
    assert_eq!(map_currency("\u{20ac}", false).as_deref(), Some("\u{20ac}"));
    assert_eq!(map_currency(" usd\n", false).as_deref(), Some("USD"));
}

#[test]
fn characters_are_found_and_removed() {
    let chars: Vec<char> = "a,b,c".chars().collect();
    assert_eq!(find_last(&chars, ','), Some(3));
    assert_eq!(find_last(&chars, 'a'), Some(0));
    assert_eq!(find_last(&chars, 'x'), None);
    assert_eq!(remove_char(&chars, ','), vec!['a', 'b', 'c']);
}
