use stake_indexer::amount::{normalize_amount, parse_i64_str, parse_u64_str, AmountError};

#[test]
fn test_normalize_strips_quotes_whitespace_and_decimals() {
    assert_eq!(normalize_amount("  \"123.45\"  ").unwrap(), "123");
}

#[test]
fn test_normalize_round_trip() {
    // Parsing a serialized non-negative integer gives the integer back.
    let once = normalize_amount("26000008342448094319999999").unwrap();
    assert_eq!(once, "26000008342448094319999999");
    let twice = normalize_amount(&once).unwrap();
    assert_eq!(twice, once);
}

#[test]
fn test_normalize_signs_and_separators() {
    assert_eq!(normalize_amount("-5").unwrap(), "-5");
    assert_eq!(normalize_amount("+7").unwrap(), "7");
    // Underscore separators pass through the integer parser.
    assert_eq!(normalize_amount("1_000").unwrap(), "1000");
}

#[test]
fn test_normalize_rejects_non_numbers() {
    assert_eq!(normalize_amount("all"), Err(AmountError::ParseAmount));
    assert_eq!(normalize_amount("abc"), Err(AmountError::ParseAmount));
    assert_eq!(normalize_amount(""), Err(AmountError::ParseAmount));
    assert_eq!(normalize_amount("..12"), Err(AmountError::ParseAmount));
}

#[test]
fn test_normalize_trims_unicode_whitespace() {
    // str::trim removes any Unicode whitespace; so does the normalizer.
    assert_eq!(normalize_amount("\u{a0}5").unwrap(), "5");
    assert_eq!(normalize_amount("\u{3000}\"42\"\u{2007}").unwrap(), "42");
}

#[test]
fn test_parse_u64_matches_std() {
    for s in ["0", "42", "+35", "18446744073709551615", "18446744073709551616", "", "-1", "1_0"] {
        assert_eq!(parse_u64_str(s), s.parse::<u64>().ok(), "input {:?}", s);
    }
}

#[test]
fn test_parse_i64_matches_std() {
    for s in [
        "0",
        "-1",
        "+9",
        "9223372036854775807",
        "-9223372036854775808",
        "9223372036854775808",
        "-9223372036854775809",
        "",
        "x",
    ] {
        assert_eq!(parse_i64_str(s), s.parse::<i64>().ok(), "input {:?}", s);
    }
}
