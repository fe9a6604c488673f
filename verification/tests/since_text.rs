use mdk_cli::plan::read_since;
use mdk_cli::since::parse_since;

#[test]
fn parse_since_reads_decimal_seconds() {
    assert_eq!(parse_since("0"), Some(0));
    assert_eq!(parse_since("1700000000"), Some(1_700_000_000));
    assert_eq!(parse_since("007"), Some(7));
    assert_eq!(parse_since("+5"), Some(5));
    assert_eq!(parse_since("18446744073709551615"), Some(u64::MAX));
}

#[test]
fn parse_since_rejects_what_is_no_timestamp() {
    assert_eq!(parse_since(""), None);
    assert_eq!(parse_since("+"), None);
    assert_eq!(parse_since("-1"), None);
    assert_eq!(parse_since("++1"), None);
    assert_eq!(parse_since("12a"), None);
    assert_eq!(parse_since(" 12"), None);
    assert_eq!(parse_since("12 "), None);
    assert_eq!(parse_since("1_000"), None);
    assert_eq!(parse_since("1.5"), None);
    assert_eq!(parse_since("٣"), None);
    assert_eq!(parse_since("note1abc"), None);
}

#[test]
fn parse_since_rejects_numbers_beyond_64_bits() {
    assert_eq!(parse_since("18446744073709551616"), None);
    assert_eq!(parse_since("99999999999999999999"), None);
    assert_eq!(parse_since("184467440737095516150"), None);
    assert_eq!(parse_since("1844674407370955161x"), None);
}

#[test]
fn parse_since_agrees_with_the_standard_parser() {
    let inputs = [
        "", "0", "1", "+1", "+", "-", "-0", "+0", "00", "42", "a", "4a", "a4", " 4", "4 ",
        "18446744073709551615", "18446744073709551616", "018446744073709551615",
        "+18446744073709551615", "1e3", "0x10", "９",
    ];
    for input in inputs {
        assert_eq!(parse_since(input), input.parse::<u64>().ok(), "input {:?}", input);
    }
}

#[test]
fn read_since_takes_an_optional_text() {
    assert_eq!(read_since(None), None);
    assert_eq!(read_since(Some("1000")), Some(1000));
    assert_eq!(read_since(Some("soon")), None);
}
