use reqwest::header::HeaderValue;
use zotero_csv_merge::decimal::parse_u64;
use zotero_csv_merge::zotero::HeaderValueExt;

#[test]
fn plain_number_is_read() {
    assert_eq!(HeaderValue::from_static("30").to_u64(), Some(30));
}

#[test]
fn version_header_is_read() {
    assert_eq!(HeaderValue::from_static("70117").to_u64(), Some(70117));
}

#[test]
fn header_with_opaque_bytes_is_no_number() {
    let value = HeaderValue::from_bytes(b"12\xfa").unwrap();
    assert_eq!(value.to_u64(), None);
}

#[test]
fn header_with_text_is_no_number() {
    assert_eq!(HeaderValue::from_static("soon").to_u64(), None);
    assert_eq!(HeaderValue::from_static("").to_u64(), None);
    assert_eq!(HeaderValue::from_static("1\t").to_u64(), None);
}

#[test]
fn header_agrees_with_parse_on_its_bytes() {
    for text in ["0", "+7", "007", "12a", "-3", "18446744073709551615", "18446744073709551616"] {
        let value = HeaderValue::from_str(text).unwrap();
        assert_eq!(value.to_u64(), parse_u64(value.as_bytes()));
    }
}

#[test]
fn parse_reads_digits() {
    assert_eq!(parse_u64(b"70117"), Some(70117));
    assert_eq!(parse_u64(b"0"), Some(0));
    assert_eq!(parse_u64(b"5"), Some(5));
}

#[test]
fn parse_accepts_a_leading_plus() {
    assert_eq!(parse_u64(b"+5"), Some(5));
    assert_eq!(parse_u64(b"+0"), Some(0));
}

#[test]
fn parse_accepts_leading_zeros() {
    assert_eq!(parse_u64(b"007"), Some(7));
    assert_eq!(parse_u64(b"0000000000000000000000000000000000001"), Some(1));
}

#[test]
fn parse_rejects_what_is_no_number() {
    assert_eq!(parse_u64(b""), None);
    assert_eq!(parse_u64(b"+"), None);
    assert_eq!(parse_u64(b"-5"), None);
    assert_eq!(parse_u64(b"++5"), None);
    assert_eq!(parse_u64(b"5+"), None);
    assert_eq!(parse_u64(b" 5"), None);
    assert_eq!(parse_u64(b"5 "), None);
    assert_eq!(parse_u64(b"1_000"), None);
    assert_eq!(parse_u64(b"1.5"), None);
    assert_eq!(parse_u64(b"0x10"), None);
    assert_eq!(parse_u64(b"12\xfa"), None);
}

#[test]
fn parse_stops_at_sixty_four_bits() {
    assert_eq!(parse_u64(b"18446744073709551615"), Some(u64::MAX));
    assert_eq!(parse_u64(b"18446744073709551616"), None);
    assert_eq!(parse_u64(b"18446744073709551620"), None);
    assert_eq!(parse_u64(b"99999999999999999999"), None);
    assert_eq!(parse_u64(b"184467440737095516150"), None);
}

#[test]
fn parse_agrees_with_std() {
    let samples: [&str; 12] = [
        "", "+", "0", "+1", "-1", "42", "0042", "4 2", "18446744073709551615",
        "18446744073709551616", "abc", "9223372036854775808",
    ];
    for text in samples {
        assert_eq!(parse_u64(text.as_bytes()), text.parse::<u64>().ok());
    }
}
