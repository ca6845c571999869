use price_sampler::decimal::parse_u64;

#[test]
fn parses_plain_numbers() {
    assert_eq!(parse_u64("0"), Some(0));
    assert_eq!(parse_u64("7"), Some(7));
    assert_eq!(parse_u64("10"), Some(10));
    assert_eq!(parse_u64("1234567890"), Some(1234567890));
}

#[test]
fn accepts_one_leading_plus() {
    assert_eq!(parse_u64("+0"), Some(0));
    assert_eq!(parse_u64("+42"), Some(42));
    assert_eq!(parse_u64("++42"), None);
    assert_eq!(parse_u64("+"), None);
    assert_eq!(parse_u64("4+2"), None);
}

#[test]
fn accepts_leading_zeros() {
    assert_eq!(parse_u64("000"), Some(0));
    assert_eq!(parse_u64("0000000000000000000000000000000000000001"), Some(1));
    assert_eq!(parse_u64("+00018446744073709551615"), Some(u64::MAX));
}

#[test]
fn rejects_what_is_no_number() {
    for text in ["", " ", "-", "-1", "-0", "1 ", " 1", "1_0", "1.0", "1e3", "0x1f", "ten", "1\n", "\u{0661}", "\u{ff11}"] {
        assert_eq!(parse_u64(text), None, "{:?}", text);
    }
}

#[test]
fn rejects_numbers_that_do_not_fit() {
    assert_eq!(parse_u64("18446744073709551615"), Some(u64::MAX));
    assert_eq!(parse_u64("18446744073709551616"), None);
    assert_eq!(parse_u64("18446744073709551620"), None);
    assert_eq!(parse_u64("184467440737095516150"), None);
    assert_eq!(parse_u64("100000000000000000000"), None);
}

#[test]
fn agrees_with_the_standard_parser() {
    let texts = [
        "", "+", "-", "0", "+0", "-0", "1", "+1", "-1", "09", "9", "99", "123", "00123", "+00123",
        "12a", "a12", "1 2", " 12", "12 ", "1_2", "1,2", "1.2", "\u{663}", "18446744073709551614",
        "18446744073709551615", "18446744073709551616", "18446744073709551625",
        "28446744073709551615", "+18446744073709551615", "+18446744073709551616",
        "000000000000000000000018446744073709551615", "340282366920938463463374607431768211456",
    ];
    for text in texts {
        assert_eq!(parse_u64(text), text.parse::<u64>().ok(), "{:?}", text);
    }
}

#[test]
fn agrees_with_the_standard_parser_on_many_numbers() {
    let mut n: u64 = 1;
    for _ in 0..200 {
        let text = n.to_string();
        assert_eq!(parse_u64(&text), Some(n));
        let longer = format!("{}0", text);
        assert_eq!(parse_u64(&longer), longer.parse::<u64>().ok());
        n = n.wrapping_mul(6364136223846793005).wrapping_add(1442695040888963407);
    }
}
