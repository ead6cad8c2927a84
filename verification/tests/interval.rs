use icy_metadata::interval::parse_interval;

#[test]
fn reads_a_plain_number() {
    assert_eq!(parse_interval(b"8"), 8);
    assert_eq!(parse_interval(b"16000"), 16000);
    assert_eq!(parse_interval(b"8192"), 8192);
}

#[test]
fn reads_a_number_with_a_plus_sign() {
    assert_eq!(parse_interval(b"+8"), 8);
}

#[test]
fn reads_leading_zeros() {
    assert_eq!(parse_interval(b"007"), 7);
    assert_eq!(parse_interval(b"0"), 0);
}

#[test]
fn reads_the_largest_interval() {
    let text = usize::MAX.to_string();
    assert_eq!(parse_interval(text.as_bytes()), usize::MAX);
}

#[test]
fn takes_a_number_too_large_for_none() {
    assert_eq!(parse_interval(b"340282366920938463463374607431768211456"), 0);
    let mut text = usize::MAX.to_string();
    text.push('0');
    assert_eq!(parse_interval(text.as_bytes()), 0);
}

#[test]
fn takes_one_more_than_the_largest_for_none() {
    let text = (usize::MAX as u128 + 1).to_string();
    assert_eq!(parse_interval(text.as_bytes()), 0);
}

#[test]
fn takes_empty_text_for_none() {
    assert_eq!(parse_interval(b""), 0);
}

#[test]
fn takes_a_lone_sign_for_none() {
    assert_eq!(parse_interval(b"+"), 0);
    assert_eq!(parse_interval(b"-"), 0);
}

#[test]
fn takes_a_negative_number_for_none() {
    assert_eq!(parse_interval(b"-8"), 0);
    assert_eq!(parse_interval(b"-0"), 0);
}

#[test]
fn takes_text_that_is_no_number_for_none() {
    assert_eq!(parse_interval(b"abc"), 0);
    assert_eq!(parse_interval(b"12a"), 0);
    assert_eq!(parse_interval(b"a12"), 0);
    assert_eq!(parse_interval(b"1 2"), 0);
    assert_eq!(parse_interval(b"8.0"), 0);
    assert_eq!(parse_interval(b"0x10"), 0);
    assert_eq!(parse_interval(b"1_000"), 0);
    assert_eq!(parse_interval(b"++8"), 0);
    assert_eq!(parse_interval(b"8+"), 0);
}

#[test]
fn takes_a_number_set_in_blanks_for_none() {
    assert_eq!(parse_interval(b" 8"), 0);
    assert_eq!(parse_interval(b"8 "), 0);
    assert_eq!(parse_interval(b"\t8"), 0);
}

#[test]
fn takes_bytes_beyond_ascii_for_none() {
    assert_eq!(parse_interval(&[0x38, 0xFF]), 0);
    assert_eq!(parse_interval("８".as_bytes()), 0);
}

#[test]
fn reads_numbers_as_the_standard_library_does() {
    let texts = [
        "", "+", "-", "0", "1", "+1", "-1", "00", "+00", "9", "10", "4096", "16000", "65535",
        "4294967295", "4294967296", "18446744073709551615", "18446744073709551616",
        "99999999999999999999", "1e3", " 1", "1 ", "+-1", "+ 1", "١٢٣", "12345678901234567890",
    ];
    for text in texts {
        let expected = text.parse::<usize>().unwrap_or(0);
        assert_eq!(parse_interval(text.as_bytes()), expected, "reading {:?}", text);
    }
}

#[test]
fn reads_every_small_number_back() {
    for n in 0..5000usize {
        assert_eq!(parse_interval(n.to_string().as_bytes()), n);
    }
}
