use model_relay::decimal::{parse_u16, parse_u64};
use model_relay::fields::{nth_field, prefix_before, trim_trailing};

#[test]
fn a_numeral_is_read_digit_by_digit() {
    assert_eq!(parse_u64(b"0"), Some(0));
    assert_eq!(parse_u64(b"7620"), Some(7620));
    assert_eq!(parse_u64(b"1449"), Some(1449));
}

#[test]
fn leading_zeros_do_not_count() {
    assert_eq!(parse_u64(b"007"), Some(7));
    assert_eq!(parse_u64(b"0000000000000000000000000000080"), Some(80));
    assert_eq!(parse_u16(b"00080"), Some(80));
}

#[test]
fn an_empty_text_is_no_numeral() {
    assert_eq!(parse_u64(b""), None);
    assert_eq!(parse_u16(b""), None);
}

#[test]
fn anything_but_digits_is_no_numeral() {
    assert_eq!(parse_u64(b"12a"), None);
    assert_eq!(parse_u64(b"a12"), None);
    assert_eq!(parse_u64(b"+5"), None);
    assert_eq!(parse_u64(b"-5"), None);
    assert_eq!(parse_u64(b"1.5"), None);
    assert_eq!(parse_u64(b" 5"), None);
    assert_eq!(parse_u64(b"/"), None);
    assert_eq!(parse_u64(b":"), None);
}

#[test]
fn the_largest_numeral_of_64_bits_is_read() {
    assert_eq!(parse_u64(b"18446744073709551615"), Some(u64::MAX));
}

#[test]
fn a_numeral_beyond_64_bits_is_refused() {
    assert_eq!(parse_u64(b"18446744073709551616"), None);
    assert_eq!(parse_u64(b"18446744073709551620"), None);
    assert_eq!(parse_u64(b"99999999999999999999999"), None);
}

#[test]
fn a_port_fits_in_16_bits() {
    assert_eq!(parse_u16(b"9001"), Some(9001));
    assert_eq!(parse_u16(b"65535"), Some(65535));
    assert_eq!(parse_u16(b"65536"), None);
    assert_eq!(parse_u16(b"70000"), None);
    assert_eq!(parse_u16(b"18446744073709551616"), None);
}

#[test]
fn fields_lie_between_separators() {
    let line = b"RAM 3058/7620MB GR 12%";
    assert_eq!(nth_field(line, b' ', 0), Some(&b"RAM"[..]));
    assert_eq!(nth_field(line, b' ', 1), Some(&b"3058/7620MB"[..]));
    assert_eq!(nth_field(line, b' ', 2), Some(&b"GR"[..]));
    assert_eq!(nth_field(line, b' ', 3), Some(&b"12%"[..]));
    assert_eq!(nth_field(line, b' ', 4), None);
}

#[test]
fn two_separators_in_a_row_enclose_an_empty_field() {
    let line = b"a  b ";
    assert_eq!(nth_field(line, b' ', 0), Some(&b"a"[..]));
    assert_eq!(nth_field(line, b' ', 1), Some(&b""[..]));
    assert_eq!(nth_field(line, b' ', 2), Some(&b"b"[..]));
    assert_eq!(nth_field(line, b' ', 3), Some(&b""[..]));
    assert_eq!(nth_field(line, b' ', 4), None);
}

#[test]
fn an_empty_line_has_one_empty_field() {
    assert_eq!(nth_field(b"", b' ', 0), Some(&b""[..]));
    assert_eq!(nth_field(b"", b' ', 1), None);
}

#[test]
fn a_line_without_separator_is_one_field() {
    assert_eq!(nth_field(b"3058/7620", b' ', 0), Some(&b"3058/7620"[..]));
    assert_eq!(nth_field(b"3058/7620", b'/', 1), Some(&b"7620"[..]));
    assert_eq!(nth_field(b"3058/7620", b'/', 2), None);
}

#[test]
fn the_prefix_ends_at_the_first_mark() {
    assert_eq!(prefix_before(b"3058/7620MB", b'M'), Some(&b"3058/7620"[..]));
    assert_eq!(prefix_before(b"1449mW/1449mW", b'm'), Some(&b"1449"[..]));
    assert_eq!(prefix_before(b"MB", b'M'), Some(&b""[..]));
}

#[test]
fn without_a_mark_there_is_no_prefix() {
    assert_eq!(prefix_before(b"3058/7620", b'M'), None);
    assert_eq!(prefix_before(b"", b'M'), None);
}

#[test]
fn every_trailing_sign_is_trimmed() {
    assert_eq!(trim_trailing(b"12%", b'%'), &b"12"[..]);
    assert_eq!(trim_trailing(b"12%%%", b'%'), &b"12"[..]);
    assert_eq!(trim_trailing(b"12", b'%'), &b"12"[..]);
    assert_eq!(trim_trailing(b"%12", b'%'), &b"%12"[..]);
    assert_eq!(trim_trailing(b"1%2%", b'%'), &b"1%2"[..]);
    assert_eq!(trim_trailing(b"%%", b'%'), &b""[..]);
    assert_eq!(trim_trailing(b"", b'%'), &b""[..]);
}
