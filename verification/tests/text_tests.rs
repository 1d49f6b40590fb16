use blitz_mustang::text::bytes_eq;
use blitz_mustang::text::find_byte;
use blitz_mustang::text::find_subslice;
use blitz_mustang::text::parse_milli;
use blitz_mustang::text::strip_suffix_all;
use blitz_mustang::text::trim_ascii;

#[test]
fn test_parse_milli_integers() {
    assert_eq!(parse_milli(b"10"), Some(10_000));
    assert_eq!(parse_milli(b"0"), Some(0));
    assert_eq!(parse_milli(b"-3"), Some(-3_000));
    assert_eq!(parse_milli(b"+7"), Some(7_000));
}

#[test]
fn test_parse_milli_fractions() {
    assert_eq!(parse_milli(b"10.5"), Some(10_500));
    assert_eq!(parse_milli(b"99.999"), Some(99_999));
    assert_eq!(parse_milli(b".5"), Some(500));
    assert_eq!(parse_milli(b"5."), Some(5_000));
    assert_eq!(parse_milli(b"-0.25"), Some(-250));
}

#[test]
fn test_parse_milli_extra_digits_truncate() {
    assert_eq!(parse_milli(b"1.23456"), Some(1_234));
}

#[test]
fn test_parse_milli_rejects() {
    assert_eq!(parse_milli(b""), None);
    assert_eq!(parse_milli(b"."), None);
    assert_eq!(parse_milli(b"-"), None);
    assert_eq!(parse_milli(b"1e3"), None);
    assert_eq!(parse_milli(b"abc"), None);
    assert_eq!(parse_milli(b"1.2.3"), None);
    assert_eq!(parse_milli(b" 1"), None);
}

#[test]
fn test_parse_milli_magnitude_cap() {
    assert_eq!(parse_milli(b"1000000000"), Some(1_000_000_000_000));
    assert_eq!(parse_milli(b"1000000001"), None);
}

#[test]
fn test_find_subslice() {
    assert_eq!(find_subslice(b"hello world", b"world"), Some(6));
    assert_eq!(find_subslice(b"hello", b"ll"), Some(2));
    assert_eq!(find_subslice(b"hello", b"xyz"), None);
    assert_eq!(find_subslice(b"abc", b""), Some(0));
    assert_eq!(find_subslice(b"ab", b"abc"), None);
}

#[test]
fn test_find_byte() {
    assert_eq!(find_byte(b"a.b.c", b'.'), Some(1));
    assert_eq!(find_byte(b"abc", b'.'), None);
}

#[test]
fn test_trim_ascii() {
    assert_eq!(trim_ascii(b"  10px\t"), b"10px");
    assert_eq!(trim_ascii(b"x"), b"x");
    assert_eq!(trim_ascii(b"   "), b"");
    assert_eq!(trim_ascii(b""), b"");
}

#[test]
fn test_strip_suffix_all() {
    assert_eq!(strip_suffix_all(b"10px", b"px"), b"10");
    assert_eq!(strip_suffix_all(b"10pxpx", b"px"), b"10");
    assert_eq!(strip_suffix_all(b"10", b"px"), b"10");
    assert_eq!(strip_suffix_all(b"px", b"px"), b"");
}

#[test]
fn test_bytes_eq() {
    assert!(bytes_eq(b"abc", b"abc"));
    assert!(!bytes_eq(b"abc", b"abd"));
    assert!(!bytes_eq(b"abc", b"ab"));
    assert!(bytes_eq(b"", b""));
}
