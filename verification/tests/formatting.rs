use renderer::fmt::{fmt_u64, fmt_i64, fmt_milli_trimmed, fmt_milli_trimmed_u64, fmt_micro_6,
    fmt_ms_as_secs_3};
use renderer::strutil::{find_sub, contains_sub, trim_spaces, starts_with_str, ends_with_str};

#[test]
fn unsigned_decimal() {
    assert_eq!(fmt_u64(0), "0");
    assert_eq!(fmt_u64(10000), "10000");
    assert_eq!(fmt_u64(u64::MAX), "18446744073709551615");
}

#[test]
fn signed_decimal() {
    assert_eq!(fmt_i64(-250), "-250");
    assert_eq!(fmt_i64(42), "42");
    assert_eq!(fmt_i64(i64::MIN), "-9223372036854775808");
}

#[test]
fn trimmed_thousandths() {
    assert_eq!(fmt_milli_trimmed(1000), "1");
    assert_eq!(fmt_milli_trimmed(500), "0.5");
    assert_eq!(fmt_milli_trimmed(725), "0.725");
    assert_eq!(fmt_milli_trimmed(-250), "-0.25");
    assert_eq!(fmt_milli_trimmed(0), "0");
    assert_eq!(fmt_milli_trimmed_u64(10000), "10");
    assert_eq!(fmt_milli_trimmed_u64(10500), "10.5");
}

#[test]
fn six_decimal_micro_units() {
    assert_eq!(fmt_micro_6(90_000_000), "90.000000");
    assert_eq!(fmt_micro_6(45_500_000), "45.500000");
    assert_eq!(fmt_micro_6(-12_345_678), "-12.345678");
}

#[test]
fn three_decimal_seconds() {
    assert_eq!(fmt_ms_as_secs_3(10_000), "10.000");
    assert_eq!(fmt_ms_as_secs_3(1_234), "1.234");
    assert_eq!(fmt_ms_as_secs_3(5), "0.005");
}

#[test]
fn substring_search() {
    assert_eq!(find_sub("abcabc", "ca"), Some(2));
    assert_eq!(find_sub("abc", "zz"), None);
    assert!(contains_sub("encoders: h264_nvenc", "h264_nvenc"));
    assert!(!contains_sub("libx264", "h264_nvenc"));
}

#[test]
fn affix_tests() {
    assert!(starts_with_str("out_time_ms=5", "out_time_ms="));
    assert!(!starts_with_str("time=5", "out_time_ms="));
    assert!(ends_with_str("50px", "px"));
    assert!(!ends_with_str("p", "px"));
}

#[test]
fn whitespace_trimming() {
    assert_eq!(trim_spaces("  90deg \t"), "90deg");
    assert_eq!(trim_spaces("   "), "");
    assert_eq!(trim_spaces("x"), "x");
}
