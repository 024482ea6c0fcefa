use renderer::parse::{parse_px, parse_scale, parse_rotate, parse_u64, parse_decimal,
    opacity_alpha, brightness_offset, volume_milli};

#[test]
fn px_plain() {
    assert_eq!(parse_px(&Some("50px".to_string())), 50);
}

#[test]
fn px_fractional_rounds_half_away() {
    assert_eq!(parse_px(&Some("49.5px".to_string())), 50);
    assert_eq!(parse_px(&Some("49.4px".to_string())), 49);
    assert_eq!(parse_px(&Some("-10.5px".to_string())), -11);
    assert_eq!(parse_px(&Some("-10.2px".to_string())), -10);
}

#[test]
fn px_missing_suffix_defaults_to_zero() {
    assert_eq!(parse_px(&Some("50".to_string())), 0);
}

#[test]
fn px_malformed_defaults_to_zero() {
    assert_eq!(parse_px(&Some("abcpx".to_string())), 0);
    assert_eq!(parse_px(&Some("px".to_string())), 0);
    assert_eq!(parse_px(&Some("1.2.3px".to_string())), 0);
}

#[test]
fn px_absent_defaults_to_zero() {
    assert_eq!(parse_px(&None), 0);
}

#[test]
fn scale_plain() {
    assert_eq!(parse_scale(&Some("scale(1.25)".to_string())), 1_250_000);
}

#[test]
fn scale_inside_other_transforms() {
    assert_eq!(parse_scale(&Some("translate(3px) scale(2)".to_string())), 2_000_000);
}

#[test]
fn scale_malformed_defaults_to_one() {
    assert_eq!(parse_scale(&Some("scale(x)".to_string())), 1_000_000);
    assert_eq!(parse_scale(&Some("rotate(30)".to_string())), 1_000_000);
    assert_eq!(parse_scale(&Some("scale(2".to_string())), 1_000_000);
    assert_eq!(parse_scale(&None), 1_000_000);
}

#[test]
fn rotate_with_suffix_and_spaces() {
    assert_eq!(parse_rotate(&Some(" 90deg ".to_string())), 90_000_000);
    assert_eq!(parse_rotate(&Some("-45deg".to_string())), -45_000_000);
}

#[test]
fn rotate_plain_number() {
    assert_eq!(parse_rotate(&Some("12.5".to_string())), 12_500_000);
}

#[test]
fn rotate_malformed_defaults_to_zero() {
    assert_eq!(parse_rotate(&Some("sideways".to_string())), 0);
    assert_eq!(parse_rotate(&None), 0);
}

#[test]
fn decimal_forms() {
    assert_eq!(parse_decimal("1.25", 6), Some(1_250_000));
    assert_eq!(parse_decimal(".5", 3), Some(500));
    assert_eq!(parse_decimal("5.", 3), Some(5000));
    assert_eq!(parse_decimal("+2", 2), Some(200));
    assert_eq!(parse_decimal("-0.25", 3), Some(-250));
    assert_eq!(parse_decimal("", 3), None);
    assert_eq!(parse_decimal("-", 3), None);
    assert_eq!(parse_decimal(".", 3), None);
    assert_eq!(parse_decimal("1e3", 3), None);
    // digits beyond the scale are truncated
    assert_eq!(parse_decimal("0.1239", 3), Some(123));
}

#[test]
fn u64_parsing() {
    assert_eq!(parse_u64("0"), Some(0));
    assert_eq!(parse_u64("18446744073709551615"), Some(u64::MAX));
    assert_eq!(parse_u64("18446744073709551616"), None);
    assert_eq!(parse_u64(""), None);
    assert_eq!(parse_u64("12a"), None);
}

#[test]
fn opacity_alpha_clamps_and_defaults() {
    assert_eq!(opacity_alpha(None), 1000);
    assert_eq!(opacity_alpha(Some(500)), 500);
    assert_eq!(opacity_alpha(Some(2000)), 1000);
}

#[test]
fn brightness_offset_centers_at_full() {
    assert_eq!(brightness_offset(None), 0);
    assert_eq!(brightness_offset(Some(1500)), 500);
    assert_eq!(brightness_offset(Some(500)), -500);
}

#[test]
fn volume_not_renormalized() {
    assert_eq!(volume_milli(None), 1000);
    assert_eq!(volume_milli(Some(800)), 800);
    assert_eq!(volume_milli(Some(1500)), 1500);
}
