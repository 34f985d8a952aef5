use backlight::amount::parse_amount_milli;
use backlight::numtext::parse_trimmed_u32;
use backlight::numtext::render_u64;
use backlight::percent::clamp_percent;
use backlight::percent::get_percentage;
use backlight::percent::get_value_from_percentage;

#[test]
fn percentage_of_raw_value_is_exact() {
    // 127 of 255 is 49.803% (truncated at the milli-percent).
    assert_eq!(get_percentage(127, 255), 49_803);
    assert_eq!(get_percentage(0, 255), 0);
    assert_eq!(get_percentage(255, 255), 100_000);
}

#[test]
fn percentage_reads_beyond_maximum_without_clamping() {
    // A raw value beyond the maximum reads as more than 100%.
    assert_eq!(get_percentage(510, 255), 200_000);
    // The largest raw value over the smallest maximum still answers.
    assert_eq!(get_percentage(4_294_967_295, 1), 429_496_729_500_000);
}

#[test]
fn raw_of_percentage_truncates() {
    // 50% of 255 is 127.5, truncated to 127 and never rounded up.
    assert_eq!(get_value_from_percentage(50_000, 255), 127);
    assert_eq!(get_value_from_percentage(100_000, 255), 255);
    // 0.1% of 255 truncates to zero.
    assert_eq!(get_value_from_percentage(100, 255), 0);
}

#[test]
fn clamp_keeps_the_accepted_range() {
    assert_eq!(clamp_percent(-5_000), 100);
    assert_eq!(clamp_percent(0), 100);
    assert_eq!(clamp_percent(100), 100);
    assert_eq!(clamp_percent(500), 500);
    assert_eq!(clamp_percent(100_000), 100_000);
    assert_eq!(clamp_percent(500_000), 100_000);
}

#[test]
fn round_trip_loses_less_than_one_raw_unit() {
    // For valid percentages, converting to raw and back never gains and
    // loses less than one raw unit's worth plus one milli-percent:
    // (p - back) * max < 100_000 + max.
    for &(p, max) in &[
        (100u64, 255u32),
        (50_000, 255),
        (99_999, 3),
        (100_000, 1),
        (12_345, 4096),
        (100, 7),
    ] {
        let raw = get_value_from_percentage(p, max);
        let back = get_percentage(raw, max);
        assert!(back <= p);
        assert!((p - back) * (max as u64) < 100_000 + max as u64);
    }
}

#[test]
fn file_text_parses_after_trimming() {
    assert_eq!(parse_trimmed_u32("42"), Some(42));
    assert_eq!(parse_trimmed_u32(" 42\n"), Some(42));
    assert_eq!(parse_trimmed_u32("\t007\r\n"), Some(7));
    assert_eq!(parse_trimmed_u32("+7"), Some(7));
    assert_eq!(parse_trimmed_u32("0"), Some(0));
    assert_eq!(parse_trimmed_u32("4294967295"), Some(4_294_967_295));
}

#[test]
fn malformed_file_text_is_rejected() {
    assert_eq!(parse_trimmed_u32(""), None);
    assert_eq!(parse_trimmed_u32("   "), None);
    assert_eq!(parse_trimmed_u32("abc"), None);
    assert_eq!(parse_trimmed_u32("-1"), None);
    assert_eq!(parse_trimmed_u32("4 2"), None);
    assert_eq!(parse_trimmed_u32("4294967296"), None);
    assert_eq!(parse_trimmed_u32("+"), None);
}

#[test]
fn rendered_text_is_plain_decimal() {
    assert_eq!(render_u64(0), "0");
    assert_eq!(render_u64(9), "9");
    assert_eq!(render_u64(10), "10");
    assert_eq!(render_u64(1_234_567), "1234567");
}

#[test]
fn rendering_then_parsing_returns_the_value() {
    for &n in &[0u32, 1, 9, 10, 99, 100, 4_294_967_295] {
        let text = render_u64(n as u64);
        assert_eq!(parse_trimmed_u32(&text), Some(n));
    }
}

#[test]
fn amounts_parse_to_milli_percent() {
    assert_eq!(parse_amount_milli("42"), Some(42_000));
    assert_eq!(parse_amount_milli("+42"), Some(42_000));
    assert_eq!(parse_amount_milli("-5"), Some(-5_000));
    assert_eq!(parse_amount_milli("1.5"), Some(1_500));
    assert_eq!(parse_amount_milli(".5"), Some(500));
    assert_eq!(parse_amount_milli("5."), Some(5_000));
    assert_eq!(parse_amount_milli("-2.75"), Some(-2_750));
    assert_eq!(parse_amount_milli("0.1"), Some(100));
    // The fourth fractional digit is truncated away.
    assert_eq!(parse_amount_milli("1.2345"), Some(1_234));
}

#[test]
fn huge_amounts_saturate() {
    assert_eq!(
        parse_amount_milli("99999999999999999999"),
        Some(1_000_000_000_000_000)
    );
    assert_eq!(
        parse_amount_milli("-99999999999999999999"),
        Some(-1_000_000_000_000_000)
    );
}

#[test]
fn malformed_amounts_are_rejected() {
    assert_eq!(parse_amount_milli(""), None);
    assert_eq!(parse_amount_milli("abc"), None);
    assert_eq!(parse_amount_milli("+"), None);
    assert_eq!(parse_amount_milli("-"), None);
    assert_eq!(parse_amount_milli("."), None);
    assert_eq!(parse_amount_milli("1.2.3"), None);
    assert_eq!(parse_amount_milli("1e3"), None);
    assert_eq!(parse_amount_milli(" 1"), None);
}
