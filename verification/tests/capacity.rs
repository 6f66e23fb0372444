use qrgen::capacity::{
    check_capacity, check_qr_capacity, cycle_to, fallback, percentage, search_above, search_below,
    CapacityReport,
};

#[test]
fn empty_input_is_within_the_limit() {
    let (ok, report) = check_qr_capacity("");
    assert!(ok);
    assert!(report.is_within_limit);
    assert_eq!(report.byte_count, 0);
    assert_eq!(report.char_count, 0);
    assert_eq!(report.percentage_used, 0);
    assert!(report.max_capacity_bytes > 0);
    assert_eq!(report.max_capacity_bytes, 1000);
    assert_eq!(report.bytes_remaining, 1000);
    assert_eq!(report.bytes_over, 0);
    assert_eq!(report.theoretical_max, 2953);
    assert!(report.verified);
}

#[test]
fn five_thousand_bytes_are_over_the_limit() {
    let data = "a".repeat(5000);
    let (ok, report) = check_qr_capacity(&data);
    assert!(!ok);
    assert!(!report.is_within_limit);
    assert!(report.bytes_over > 0);
    assert_eq!(report.bytes_remaining, 0);
    assert_eq!(report.byte_count, 5000);
    assert_eq!(report.char_count, 5000);
    assert_eq!(report.max_capacity_bytes, 2953);
    assert_eq!(report.bytes_over, 2047);
    assert_eq!(report.percentage_used, 169);
    assert_eq!(report.theoretical_max, 2953);
    assert!(report.verified);
}

#[test]
fn short_input_reports_the_end_of_the_window() {
    let (ok, report) = check_qr_capacity("https://example.com");
    assert!(ok);
    assert_eq!(report.byte_count, 19);
    assert_eq!(report.max_capacity_bytes, 1019);
    assert_eq!(report.bytes_remaining, 1000);
    assert_eq!(report.bytes_over, 0);
    assert_eq!(report.percentage_used, 2);
}

#[test]
fn input_near_the_limit_reports_the_true_boundary() {
    let data = "a".repeat(2900);
    let (ok, report) = check_qr_capacity(&data);
    assert!(ok);
    assert_eq!(report.max_capacity_bytes, 2953);
    assert_eq!(report.bytes_remaining, 53);
    assert_eq!(report.percentage_used, 98);
}

#[test]
fn input_at_the_limit_has_nothing_remaining() {
    let data = "a".repeat(2953);
    let (ok, report) = check_qr_capacity(&data);
    assert!(ok);
    assert_eq!(report.max_capacity_bytes, 2953);
    assert_eq!(report.bytes_remaining, 0);
    assert_eq!(report.percentage_used, 100);
}

#[test]
fn one_byte_too_many_is_over_by_one() {
    let data = "a".repeat(2954);
    let (ok, report) = check_qr_capacity(&data);
    assert!(!ok);
    assert_eq!(report.max_capacity_bytes, 2953);
    assert_eq!(report.bytes_over, 1);
    assert_eq!(report.bytes_remaining, 0);
    assert_eq!(report.percentage_used, 100);
}

#[test]
fn digits_pack_more_densely_than_the_byte_limit() {
    let data = "1".repeat(5000);
    let (ok, report) = check_qr_capacity(&data);
    assert!(ok);
    assert_eq!(report.byte_count, 5000);
    assert_eq!(report.max_capacity_bytes, 5000);
    assert_eq!(report.bytes_remaining, 0);
    assert_eq!(report.bytes_over, 0);
    assert_eq!(report.percentage_used, 100);
}

#[test]
fn characters_and_bytes_are_counted_apart() {
    let (ok, report) = check_qr_capacity("测试");
    assert!(ok);
    assert_eq!(report.byte_count, 6);
    assert_eq!(report.char_count, 2);
    assert_eq!(report.percentage_used, 1);
}

#[test]
fn reported_limit_fits_and_the_next_length_does_not() {
    let data = "Hello, World! ".repeat(205);
    let bytes = data.as_bytes();
    let (ok, report) = check_qr_capacity(&data);
    assert!(ok);
    let limit = report.max_capacity_bytes;
    assert!(limit >= bytes.len());
    assert!(limit <= 2953);
    assert!(qrgen::encoder::encodes(&cycle_to(bytes, limit)));
    assert!(!qrgen::encoder::encodes(&cycle_to(bytes, limit + 1)));
}

#[test]
fn within_limit_means_generation_succeeds() {
    for data in ["", "test", "https://example.com?q=test&lang=en"] {
        let (ok, report) = check_qr_capacity(data);
        assert!(ok && report.is_within_limit);
        assert!(qrgen::render::generate_qr(data, "svg").is_ok());
        assert!(qrgen::render::generate_qr(data, "png").is_ok());
    }
    let long = "a".repeat(2953);
    assert!(check_qr_capacity(&long).0);
    assert!(qrgen::render::generate_qr(&long, "svg").is_ok());
}

#[test]
fn searches_agree_with_the_report() {
    let data = "a".repeat(2900);
    assert_eq!(search_above(data.as_bytes()), 2953);
    let data = "a".repeat(4000);
    assert_eq!(search_below(data.as_bytes()), 2953);
    let report = check_capacity(data.as_bytes(), 4000);
    assert_eq!(report.max_capacity_bytes, 2953);
    assert_eq!(report.bytes_over, 1047);
}

#[test]
fn cycling_repeats_the_input_from_its_start() {
    assert_eq!(cycle_to(b"abc", 7), b"abcabca".to_vec());
    assert_eq!(cycle_to(b"abc", 3), b"abc".to_vec());
    assert_eq!(cycle_to(b"abc", 2), b"ab".to_vec());
    assert_eq!(cycle_to(b"abc", 0), Vec::<u8>::new());
    assert_eq!(cycle_to(b"", 5), Vec::<u8>::new());
}

#[test]
fn percentage_rounds_to_nearest() {
    assert_eq!(percentage(0, 1000), 0);
    assert_eq!(percentage(19, 1019), 2);
    assert_eq!(percentage(5000, 2953), 169);
    assert_eq!(percentage(1, 200), 1);
    assert_eq!(percentage(1, 201), 0);
    assert_eq!(percentage(1, 3), 33);
    assert_eq!(percentage(2, 3), 67);
    assert_eq!(percentage(7, 7), 100);
    assert_eq!(percentage(5, 0), 100);
    assert_eq!(percentage(0, 0), 100);
    assert_eq!(percentage(usize::MAX, 1), u32::MAX);
}

#[test]
fn fallback_is_nine_tenths_but_at_least_one() {
    assert_eq!(fallback(0), 1);
    assert_eq!(fallback(1), 1);
    assert_eq!(fallback(2), 1);
    assert_eq!(fallback(3), 2);
    assert_eq!(fallback(5), 4);
    assert_eq!(fallback(10), 9);
    assert_eq!(fallback(5000), 4500);
    assert_eq!(fallback(usize::MAX), usize::MAX / 10 * 9 + 4);
}

#[test]
fn report_for_an_input_that_fits() {
    let report = CapacityReport::within(100, 90, 1100);
    assert_eq!(
        report,
        CapacityReport {
            byte_count: 100,
            char_count: 90,
            max_capacity_bytes: 1100,
            theoretical_max: 2953,
            is_within_limit: true,
            bytes_over: 0,
            bytes_remaining: 1000,
            percentage_used: 9,
            verified: true,
        }
    );
}

#[test]
fn report_for_an_input_that_does_not_fit() {
    let report = CapacityReport::over(5000, 5000, 2953);
    assert_eq!(
        report,
        CapacityReport {
            byte_count: 5000,
            char_count: 5000,
            max_capacity_bytes: 2953,
            theoretical_max: 2953,
            is_within_limit: false,
            bytes_over: 2047,
            bytes_remaining: 0,
            percentage_used: 169,
            verified: true,
        }
    );
}

#[test]
fn report_falls_back_when_no_prefix_fitted() {
    let report = CapacityReport::over(5000, 5000, 0);
    assert_eq!(report.max_capacity_bytes, 4500);
    assert_eq!(report.bytes_over, 500);
    assert_eq!(report.bytes_remaining, 0);
    assert_eq!(report.percentage_used, 111);
    let tiny = CapacityReport::over(1, 1, 0);
    assert_eq!(tiny.max_capacity_bytes, 1);
    assert_eq!(tiny.bytes_over, 0);
    assert_eq!(tiny.percentage_used, 100);
    let none = CapacityReport::over(0, 0, 0);
    assert_eq!(none.max_capacity_bytes, 1);
    assert_eq!(none.bytes_over, 0);
    assert_eq!(none.percentage_used, 0);
}
