use std::time::Duration;

use runtime_checker::report::{format_duration, format_line_count};

fn duration_text(duration: Duration) -> String {
    format_duration(duration.as_secs(), duration.subsec_nanos())
}

#[test]
fn formats_line_counts_without_ceiling_buckets() {
    assert_eq!(format_line_count(0), "0");
    assert_eq!(format_line_count(2), "2");
    assert_eq!(format_line_count(999), "999");
    assert_eq!(format_line_count(1_000), "1k");
    assert_eq!(format_line_count(1_234), "1.2k");
    assert_eq!(format_line_count(12_345), "12.3k");
    assert_eq!(format_line_count(82_314), "82.3k");
    assert_eq!(format_line_count(100_500), "101k");
    assert_eq!(format_line_count(999_500), "1m");
    assert_eq!(format_line_count(1_250_000), "1.3m");
}

#[test]
fn formats_elapsed_duration_compactly() {
    assert_eq!(duration_text(Duration::from_millis(39)), "39ms");
    assert_eq!(duration_text(Duration::from_millis(999)), "999ms");
    assert_eq!(duration_text(Duration::from_millis(2_323)), "2.3s");
    assert_eq!(duration_text(Duration::from_secs(12)), "12s");
    assert_eq!(duration_text(Duration::from_secs(125)), "2.1m");
}

#[test]
fn formats_large_counts_and_long_durations() {
    assert_eq!(format_line_count(1_500_000_000), "1.5b");
    assert_eq!(format_line_count(999_950_000), "1b");
    assert_eq!(duration_text(Duration::from_secs(7_200)), "2h");
    assert_eq!(duration_text(Duration::from_secs(59)), "59s");
}
