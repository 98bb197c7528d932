use ugly::calendar::utc_from_unix;
use ugly::decrypt::format_timestamp;
use ugly::text::{decimal_string, repeat_str};
use ugly::ui::progress::{format_duration, progress_status};

#[test]
fn timestamp_epoch() {
    assert_eq!(format_timestamp(0), "1970-01-01 00:00:00 UTC");
}

#[test]
fn timestamp_leap_day_2000() {
    assert_eq!(format_timestamp(951_782_400), "2000-02-29 00:00:00 UTC");
}

#[test]
fn timestamp_end_of_leap_year() {
    assert_eq!(format_timestamp(1_735_689_599), "2024-12-31 23:59:59 UTC");
}

#[test]
fn timestamp_non_leap_century() {
    // 2100-03-01 00:00:00, 2100 is not a leap year
    assert_eq!(format_timestamp(4_107_542_400), "2100-03-01 00:00:00 UTC");
}

#[test]
fn timestamp_five_digit_year() {
    assert_eq!(format_timestamp(253_402_300_800), "10000-01-01 00:00:00 UTC");
}

#[test]
fn utc_fields() {
    let dt = utc_from_unix(1_700_000_000);
    assert_eq!((dt.year, dt.month, dt.day), (2023, 11, 14));
    assert_eq!((dt.hour, dt.minute, dt.second), (22, 13, 20));
}

#[test]
fn duration_formats() {
    assert_eq!(format_duration(0), "00:00:00");
    assert_eq!(format_duration(3661), "01:01:01");
    assert_eq!(format_duration(360_000), "100:00:00");
}

#[test]
fn progress_line_from_readme_example() {
    assert_eq!(
        progress_status(134, 5_432_198, 4_052_314),
        "\r  [00:02:14] 5,432,198 tries | \u{26a1} 40,523.14 keys/s"
    );
    assert_eq!(progress_status(3725, 999, 5), "\r  [01:02:05] 999 tries | \u{26a1} 0.05 keys/s");
    assert_eq!(progress_status(0, 1_000, 100_000), "\r  [00:00:00] 1,000 tries | \u{26a1} 1,000.00 keys/s");
}

#[test]
fn decimal_and_repeat() {
    assert_eq!(decimal_string(0), "0");
    assert_eq!(decimal_string(u64::MAX), "18446744073709551615");
    assert_eq!(repeat_str("ab", 3), "ababab");
    assert_eq!(repeat_str("x", 0), "");
}

#[test]
fn timestamp_from_readme_example() {
    assert_eq!(format_timestamp(1_775_745_121), "2026-04-09 14:32:01 UTC");
}

#[test]
fn timestamp_texts_sort_like_timestamps() {
    let stamps = [0u64, 59, 60, 3_599, 86_399, 86_400, 951_782_400, 1_735_689_599, 253_402_300_799];
    for w in stamps.windows(2) {
        assert!(format_timestamp(w[0]) < format_timestamp(w[1]));
    }
    assert_eq!(format_timestamp(253_402_300_799), "9999-12-31 23:59:59 UTC");
}
