use purple_capture::stamp::{local_now, padded_decimal, stamp, year_string, LocalTime};

fn time(year: i32, second: u32, nanosecond: u32) -> LocalTime {
    LocalTime {
        year,
        month: 1,
        day: 2,
        hour: 3,
        minute: 4,
        second,
        nanosecond,
        rfc3339: String::new(),
    }
}

#[test]
fn stamps_read_year_month_day_hour_minute_second() {
    assert_eq!(stamp(&time(2024, 5, 0)), "2024-01-02_03-04-05");
    assert_eq!(stamp(&time(987, 9, 999_999_999)), "0987-01-02_03-04-09");
    assert_eq!(stamp(&time(2016, 59, 1_500_000_000)), "2016-01-02_03-04-60");
    assert_eq!(stamp(&time(10000, 0, 0)), "+10000-01-02_03-04-00");
    assert_eq!(stamp(&time(-5, 0, 0)), "-0005-01-02_03-04-00");
}

#[test]
fn numbers_are_padded_with_zeros() {
    assert_eq!(padded_decimal(7, 2), "07");
    assert_eq!(padded_decimal(42, 2), "42");
    assert_eq!(padded_decimal(123, 2), "123");
    assert_eq!(padded_decimal(0, 4), "0000");
    assert_eq!(year_string(2024), "2024");
    assert_eq!(year_string(i32::MIN), "-2147483648");
}

#[test]
fn the_local_time_and_its_rfc3339_text_agree() {
    let now = local_now();
    let stamped = stamp(&now);
    let expected_start = stamped.replacen('_', "T", 1);
    let parts: Vec<&str> = expected_start.splitn(2, 'T').collect();
    let start = format!("{}T{}", parts[0], parts[1].replace('-', ":"));
    assert!(now.rfc3339.starts_with(&start), "{} vs {}", now.rfc3339, start);
    assert_eq!(stamped.len(), 19);
}
