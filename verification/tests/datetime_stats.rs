use chrono::{TimeZone, Timelike};
use mbar::datetime_stats::{
    get_datetime_info, timezone_label, LocalDateTime, CHRONO_MAX_TIMESTAMP, CHRONO_MIN_TIMESTAMP,
};

fn local(dt: &chrono::DateTime<chrono::FixedOffset>) -> LocalDateTime {
    LocalDateTime::new(dt.timestamp(), dt.offset().local_minus_utc()).unwrap()
}

fn at_offset(offset_seconds: i32) -> LocalDateTime {
    LocalDateTime::new(1_778_558_400, offset_seconds).unwrap()
}

#[test]
fn test_get_datetime_info_format() {
    // Use a fixed time to ensure predictable results
    let offset = chrono::FixedOffset::east_opt(8 * 3600).unwrap(); // UTC+8
    let dt = offset.with_ymd_and_hms(2026, 5, 12, 12, 0, 0).unwrap();

    let info = get_datetime_info(&local(&dt));

    assert_eq!(info.time, "12:00:00");
    assert_eq!(info.day, "Tuesday");
    assert_eq!(info.date, "May 12");
    assert_eq!(info.timezone, "UTC+8");
}

#[test]
fn test_timezone_negative_offset() {
    let offset = chrono::FixedOffset::west_opt(5 * 3600).unwrap(); // UTC-5
    let dt = offset.with_ymd_and_hms(2026, 5, 12, 12, 0, 0).unwrap();

    let info = get_datetime_info(&local(&dt));
    assert_eq!(info.timezone, "UTC-5");
}

#[test]
fn test_time_string_length() {
    let now = chrono::Local::now();
    let info = get_datetime_info(
        &LocalDateTime::new(now.timestamp(), now.offset().local_minus_utc()).unwrap(),
    );
    assert_eq!(info.time.len(), 8);
}

#[test]
fn timezone_label_reads_sign_and_hours() {
    assert_eq!(timezone_label("+0800"), "UTC+8");
    assert_eq!(timezone_label("-0500"), "UTC-5");
    assert_eq!(timezone_label("+0530"), "UTC+5");
    assert_eq!(timezone_label("+1245"), "UTC+12");
    assert_eq!(timezone_label("+0000"), "UTC+0");
}

#[test]
fn timezone_label_short_text_is_plain_utc() {
    assert_eq!(timezone_label("Z"), "UTC");
    assert_eq!(timezone_label("+0"), "UTC");
    assert_eq!(timezone_label(""), "UTC");
}

#[test]
fn timezone_label_unreadable_hours_count_as_zero() {
    assert_eq!(timezone_label("+ab00"), "UTC+0");
    assert_eq!(timezone_label("-5"), "UTC");
    assert_eq!(timezone_label("x-5"), "UTC+-5");
    assert_eq!(timezone_label("--5"), "UTC--5");
    assert_eq!(timezone_label("++7"), "UTC+7");
    assert_eq!(timezone_label("+5+"), "UTC+0");
}

#[test]
fn timezone_label_of_rounded_offsets() {
    // 5:30:30 rounds to 5:31
    assert_eq!(get_datetime_info(&at_offset(19_830)).timezone, "UTC+5");
    // minus 29 minutes 59 seconds rounds to minus 30 minutes
    assert_eq!(get_datetime_info(&at_offset(-1_799)).timezone, "UTC-0");
    // just under a day rounds up to 24 hours
    assert_eq!(get_datetime_info(&at_offset(86_399)).timezone, "UTC+24");
    assert_eq!(get_datetime_info(&at_offset(0)).timezone, "UTC+0");
    assert_eq!(get_datetime_info(&at_offset(-34_200)).timezone, "UTC-9");
}

#[test]
fn datetime_info_fields_follow_the_offset() {
    let info = get_datetime_info(&at_offset(0));
    assert_eq!(info.time, "04:00:00");
    assert_eq!(info.day, "Tuesday");
    assert_eq!(info.date, "May 12");
    let info = get_datetime_info(&at_offset(-5 * 3600));
    assert_eq!(info.time, "23:00:00");
    assert_eq!(info.day, "Monday");
    assert_eq!(info.date, "May 11");
}

#[test]
fn local_date_time_rejects_what_chrono_cannot_hold() {
    assert!(LocalDateTime::new(0, 86_400).is_none());
    assert!(LocalDateTime::new(0, -86_400).is_none());
    assert!(LocalDateTime::new(i64::MAX, 0).is_none());
    let d = LocalDateTime::new(1_778_558_400, 3_600).unwrap();
    assert_eq!(d.timestamp(), 1_778_558_400);
    assert_eq!(d.offset_seconds(), 3_600);
}

#[test]
fn chrono_range_edges_are_exact() {
    assert!(LocalDateTime::new(CHRONO_MIN_TIMESTAMP, 0).is_some());
    assert!(LocalDateTime::new(CHRONO_MIN_TIMESTAMP - 1, 0).is_none());
    assert!(LocalDateTime::new(CHRONO_MAX_TIMESTAMP, 0).is_some());
    assert!(LocalDateTime::new(CHRONO_MAX_TIMESTAMP + 1, 0).is_none());
    assert!(chrono::DateTime::from_timestamp(CHRONO_MIN_TIMESTAMP, 0).is_some());
    assert!(chrono::DateTime::from_timestamp(CHRONO_MIN_TIMESTAMP - 1, 0).is_none());
    assert!(chrono::DateTime::from_timestamp(CHRONO_MAX_TIMESTAMP, 0).is_some());
    assert!(chrono::DateTime::from_timestamp(CHRONO_MAX_TIMESTAMP + 1, 0).is_none());
}

#[test]
fn time_is_the_wall_clock_of_the_offset() {
    let now = chrono::Local::now();
    let info = get_datetime_info(
        &LocalDateTime::new(now.timestamp(), now.offset().local_minus_utc()).unwrap(),
    );
    assert_eq!(info.time, format!("{:02}:{:02}:{:02}", now.hour(), now.minute(), now.second()));
    // the far ends of chrono's range, seen at extreme offsets
    let info = get_datetime_info(&LocalDateTime::new(CHRONO_MIN_TIMESTAMP, -86_399).unwrap());
    assert_eq!(info.time, "00:00:01");
    let info = get_datetime_info(&LocalDateTime::new(CHRONO_MAX_TIMESTAMP, 86_399).unwrap());
    assert_eq!(info.time, "23:59:58");
}
