use chrono::TimeZone;
use rem::{parse_date_time, parse_naive_date_time, DateTimeError, DateTimeParts};

fn local(y: i32, mo: u32, d: u32, h: u32, mi: u32) -> i64 {
    chrono::Local.with_ymd_and_hms(y, mo, d, h, mi, 0).single().unwrap().timestamp()
}

#[test]
fn date_and_time_read() {
    assert_eq!(
        parse_naive_date_time("05.03.2024 17:45"),
        Ok(DateTimeParts { year: 2024, month: 3, day: 5, hour: 17, minute: 45 })
    );
}

#[test]
fn date_alone_means_eight_o_clock() {
    assert_eq!(
        parse_naive_date_time("31.12.2023"),
        Ok(DateTimeParts { year: 2023, month: 12, day: 31, hour: 8, minute: 0 })
    );
}

#[test]
fn bad_date_and_bad_time() {
    assert_eq!(parse_naive_date_time("32.01.2024"), Err(DateTimeError::BadDate));
    assert_eq!(parse_naive_date_time("2024-01-01"), Err(DateTimeError::BadDate));
    assert_eq!(parse_naive_date_time("01.13.2024 08:00"), Err(DateTimeError::BadDate));
    assert_eq!(parse_naive_date_time("01.01.2024 25:00"), Err(DateTimeError::BadTime));
    assert_eq!(parse_naive_date_time("01.01.2024 8h"), Err(DateTimeError::BadTime));
    assert_eq!(parse_naive_date_time(""), Err(DateTimeError::BadDate));
}

#[test]
fn local_timestamps() {
    assert_eq!(parse_date_time("01.01.2024 08:00"), Ok(local(2024, 1, 1, 8, 0)));
    assert_eq!(parse_date_time("22.01.2024"), Ok(local(2024, 1, 22, 8, 0)));
    assert_eq!(parse_date_time("22.01.2024 8"), Err(DateTimeError::BadTime));
}
