use rem::{parse_timedelta, DurationError, SECONDS_PER_DAY};

fn days(n: i64) -> i64 {
    chrono::TimeDelta::days(n).num_seconds()
}

#[test]
fn parse_timedelta_week() {
    assert_eq!(parse_timedelta("1w"), Ok(days(7)));
}

#[test]
fn parse_timedelta_day() {
    assert_eq!(parse_timedelta("1d"), Ok(days(1)));
}

#[test]
fn parse_timedelta_fail() {
    assert!(parse_timedelta("1wf 2d").is_err());
    assert!(parse_timedelta("1w 1w").is_err());
    assert!(parse_timedelta("1d 1d").is_err());
}

#[test]
fn parse_timedelta_mixed() {
    assert_eq!(parse_timedelta("1w 2d"), Ok(days(9)));
    assert_eq!(parse_timedelta("2w 1d"), Ok(days(15)));
}

#[test]
fn duration_errors_by_kind() {
    assert_eq!(parse_timedelta(""), Err(DurationError::Empty));
    assert_eq!(parse_timedelta("   "), Err(DurationError::Empty));
    assert_eq!(parse_timedelta("1wf 2d"), Err(DurationError::Malformed));
    assert_eq!(parse_timedelta("1w 1w"), Err(DurationError::DuplicateUnit));
    assert_eq!(parse_timedelta("1d 1d"), Err(DurationError::DuplicateUnit));
    assert_eq!(parse_timedelta("15"), Err(DurationError::Malformed));
    assert_eq!(parse_timedelta("w"), Err(DurationError::Malformed));
    assert_eq!(parse_timedelta("1x"), Err(DurationError::Malformed));
    assert_eq!(parse_timedelta("1w1d"), Err(DurationError::Malformed));
    assert_eq!(parse_timedelta("99999999999999999999d"), Err(DurationError::OutOfRange));
}

#[test]
fn duration_white_space_and_order() {
    assert_eq!(parse_timedelta("  2d   1w "), Ok(9 * SECONDS_PER_DAY));
    assert_eq!(parse_timedelta("0d"), Ok(0));
    assert_eq!(parse_timedelta("10d"), Ok(10 * SECONDS_PER_DAY));
}

#[test]
fn duration_largest_size() {
    assert_eq!(parse_timedelta("106751991167300d"), Ok(106751991167300 * SECONDS_PER_DAY));
    assert_eq!(parse_timedelta("106751991167301d"), Err(DurationError::OutOfRange));
    assert_eq!(parse_timedelta("15250284452471w 1d"), Ok(106751991167298 * SECONDS_PER_DAY));
}
