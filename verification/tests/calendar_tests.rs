use delivery_boy::calendar::{day_index_of, days_in_month_of, time_index_of, window_start, Civil};
use delivery_boy::store::in_window_check;
use delivery_boy::timefmt::{format_timestamp, parse_timestamp};

fn civil(year: u64, month: u64, day: u64, hour: u64, minute: u64, second: u64) -> Civil {
    Civil { year, month, day, hour, minute, second }
}

#[test]
fn epoch_day_index() {
    assert_eq!(day_index_of(&civil(1970, 1, 1, 0, 0, 0)), 135080);
    assert_eq!(time_index_of(&civil(1970, 1, 1, 0, 0, 0)), 11670912000);
}

#[test]
fn known_sunday_has_weekday_zero() {
    // 2023-01-01 was a Sunday.
    let d = day_index_of(&civil(2023, 1, 1, 0, 0, 0));
    assert_eq!(d, 154438);
    assert_eq!((d + 3) % 7, 0);
    // 2023-01-04 was a Wednesday.
    let d = day_index_of(&civil(2023, 1, 4, 0, 0, 0));
    assert_eq!((d + 3) % 7, 3);
}

#[test]
fn leap_year_month_lengths() {
    assert_eq!(days_in_month_of(2024, 2), 29);
    assert_eq!(days_in_month_of(2023, 2), 28);
    assert_eq!(days_in_month_of(2000, 2), 29);
    assert_eq!(days_in_month_of(2100, 2), 28);
    assert_eq!(days_in_month_of(2023, 4), 30);
    assert_eq!(days_in_month_of(2023, 12), 31);
}

#[test]
fn window_start_is_last_sunday_midnight() {
    // Wednesday 2023-01-04 12:00 UTC, offset 0: the week began
    // Sunday 2023-01-01 00:00 UTC.
    let now = time_index_of(&civil(2023, 1, 4, 12, 0, 0));
    assert_eq!(now, 13343745600);
    assert_eq!(window_start(now, 0), 13343443200);
    assert_eq!(window_start(now, 0), time_index_of(&civil(2023, 1, 1, 0, 0, 0)));
}

#[test]
fn window_boundary_included_and_excluded() {
    let now = time_index_of(&civil(2023, 1, 4, 12, 0, 0));
    let boundary = 13343443200u64;
    assert!(in_window_check(boundary, now, 0));
    assert!(!in_window_check(boundary - 1, now, 0));
    // The window is half-open at `now`.
    assert!(in_window_check(now - 1, now, 0));
    assert!(!in_window_check(now, now, 0));
}

#[test]
fn window_start_respects_offset() {
    // With an offset one hour east, local midnight Sunday lies one hour
    // earlier on the UTC scale.
    let now = time_index_of(&civil(2023, 1, 4, 12, 0, 0));
    assert_eq!(window_start(now, 3600), 13343443200 - 3600);
}

#[test]
fn timestamp_format_exact() {
    let c = civil(2023, 1, 4, 12, 0, 0);
    assert_eq!(format_timestamp(&c), "2023-01-04T12:00:00");
    let c = civil(1970, 12, 31, 23, 59, 59);
    assert_eq!(format_timestamp(&c), "1970-12-31T23:59:59");
}

#[test]
fn timestamp_parse_round_trip() {
    let c = civil(2024, 2, 29, 6, 7, 8);
    let text = format_timestamp(&c);
    assert_eq!(text, "2024-02-29T06:07:08");
    let back = parse_timestamp(text.as_str()).unwrap();
    assert_eq!(back, c);
}

#[test]
fn timestamp_parse_rejects_bad_text() {
    assert!(parse_timestamp("not a timestamp").is_none());
    assert!(parse_timestamp("2023-13-04T12:00:00").is_none());
    assert!(parse_timestamp("2023-02-29T12:00:00").is_none());
    assert!(parse_timestamp("2023-01-04 12:00:00").is_none());
    assert!(parse_timestamp("2023-01-04T12:00").is_none());
    assert!(parse_timestamp("1969-01-04T12:00:00").is_none());
    assert!(parse_timestamp("2023-01-04T24:00:00").is_none());
    assert_eq!(parse_timestamp("2023-01-04T12:00:00"), Some(civil(2023, 1, 4, 12, 0, 0)));
}
