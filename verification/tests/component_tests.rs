use delivery_boy::auth::{credential_ok, str_eq};
use delivery_boy::calendar::Civil;
use delivery_boy::digest::compile_digest;
use delivery_boy::dispatch::Dispatcher;
use delivery_boy::errors::ApiError;
use delivery_boy::sched::{offset_at_index, Scheduler};

#[test]
fn credential_check_is_exact_equality() {
    assert!(str_eq("", ""));
    assert!(str_eq("abc", "abc"));
    assert!(!str_eq("abc", "abd"));
    assert!(!str_eq("abc", "abcd"));
    assert!(credential_ok("token", "token"));
    assert!(!credential_ok("Token", "token"));
    assert!(!credential_ok("", "token"));
}

#[test]
fn status_codes() {
    assert_eq!(ApiError::Unauthorized.status_code(), 401);
    assert_eq!(ApiError::InvalidUrl.status_code(), 400);
    assert_eq!(ApiError::PersistenceFailure.status_code(), 500);
    assert_eq!(ApiError::DeliveryFailure.status_code(), 500);
}

#[test]
fn dispatcher_splits_destination_list() {
    let d = Dispatcher::new("https://a.example/1,https://b.example/2,https://c.example/3");
    assert_eq!(d.destination_count(), 3);
    assert_eq!(d.next_destination().unwrap().as_str(), "https://a.example/1");
    let d = Dispatcher::new("");
    assert_eq!(d.destination_count(), 1);
    assert_eq!(d.next_destination().unwrap().as_str(), "");
}

#[test]
fn dispatcher_walks_destinations_in_order() {
    let mut d = Dispatcher::new("https://a.example/1,https://b.example/2");
    assert_eq!(d.next_destination().unwrap().as_str(), "https://a.example/1");
    d.record_success();
    assert_eq!(d.next_destination().unwrap().as_str(), "https://b.example/2");
    assert_eq!(d.outcome(), None);
    d.record_success();
    assert_eq!(d.next_destination(), None);
    assert_eq!(d.outcome(), Some(Ok(())));
}

#[test]
fn dispatcher_short_circuits_on_first_failure() {
    let mut d = Dispatcher::new("https://a.example/1,https://b.example/2");
    assert_eq!(d.next_destination().unwrap().as_str(), "https://a.example/1");
    d.record_failure();
    // The second destination is never offered for delivery.
    assert_eq!(d.next_destination(), None);
    assert_eq!(d.outcome(), Some(Err(ApiError::DeliveryFailure)));
}

fn one_entry() -> Vec<delivery_boy::store::FeedEntry> {
    vec![delivery_boy::store::FeedEntry {
        link: String::from("https://example.com/a"),
        date: Civil { year: 2023, month: 1, day: 4, hour: 12, minute: 0, second: 0 },
        ts: 13343745600,
        title: String::from("A"),
        feed: String::from("F"),
    }]
}

#[test]
fn iso_week_numbers_in_digest_heading() {
    // Wednesday 2023-01-04 lies in ISO week 1 of 2023; Sunday 2023-01-01
    // still belongs to ISO week 52 of 2022; 2020 had an ISO week 53.
    let entries = one_entry();
    let p = compile_digest(&entries, &Civil { year: 2023, month: 1, day: 4, hour: 12, minute: 0, second: 0 });
    assert_eq!(p.title, "Posts for Week 1");
    let p = compile_digest(&entries, &Civil { year: 2023, month: 1, day: 1, hour: 12, minute: 0, second: 0 });
    assert_eq!(p.title, "Posts for Week 52");
    let p = compile_digest(&entries, &Civil { year: 2020, month: 12, day: 31, hour: 12, minute: 0, second: 0 });
    assert_eq!(p.title, "Posts for Week 53");
}

#[test]
fn reference_timezone_offsets() {
    // Winter: Pacific standard time, UTC-8. Summer: daylight time, UTC-7.
    // The argument is a time index: seconds since the calendar anchor.
    assert_eq!(offset_at_index(1672531200 + 11670912000), -28800);
    assert_eq!(offset_at_index(1688169600 + 11670912000), -25200);
}

#[test]
fn scheduler_fires_once_per_week_at_slot() {
    let mut s = Scheduler::new();
    // Local Sunday 2023-01-01: one second before 10:00, then at 10:00.
    assert!(!s.poll(13343479199));
    assert!(s.poll(13343479200));
    // Later the same week: no second firing.
    assert!(!s.poll(13343479260));
    assert!(!s.poll(13343569200));
    // The next week fires again (Sunday 2023-01-08 10:00).
    assert!(s.poll(13343479200 + 7 * 86400));
}

#[test]
fn scheduler_catches_up_after_slot() {
    let mut s = Scheduler::new();
    // First poll only on Monday of the same week: the slot has passed, so
    // the poll fires once.
    assert!(s.poll(13343569200));
    assert!(!s.poll(13343569260));
}

#[test]
fn compile_digest_empty_window_fallback() {
    let entries = Vec::new();
    let today = Civil { year: 2023, month: 1, day: 4, hour: 12, minute: 0, second: 0 };
    let p = compile_digest(&entries, &today);
    assert_eq!(p.title, "Nothing this week! \u{1F605}");
    assert_eq!(p.username, "Delivery Boy");
    assert_eq!(p.color, 0x5865F2);
}
