use delivery_boy::calendar::Civil;
use delivery_boy::errors::ApiError;
use delivery_boy::service::Service;

fn civil(year: u64, month: u64, day: u64, hour: u64, minute: u64, second: u64) -> Civil {
    Civil { year, month, day, hour, minute, second }
}

fn fresh() -> Service {
    Service::new(
        String::from("s3cr3t"),
        String::from("https://hooks.example.com/one"),
        0,
    )
}

#[test]
fn round_trip_submit_then_list() {
    let mut svc = fresh();
    let now = civil(2023, 1, 4, 12, 0, 0);
    let id = svc.submit("s3cr3t", "https://example.com/a", "A", "F", &now).unwrap();
    assert_eq!(id, 0);
    let later = civil(2023, 1, 4, 12, 0, 1);
    let listed = svc.list_window("s3cr3t", &later).unwrap();
    assert_eq!(listed.len(), 1);
    assert_eq!(listed[0].link, "https://example.com/a");
    assert_eq!(listed[0].title, "A");
    assert_eq!(listed[0].feed, "F");
    assert_eq!(listed[0].date, now);
    // The server-assigned timestamp is not before the submission instant.
    assert!(listed[0].ts >= 13343745600);
}

#[test]
fn submitted_link_is_normalized() {
    let mut svc = fresh();
    let now = civil(2023, 1, 4, 12, 0, 0);
    svc.submit("s3cr3t", "HTTPS://EXAMPLE.COM/A", "A", "F", &now).unwrap();
    svc.submit("s3cr3t", "https://example.com", "B", "F", &now).unwrap();
    let listed = svc.list_window("s3cr3t", &civil(2023, 1, 4, 12, 0, 1)).unwrap();
    assert_eq!(listed.len(), 2);
    assert_eq!(listed[0].link, "https://example.com/A");
    assert_eq!(listed[1].link, "https://example.com/");
}

#[test]
fn rejection_of_invalid_url() {
    let mut svc = fresh();
    let now = civil(2023, 1, 4, 12, 0, 0);
    let r = svc.submit("s3cr3t", "not a url", "A", "F", &now);
    assert_eq!(r, Err(ApiError::InvalidUrl));
    assert_eq!(ApiError::InvalidUrl.status_code(), 400);
    let listed = svc.list_window("s3cr3t", &civil(2023, 1, 4, 12, 0, 1)).unwrap();
    assert_eq!(listed.len(), 0);
}

#[test]
fn wrong_credential_has_no_effect() {
    let mut svc = fresh();
    let now = civil(2023, 1, 4, 12, 0, 0);
    let r = svc.submit("wrong", "https://example.com/a", "A", "F", &now);
    assert_eq!(r, Err(ApiError::Unauthorized));
    assert_eq!(ApiError::Unauthorized.status_code(), 401);
    assert!(matches!(svc.list_window("", &now), Err(ApiError::Unauthorized)));
    assert!(matches!(svc.trigger_digest("nope", &now), Err(ApiError::Unauthorized)));
    // Nothing was stored.
    let listed = svc.list_window("s3cr3t", &civil(2023, 1, 4, 12, 0, 1)).unwrap();
    assert_eq!(listed.len(), 0);
}

#[test]
fn window_boundary_through_service() {
    let mut svc = fresh();
    // Exactly at the week's start: Sunday 2023-01-01 00:00:00.
    svc.submit("s3cr3t", "https://example.com/on", "On", "F", &civil(2023, 1, 1, 0, 0, 0))
        .unwrap();
    // One second before the boundary.
    svc.submit("s3cr3t", "https://example.com/off", "Off", "F", &civil(2022, 12, 31, 23, 59, 59))
        .unwrap();
    let listed = svc.list_window("s3cr3t", &civil(2023, 1, 4, 12, 0, 0)).unwrap();
    assert_eq!(listed.len(), 1);
    assert_eq!(listed[0].title, "On");
}

#[test]
fn empty_window_always_falls_back() {
    let svc = fresh();
    let now = civil(2023, 1, 4, 12, 0, 0);
    let (p1, _) = svc.trigger_digest("s3cr3t", &now).unwrap();
    let (p2, _) = svc.trigger_digest("s3cr3t", &now).unwrap();
    assert_eq!(p1.title, "Nothing this week! \u{1F605}");
    assert_eq!(p1.description, "Here are the articles from the past week!");
    assert_eq!(p1.color, 0x5865F2);
    assert_eq!(
        p1.footer,
        "Disclaimer: It's possible I missed all of Matei's messages. Oops."
    );
    assert_eq!(p1.username, "Delivery Boy");
    assert_eq!(p1.title, p2.title);
    assert_eq!(p1.description, p2.description);
    assert_eq!(p1.color, p2.color);
    assert_eq!(p1.footer, p2.footer);
    assert_eq!(p1.username, p2.username);
}

#[test]
fn digest_lists_entries_in_order() {
    let mut svc = fresh();
    let now = civil(2023, 1, 4, 12, 0, 0);
    svc.submit("s3cr3t", "https://example.com/a", "A", "F", &now).unwrap();
    svc.submit("s3cr3t", "https://example.com/b", "B", "F2", &now).unwrap();
    let at = civil(2023, 1, 4, 13, 0, 0);
    let (payload, dispatcher) = svc.trigger_digest("s3cr3t", &at).unwrap();
    // 2023-01-04 lies in ISO week 1.
    assert_eq!(payload.title, "Posts for Week 1");
    assert_eq!(
        payload.description,
        "**1.** [A](https://example.com/a)\n_Feed:_ F\n**2.** [B](https://example.com/b)\n_Feed:_ F2"
    );
    assert_eq!(payload.color, 0x5865F2);
    assert_eq!(
        payload.footer,
        "Disclaimer: This is not sorted in any particular order of interest."
    );
    assert_eq!(dispatcher.destination_count(), 1);
    assert_eq!(
        dispatcher.next_destination().unwrap().as_str(),
        "https://hooks.example.com/one"
    );
}

#[test]
fn entries_outside_window_stay_out_of_digest() {
    let mut svc = fresh();
    // An entry from the previous week never reaches the next digest.
    svc.submit("s3cr3t", "https://example.com/old", "Old", "F", &civil(2022, 12, 28, 9, 0, 0))
        .unwrap();
    let (payload, _) = svc.trigger_digest("s3cr3t", &civil(2023, 1, 4, 12, 0, 0)).unwrap();
    assert_eq!(payload.title, "Nothing this week! \u{1F605}");
}
