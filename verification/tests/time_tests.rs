use latex_telegram_bot::timestamp::{
    earlier, now_and_window, parse_rfc3339, try_now_and_window, try_utc_to_hst, utc_to_hst,
    Timestamp,
};

#[test]
fn rfc3339_reading() {
    let t = parse_rfc3339("2026-02-23T18:00:00Z").unwrap();
    assert_eq!(t, Timestamp { secs: 1771869600, nanos: 0 });
    let t = parse_rfc3339("2026-02-23T08:00:00-10:00").unwrap();
    assert_eq!(t, Timestamp { secs: 1771869600, nanos: 0 });
    let t = parse_rfc3339("2026-02-23T18:00:00.5Z").unwrap();
    assert_eq!(t, Timestamp { secs: 1771869600, nanos: 500_000_000 });
    assert_eq!(parse_rfc3339("2026-02-23"), None);
    assert_eq!(parse_rfc3339(""), None);
}

#[test]
fn hst_text_of_utc() {
    assert_eq!(utc_to_hst("2026-02-23T18:00:00Z"), "February 23, 2026 08:00 AM HST");
    assert_eq!(utc_to_hst("2026-02-23T20:30:15Z"), "February 23, 2026 10:30 AM HST");
    assert_eq!(utc_to_hst("2026-01-01T03:00:00Z"), "December 31, 2025 05:00 PM HST");
}

#[test]
fn hst_text_of_unreadable_date() {
    assert_eq!(try_utc_to_hst("not a date"), None);
    assert_eq!(try_utc_to_hst(""), None);
    assert_eq!(
        try_utc_to_hst("2026-02-23T18:00:00Z"),
        Some("February 23, 2026 08:00 AM HST".to_string())
    );
}

#[test]
fn window_of_eight_hours() {
    let now = Timestamp { secs: 1771869600, nanos: 123 };
    let (n, later, now_str) = now_and_window(now, 8);
    assert_eq!(n, now);
    assert_eq!(later, Timestamp { secs: 1771869600 + 8 * 3600, nanos: 123 });
    assert_eq!(now_str, "2026-02-23T18:00:00Z");
}

#[test]
fn window_that_does_not_fit() {
    let now = Timestamp { secs: 1771869600, nanos: 0 };
    assert!(try_now_and_window(now, i64::MAX).is_none());
    assert!(try_now_and_window(now, -8).is_some());
}

#[test]
fn ordering_of_instants() {
    let a = Timestamp { secs: 10, nanos: 5 };
    let b = Timestamp { secs: 10, nanos: 6 };
    let c = Timestamp { secs: 11, nanos: 0 };
    assert!(earlier(a, b));
    assert!(earlier(b, c));
    assert!(!earlier(b, a));
    assert!(!earlier(a, a));
}

#[test]
fn window_at_the_edges_of_the_calendar() {
    let last = Timestamp { secs: 8210266876799, nanos: 0 };
    assert!(try_now_and_window(last, 0).is_some());
    assert!(try_now_and_window(Timestamp { secs: 8210266876800, nanos: 0 }, 0).is_none());
    assert!(try_now_and_window(Timestamp { secs: 8210266876799 - 3600, nanos: 0 }, 1).is_some());
    assert!(try_now_and_window(Timestamp { secs: 8210266876800 - 3600, nanos: 0 }, 1).is_none());
    let first = Timestamp { secs: -8334601228800, nanos: 0 };
    assert!(try_now_and_window(first, 0).is_some());
    assert!(try_now_and_window(Timestamp { secs: -8334601228801, nanos: 0 }, 0).is_none());
    assert!(try_now_and_window(Timestamp { secs: -8334601228800 + 3600, nanos: 0 }, -1).is_some());
    assert!(try_now_and_window(Timestamp { secs: -8334601228801 + 3600, nanos: 0 }, -1).is_none());
    assert!(try_now_and_window(Timestamp { secs: 0, nanos: 2_000_000_000 }, 0).is_none());
}

#[test]
fn window_from_a_leap_second() {
    let leap = Timestamp { secs: 59, nanos: 1_500_000_000 };
    let (_, later, _) = try_now_and_window(leap, 1).unwrap();
    assert_eq!(later, Timestamp { secs: 59 + 3600, nanos: 500_000_000 });
    let (_, earlier_one, _) = try_now_and_window(leap, -1).unwrap();
    assert_eq!(earlier_one, Timestamp { secs: 60 - 3600, nanos: 500_000_000 });
    let (_, same, _) = try_now_and_window(leap, 0).unwrap();
    assert_eq!(same, leap);
    assert!(try_now_and_window(Timestamp { secs: 58, nanos: 1_500_000_000 }, 1).is_none());
}

#[test]
fn every_rfc3339_text_reads_as_utc() {
    for text in [
        "2026-02-23T18:00:00Z",
        "2026-02-23t18:00:00z",
        "2026-02-23 18:00:00+00:00",
        "2026-02-23T08:00:00-10:00",
        "2026-02-23T18:00:00.250Z",
    ] {
        assert_eq!(try_utc_to_hst(text).unwrap(), "February 23, 2026 08:00 AM HST");
    }
    let leap = parse_rfc3339("2016-12-31T23:59:60Z").unwrap();
    assert_eq!(leap.nanos, 1_000_000_000);
    assert_eq!(try_utc_to_hst("2016-12-31T23:59:60Z").unwrap(), "December 31, 2016 01:59 PM HST");
}
