use fleet::json::{round_to_byte, Json};
use fleet::time::{Duration, Moment};
use fleet::timestamp::{can_place, days_from_civil, parse_rfc3339};
use fleet::usage::{
    can_place_window, countdown, read_snapshot, window, Snapshot, Unplaceable, Watch,
};

fn whole(n: u64) -> Json {
    Json::Number { whole: Some(n), double: Some((n as f64).to_bits()) }
}

fn text(s: &str) -> Json {
    Json::Text(s.to_string())
}

fn object(members: Vec<(&str, Json)>) -> Json {
    Json::Object(members.into_iter().map(|(k, v)| (k.to_string(), v)).collect())
}

#[test]
fn the_epoch_is_where_it_should_be() {
    assert_eq!(parse_rfc3339("1970-01-01T00:00:00Z"), Some(0));
    assert_eq!(days_from_civil(1970, 1, 1), 0);
}

#[test]
fn a_cached_reset_time_parses_offset_and_fraction() {
    // The shape the cache actually stores.
    let utc = parse_rfc3339("2026-09-17T16:10:00.888709+00:00").unwrap();
    let plain = parse_rfc3339("2026-09-17T16:10:00Z").unwrap();
    assert_eq!(utc, plain);
    // An offset moves the instant the other way.
    let plus2 = parse_rfc3339("2026-09-17T16:10:00+02:00").unwrap();
    assert_eq!(plain - plus2, 2 * 3600);
    let minus5 = parse_rfc3339("2026-09-17T16:10:00-05:00").unwrap();
    assert_eq!(minus5 - plain, 5 * 3600);
}

#[test]
fn a_window_that_already_reset_says_so_instead_of_counting_down() {
    let past = object(vec![
        ("utilization", whole(21)),
        ("resets_at", text("2000-01-01T00:00:00Z")),
    ]);
    let parsed = window(Some(&past)).unwrap();
    assert_eq!(parsed.0, 21);

    let now = 1_700_000_000;
    let w = countdown(parsed, now);
    assert!(w.expired);
    assert!(w.resets_in.is_none());

    // The same window, read before it resets, counts down instead.
    let ahead = countdown((21, Some(now as i64 + 90 * 60)), now);
    assert!(!ahead.expired);
    assert_eq!(ahead.resets_in, Some(Duration::from_secs(90 * 60)));
}

#[test]
fn a_null_window_is_simply_absent() {
    assert!(window(Some(&Json::Null)).is_none());
    assert!(window(None).is_none());
}

#[test]
fn a_date_is_counted_from_the_epoch() {
    assert_eq!(days_from_civil(1970, 1, 2), 1);
    assert_eq!(days_from_civil(1969, 12, 31), -1);
    assert_eq!(days_from_civil(2000, 2, 29) + 1, days_from_civil(2000, 3, 1));
    assert_eq!(days_from_civil(1900, 2, 28) + 1, days_from_civil(1900, 3, 1));
    assert_eq!(parse_rfc3339("2026-09-17T16:10:00Z"), Some(1_789_661_400));
}

#[test]
fn an_offset_is_written_in_several_ways() {
    let plain = parse_rfc3339("2026-09-17T16:10:00").unwrap();
    assert_eq!(parse_rfc3339("2026-09-17T16:10:00z"), Some(plain));
    assert_eq!(parse_rfc3339("2026-09-17T16:10:00+0230"), Some(plain - 9000));
    assert_eq!(parse_rfc3339("2026-09-17T16:10:00.5-02"), Some(plain + 7200));
    assert_eq!(parse_rfc3339("2026-09-17T16:10:00 UTC"), None);
    assert_eq!(parse_rfc3339("2026-09-17 16:10:00Z"), None);
    assert_eq!(parse_rfc3339("2026-09-17T16:10"), None);
    assert_eq!(parse_rfc3339("2026-xx-17T16:10:00Z"), None);
    assert!(!can_place("2026-09-17T16:10:00+9223372036854775807:00"));
}

#[test]
fn a_window_needs_a_percentage_and_nothing_else() {
    let bare = object(vec![("utilization", whole(300))]);
    assert_eq!(window(Some(&bare)), Some((255, None)));
    let half = object(vec![
        ("utilization", Json::Number { whole: None, double: Some(20.5f64.to_bits()) }),
        ("resets_at", Json::Null),
    ]);
    assert_eq!(window(Some(&half)), Some((21, None)));
    let odd = object(vec![("utilization", text("20")), ("resets_at", text("x"))]);
    assert_eq!(window(Some(&odd)), None);
    let unread = object(vec![("utilization", whole(1)), ("resets_at", text("tomorrow"))]);
    assert_eq!(window(Some(&unread)), Some((1, None)));
    let far = object(vec![
        ("utilization", whole(1)),
        ("resets_at", text("2026-09-17T16:10:00+9223372036854775807:00")),
    ]);
    assert!(!can_place_window(Some(&far)));
}

#[test]
fn a_percentage_rounds_as_doubles_do() {
    let mut cases: Vec<f64> = vec![
        0.0, -0.0, 0.49999999999999994, 0.5, 1.5, 2.5, 99.5, 254.49, 254.5, 255.0, 255.5, 256.0,
        1e300, -1.0, -0.4, f64::NAN, f64::INFINITY, f64::NEG_INFINITY, f64::MIN_POSITIVE, 5e-324,
        4503599627370495.5, 9007199254740993.0,
    ];
    for i in 0..2600u32 {
        cases.push(f64::from(i) / 10.0);
        cases.push(f64::from(i) / 8.0 - 20.0);
    }
    for x in cases {
        assert_eq!(round_to_byte(x.to_bits()), x.round().clamp(0.0, 255.0) as u8, "{x}");
    }
}

#[test]
fn the_cache_is_read_out_of_its_file() {
    let raw = r#"{"other": [1, {"a": null}], "cachedUsageUtilization": {
        "fetchedAtMs": 1700000000123,
        "utilization": {
            "five_hour": {"utilization": 41.6, "resets_at": "2026-09-17T16:10:00.888709+00:00"},
            "seven_day": null
        }}}"#;
    assert_eq!(
        read_snapshot(raw),
        Ok(Some(Snapshot {
            session: Some((42, Some(1_789_661_400))),
            weekly: None,
            fetched_at_ms: Some(1_700_000_000_123),
        }))
    );
    let bare = r#"{"cachedUsageUtilization": {"fetchedAtMs": -1, "utilization": {}}}"#;
    assert_eq!(
        read_snapshot(bare),
        Ok(Some(Snapshot { session: None, weekly: None, fetched_at_ms: None }))
    );
}

#[test]
fn a_file_without_the_cache_says_nothing() {
    assert_eq!(read_snapshot("not json"), Ok(None));
    assert_eq!(read_snapshot("{}"), Ok(None));
    assert_eq!(read_snapshot("[]"), Ok(None));
    assert_eq!(read_snapshot(r#"{"cachedUsageUtilization": {}}"#), Ok(None));
    assert_eq!(read_snapshot(r#"{"cachedUsageUtilization": 3}"#), Ok(None));
}

#[test]
fn the_last_of_two_members_of_one_name_counts() {
    let raw = r#"{"cachedUsageUtilization": {"utilization": {
        "five_hour": {"utilization": 1, "utilization": 2}}}}"#;
    let snap = read_snapshot(raw).unwrap().unwrap();
    assert_eq!(snap.session, Some((2, None)));
}

#[test]
fn a_reset_time_beyond_counting_is_an_error() {
    let raw = r#"{"cachedUsageUtilization": {"utilization": {"seven_day":
        {"utilization": 1, "resets_at": "2026-09-17T16:10:00+9223372036854775807:00"}}}}"#;
    assert_eq!(read_snapshot(raw), Err(Unplaceable));
}

#[test]
fn a_snapshot_becomes_countdowns() {
    let snap = Snapshot {
        session: Some((10, Some(1_000_100))),
        weekly: Some((20, Some(999_999))),
        fetched_at_ms: Some(999_990_500),
    };
    let u = fleet::usage::derive(&snap, Moment::new(1_000_000, 500_000_000));
    let session = u.session.unwrap();
    assert_eq!((session.pct, session.expired), (10, false));
    assert_eq!(session.resets_in, Some(Duration::from_secs(100)));
    let weekly = u.weekly.unwrap();
    assert_eq!((weekly.pct, weekly.expired, weekly.resets_in), (20, true, None));
    assert_eq!(u.fetched_ago, Duration::from_secs(10));
    // Numbers from the future are not older than nothing.
    let early = fleet::usage::derive(&snap, Moment::new(10, 0));
    assert_eq!(early.fetched_ago, Duration::from_secs(0));
    let unknown = fleet::usage::derive(&Snapshot { session: None, weekly: None, fetched_at_ms: None },
        Moment::new(10, 0));
    assert_eq!(unknown.fetched_ago, Duration::from_secs(0));
    assert!(unknown.session.is_none() && unknown.weekly.is_none());
}

#[test]
fn the_file_is_read_only_when_it_has_changed() {
    let snap = |pct| {
        Some(Snapshot { session: Some((pct, Some(1000))), weekly: None, fetched_at_ms: None })
    };
    let at = |s| Some(Moment::new(s, 0));
    let pct = |w: &Watch| w.current.unwrap().session.unwrap().pct;

    let mut watch = Watch::new(Some(std::path::PathBuf::from("/home/me/cache.json")));
    assert!(watch.current.is_none());
    assert!(watch.wants_read(at(5)));
    assert!(watch.refresh(at(5), snap(7), Moment::new(900, 0)));
    assert_eq!(pct(&watch), 7);

    // Unchanged: what a read would say does not matter, and nothing moves.
    assert!(!watch.wants_read(at(5)));
    assert!(!watch.refresh(at(5), snap(8), Moment::new(900, 0)));
    assert_eq!(pct(&watch), 7);
    // The countdown moves all the same.
    assert!(watch.refresh(at(5), None, Moment::new(901, 0)));
    assert_eq!(pct(&watch), 7);

    // Changed, and read again.
    assert!(watch.wants_read(at(6)));
    assert!(watch.refresh(at(6), snap(9), Moment::new(901, 0)));
    assert_eq!(pct(&watch), 9);

    // Gone: there is nothing to show.
    assert!(watch.refresh(None, None, Moment::new(901, 0)));
    assert!(watch.current.is_none());
}

#[test]
fn a_watch_without_a_file_never_changes() {
    let mut watch = Watch::new(None);
    assert!(!watch.wants_read(Some(Moment::new(1, 0))));
    let read = Some(Snapshot { session: Some((1, None)), weekly: None, fetched_at_ms: None });
    assert!(!watch.refresh(Some(Moment::new(1, 0)), read, Moment::new(2, 0)));
    assert!(watch.current.is_none() && watch.seen.is_none() && watch.snapshot.is_none());
}
