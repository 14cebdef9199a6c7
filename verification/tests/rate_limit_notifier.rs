use librefang::clock::{fits_millis, UtcTime, MAX_SECS, MIN_SECS};
use librefang::rate_limit_notifier::{
    active_template, box_tz, build_rate_limit_notify_text, fill_template, notice_for_hold,
    parse_defer_marker, render_local_time, reset_is_representable, DEFAULT_TEMPLATE,
};

const ROME: Option<&str> = Some("Europe/Rome");

/// 2026-05-22 09:00:00 UTC.
fn fixed_now() -> UtcTime {
    UtcTime::new(1_779_440_400, 0).unwrap()
}

#[test]
fn returns_none_for_non_rate_limit_error() {
    let err = "Some other transport failure";
    assert!(build_rate_limit_notify_text(err, fixed_now(), None, None).is_none());
}

#[test]
fn returns_none_for_zero_defer_ms() {
    let err = "Rate limited [rate_limit_defer_ms]=0";
    assert!(build_rate_limit_notify_text(err, fixed_now(), None, None).is_none());
}

#[test]
fn returns_some_for_defer_marker() {
    // 5min = 300_000 ms; from 09:00 UTC + 5m = 09:05 UTC = 11:05 CEST
    let err = "Rate limited after 3 retries [rate_limit_defer_ms]=300000";
    let out = build_rate_limit_notify_text(err, fixed_now(), ROME, None).expect("expected Some");
    assert!(out.contains("11:05"), "expected 11:05 (CEST), got: {out}");
    assert!(out.starts_with("⏸️"), "expected pause emoji prefix");
}

#[test]
fn long_defer_renders_correctly() {
    // 1h = 3_600_000 ms; from 09:00 UTC + 1h = 10:00 UTC = 12:00 CEST
    let err = "Model overloaded [rate_limit_defer_ms]=3600000";
    let out = build_rate_limit_notify_text(err, fixed_now(), ROME, None).expect("expected Some");
    assert!(out.contains("12:00"), "expected 12:00 (CEST), got: {out}");
}

#[test]
fn env_var_overrides_default_tz() {
    let err = "Rate limited [rate_limit_defer_ms]=300000";
    let out = build_rate_limit_notify_text(err, fixed_now(), Some("America/New_York"), None)
        .expect("expected Some");
    // 09:05 UTC = 05:05 EDT (May = DST active)
    assert!(out.contains("05:05"), "expected EDT 05:05, got: {out}");
}

#[test]
fn env_var_overrides_template() {
    let err = "Rate limited [rate_limit_defer_ms]=300000";
    let out = build_rate_limit_notify_text(
        err,
        fixed_now(),
        ROME,
        Some("Limite raggiunto. Reset alle {reset_time}."),
    )
    .expect("expected Some");
    assert_eq!(out, "Limite raggiunto. Reset alle 11:05.");
}

#[test]
fn template_without_placeholder_renders_verbatim() {
    let err = "Rate limited [rate_limit_defer_ms]=300000";
    let out = build_rate_limit_notify_text(err, fixed_now(), ROME, Some("Riprovo dopo."))
        .expect("expected Some");
    assert_eq!(out, "Riprovo dopo.");
}

#[test]
fn fixed_now_is_the_date_it_says() {
    let at = chrono::DateTime::from_timestamp(fixed_now().secs, fixed_now().nanos).unwrap();
    assert_eq!(at.to_rfc3339(), "2026-05-22T09:00:00+00:00");
}

#[test]
fn default_template_and_zone_are_used() {
    let err = "[rate_limit_defer_ms]=300000";
    let out = build_rate_limit_notify_text(err, fixed_now(), None, None).unwrap();
    assert_eq!(out, "⏸️ Limite quota raggiunto. Reset alle 11:05. Ti rispondo dopo.");
}

#[test]
fn a_hold_of_less_than_a_second_gives_no_notice() {
    let now = fixed_now();
    assert!(build_rate_limit_notify_text("[rate_limit_defer_ms]=999", now, ROME, None).is_none());
    assert!(build_rate_limit_notify_text("[rate_limit_defer_ms]=1000", now, ROME, None).is_some());
}

#[test]
fn a_hold_has_its_notice() {
    let now = fixed_now();
    let text = Some("alle {reset_time}");
    assert_eq!(notice_for_hold(0, now, ROME, text), None);
    assert_eq!(notice_for_hold(999, now, ROME, text), None);
    assert_eq!(notice_for_hold(1_000, now, ROME, text), Some("alle 11:00".to_string()));
    assert_eq!(notice_for_hold(86_340_000, now, ROME, text), Some("alle 10:59".to_string()));
}

#[test]
fn defer_marker_is_read() {
    assert_eq!(parse_defer_marker("[rate_limit_defer_ms]=42"), Some(42));
    assert_eq!(parse_defer_marker("x [rate_limit_defer_ms]=42 then 7"), Some(42));
    assert_eq!(parse_defer_marker("[rate_limit_defer_ms]=1 [rate_limit_defer_ms]=2"), Some(1));
    assert_eq!(parse_defer_marker("[rate_limit_defer_ms]="), None);
    assert_eq!(parse_defer_marker("[rate_limit_defer_ms]=-5"), None);
    assert_eq!(parse_defer_marker("rate_limit_defer_ms=5"), None);
    assert_eq!(
        parse_defer_marker("[rate_limit_defer_ms]=18446744073709551615"),
        Some(u64::MAX)
    );
    assert_eq!(parse_defer_marker("[rate_limit_defer_ms]=18446744073709551616"), None);
}

#[test]
fn empty_template_is_none() {
    assert_eq!(active_template(None), DEFAULT_TEMPLATE);
    assert_eq!(active_template(Some("")), DEFAULT_TEMPLATE);
    assert_eq!(active_template(Some("x")), "x");
}

#[test]
fn unknown_zone_is_none() {
    assert_eq!(box_tz(None), "Europe/Rome");
    assert_eq!(box_tz(Some("Mars/Olympus")), "Europe/Rome");
    assert_eq!(box_tz(Some("")), "Europe/Rome");
    assert_eq!(box_tz(Some("Asia/Tokyo")), "Asia/Tokyo");
}

#[test]
fn local_time_follows_the_zone() {
    // 2026-01-15 23:59:30 UTC
    let winter = UtcTime::new(1_768_521_570, 0).unwrap();
    assert_eq!(render_local_time(winter, ROME), "00:59");
    assert_eq!(render_local_time(winter, Some("UTC")), "23:59");
    assert_eq!(render_local_time(winter, Some("Asia/Kolkata")), "05:29");
    assert_eq!(render_local_time(fixed_now(), ROME), "11:00");
}

#[test]
fn every_placeholder_is_filled() {
    assert_eq!(fill_template("{reset_time}", "07:30"), "07:30");
    assert_eq!(fill_template("a {reset_time} b {reset_time}", "1"), "a 1 b 1");
    assert_eq!(fill_template("{reset_tim}", "07:30"), "{reset_tim}");
    assert_eq!(fill_template("{{reset_time}}", "07:30"), "{07:30}");
    assert_eq!(fill_template("no placeholder", "07:30"), "no placeholder");
}

#[test]
fn a_hold_past_the_end_of_time_cannot_be_shown() {
    let now = fixed_now();
    assert!(reset_is_representable("[rate_limit_defer_ms]=300000", now));
    assert!(reset_is_representable("anything", now));
    assert!(!reset_is_representable("[rate_limit_defer_ms]=9223372036854775807", now));
    assert!(!reset_is_representable("[rate_limit_defer_ms]=9223372036854775808", now));
    assert!(!reset_is_representable("[rate_limit_defer_ms]=18446744073709551615", now));
    let last = (MAX_SECS - now.secs) * 1_000 + 999;
    assert!(reset_is_representable(&format!("[rate_limit_defer_ms]={last}"), now));
    assert!(!reset_is_representable(&format!("[rate_limit_defer_ms]={}", last + 1), now));
}

#[test]
fn the_range_of_times_is_the_calendar_s() {
    let first = chrono::DateTime::<chrono::Utc>::MIN_UTC;
    let last = chrono::DateTime::<chrono::Utc>::MAX_UTC;
    assert_eq!(first.timestamp(), MIN_SECS);
    assert_eq!(last.timestamp(), MAX_SECS);
    assert!(UtcTime::new(MIN_SECS - 1, 0).is_none());
    assert!(UtcTime::new(MAX_SECS + 1, 0).is_none());
    assert!(UtcTime::new(MIN_SECS, 0).is_some());
    assert!(UtcTime::new(MAX_SECS, 999_999_999).is_some());
    assert!(UtcTime::new(0, 2_000_000_000).is_none());
    assert!(UtcTime::new(59, 1_500_000_000).is_some());
    assert!(UtcTime::new(58, 1_500_000_000).is_none());
    assert!(UtcTime::new(-1, 1_500_000_000).is_some());
}

#[test]
fn sums_that_fit_are_those_that_the_calendar_takes() {
    let points = [
        (MAX_SECS, 0, 999),
        (MAX_SECS, 0, 1_000),
        (MAX_SECS, 500_000_000, 499),
        (MAX_SECS, 500_000_000, 500),
        (MIN_SECS, 0, -1),
        (MIN_SECS, 1_000_000, -1),
        (0, 0, i64::MAX),
        (0, 0, -i64::MAX),
        (0, 0, -1),
        (59, 1_500_000_000, 1),
    ];
    for (secs, nanos, ms) in points {
        let t = UtcTime::new(secs, nanos).unwrap();
        let at = chrono::DateTime::from_timestamp(secs, nanos).unwrap();
        let sum = at.checked_add_signed(chrono::Duration::milliseconds(ms));
        assert_eq!(fits_millis(t, ms), sum.is_some(), "{secs} {nanos} {ms}");
    }
}

#[test]
fn a_hold_from_inside_a_leap_second_ends_where_the_calendar_says() {
    let leap = UtcTime::new(1_483_228_799, 1_500_000_000).unwrap();
    let at = chrono::DateTime::from_timestamp(leap.secs, leap.nanos).unwrap();
    for ms in [1_000i64, 1_499, 61_000] {
        let end = at + chrono::Duration::milliseconds(ms);
        let text = build_rate_limit_notify_text(
            &format!("[rate_limit_defer_ms]={ms}"),
            leap,
            Some("UTC"),
            Some("{reset_time}"),
        );
        assert_eq!(text.unwrap(), end.format("%H:%M").to_string());
    }
}

#[test]
fn the_ends_of_time_have_clocks() {
    let first = UtcTime::new(MIN_SECS, 0).unwrap();
    let last = UtcTime::new(MAX_SECS, 1_999_999_999).unwrap();
    for zone in ["UTC", "Europe/Rome", "America/New_York", "Pacific/Kiritimati"] {
        for t in [first, last] {
            let shown = render_local_time(t, Some(zone));
            assert_eq!(shown.len(), 5, "{zone} {shown}");
        }
    }
    assert_eq!(render_local_time(first, Some("UTC")), "00:00");
    assert_eq!(render_local_time(last, Some("UTC")), "23:59");
}
