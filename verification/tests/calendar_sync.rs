use mbar::calendar_sync::{
    agenda_text, calendar_step, expiry_status, fetch_step, is_expired, legacy_received_at,
    CalendarBackendState, CalendarResponse, CalendarStep, FetchStep, HttpOutcome, UtcInstant,
    CACHE_DURATION_NANOS,
};
use mbar::datetime_stats::CHRONO_MIN_TIMESTAMP;

fn at(secs: i64, nanos: u32) -> UtcInstant {
    UtcInstant::new(secs, nanos).unwrap()
}

#[test]
fn backend_starts_empty() {
    let state = CalendarBackendState::default();
    assert_eq!(state.events_json, "[]");
    assert!(!state.is_loading);
    assert_eq!(state.last_update, None);
}

#[test]
fn fetches_do_not_overlap_and_are_cached() {
    let mut state = CalendarBackendState::default();
    assert!(state.begin_update(1_000));
    assert!(state.is_loading);
    assert_eq!(state.last_update, Some(1_000));
    // a second request while loading is ignored, however late
    assert!(!state.begin_update(1_000 + 10 * CACHE_DURATION_NANOS));
    state.finish_update("[{}]".to_string());
    assert_eq!(state.events_json, "[{}]");
    assert!(!state.is_loading);
    // within the cache duration nothing happens
    assert!(!state.begin_update(1_000 + CACHE_DURATION_NANOS - 1));
    assert_eq!(state.last_update, Some(1_000));
    // a clock reading before the last start counts as no time passed
    assert!(!state.begin_update(10));
    assert!(state.begin_update(1_000 + CACHE_DURATION_NANOS));
    assert_eq!(state.last_update, Some(1_000 + CACHE_DURATION_NANOS));
}

#[test]
fn token_expires_a_minute_early() {
    let received = at(1_000_000, 500);
    assert!(!is_expired(Some(3_600), &received, &at(1_000_000 + 3_540, 500)));
    assert!(is_expired(Some(3_600), &received, &at(1_000_000 + 3_540, 501)));
    assert!(is_expired(Some(3_600), &received, &at(1_000_000 + 3_541, 0)));
    assert!(!is_expired(Some(3_600), &received, &at(1_000_000 + 3_539, 999_999_999)));
    assert!(!is_expired(None, &received, &at(9_000_000_000, 0)));
    // a lifetime too long for chrono counts as zero
    assert!(is_expired(Some(u64::MAX), &received, &at(1_000_000 - 59, 0)));
    assert!(!is_expired(Some(u64::MAX), &received, &at(1_000_000 - 61, 0)));
}

#[test]
fn expiry_status_reports_out_of_range() {
    let received = at(1_000_000, 0);
    assert_eq!(expiry_status(Some(3_600), &received, &at(1_003_600, 0)), Some(true));
    assert_eq!(expiry_status(None, &received, &at(0, 0)), Some(false));
    assert_eq!(expiry_status(Some(9_000_000_000_000_000), &received, &at(0, 0)), None);
    assert!(UtcInstant::new(0, 1_000_000_000).is_none());
    let t = at(-86_400, 999_999_999);
    assert_eq!((t.secs(), t.nanos()), (-86_400, 999_999_999));
    assert!(UtcInstant::new(i64::MAX, 0).is_none());
}

#[test]
fn refused_token_is_retried_once() {
    assert_eq!(fetch_step(HttpOutcome::Success, false), FetchStep::UseResponse);
    assert_eq!(fetch_step(HttpOutcome::Success, true), FetchStep::UseResponse);
    assert_eq!(fetch_step(HttpOutcome::Unauthorized, false), FetchStep::RefreshAndRetry);
    assert_eq!(fetch_step(HttpOutcome::Unauthorized, true), FetchStep::GiveUp);
    assert_eq!(fetch_step(HttpOutcome::Failed, false), FetchStep::GiveUp);
}

#[test]
fn legacy_token_counts_as_two_hours_old() {
    let t = legacy_received_at(&at(1_000_000, 42)).unwrap();
    assert_eq!((t.secs(), t.nanos()), (1_000_000 - 7_200, 42));
    assert!(is_expired(Some(3_600), &t, &at(1_000_000, 42)));
    assert!(legacy_received_at(&at(CHRONO_MIN_TIMESTAMP + 7_199, 0)).is_none());
    assert!(legacy_received_at(&at(CHRONO_MIN_TIMESTAMP + 7_200, 0)).is_some());
}

#[test]
fn failed_calendars_are_skipped_and_failed_fetches_show_empty() {
    assert_eq!(calendar_step(CalendarResponse::Read), CalendarStep::Include);
    assert_eq!(calendar_step(CalendarResponse::RequestFailed), CalendarStep::Skip);
    assert_eq!(calendar_step(CalendarResponse::BodyUnreadable), CalendarStep::Abort);
    assert_eq!(agenda_text(None), "[]");
    assert_eq!(agenda_text(Some("[{\"a\":1}]".to_string())), "[{\"a\":1}]");
}
