use mbar::google_calendar::{
    assemble_agenda, build_event, calendar_events_url, EventBatch, calendar_source, event_from_parts, sort_events,
    CalendarEvent, EventKind, EventTimeFields, JsonField, RawCalendar, RawEvent,
};

fn text(s: &str) -> JsonField {
    JsonField::Text(s.to_string())
}

fn timed(s: &str) -> EventTimeFields {
    EventTimeFields { date_time: text(s), date: JsonField::Missing }
}

fn all_day(s: &str) -> EventTimeFields {
    EventTimeFields { date_time: JsonField::Missing, date: text(s) }
}

fn absent() -> EventTimeFields {
    EventTimeFields { date_time: JsonField::Missing, date: JsonField::Missing }
}

fn entry(summary: &str, key: i64) -> CalendarEvent {
    event_from_parts(summary.to_string(), "x".to_string(), String::new(), "#000".to_string(), key)
}

#[test]
fn calendar_source_defaults() {
    let s = calendar_source(&RawCalendar { id: text("team@example.com"), background_color: text("#123456") });
    assert_eq!(s.id, "team@example.com");
    assert_eq!(s.color, "#123456");
    let s = calendar_source(&RawCalendar { id: JsonField::Missing, background_color: JsonField::Other });
    assert_eq!(s.id, "primary");
    assert_eq!(s.color, "#4285F4");
}

#[test]
fn events_url_is_percent_encoded() {
    let url = calendar_events_url(
        "team@example.com",
        "2026-05-12T00:00:00+08:00",
        "2026-05-12T23:59:59+08:00",
    );
    assert_eq!(
        url,
        "https://www.googleapis.com/calendar/v3/calendars/team%40example.com/events?timeMin=2026-05-12T00%3A00%3A00%2B08%3A00&timeMax=2026-05-12T23%3A59%3A59%2B08%3A00&singleEvents=true&orderBy=startTime"
    );
    let url = calendar_events_url("a b~é", "", "x");
    assert_eq!(
        url,
        "https://www.googleapis.com/calendar/v3/calendars/a%20b~%C3%A9/events?timeMin=&timeMax=x&singleEvents=true&orderBy=startTime"
    );
}

#[test]
fn timed_event_shows_clock_times() {
    let raw = RawEvent {
        summary: text("Standup"),
        start: timed("2026-05-11T10:00:00Z"),
        end: timed("2026-05-11T11:30:00+08:00"),
    };
    let e = build_event(&raw, "#abcdef");
    assert_eq!(e.summary, "Standup");
    assert_eq!(e.start_time, "10:00 AM");
    assert_eq!(e.end_time, "11:30 AM");
    assert_eq!(e.color, "#abcdef");
    assert_eq!(e.kind, EventKind::Meeting);
    assert_eq!(e.sort_key, 1_778_493_600);
}

#[test]
fn all_day_event_is_a_task() {
    let raw = RawEvent { summary: JsonField::Missing, start: all_day("2026-05-11"), end: all_day("2026-05-12") };
    let e = build_event(&raw, "#4285F4");
    assert_eq!(e.summary, "No Title");
    assert_eq!(e.start_time, "All Day");
    assert_eq!(e.end_time, "");
    assert_eq!(e.kind, EventKind::Task);
    assert_eq!(e.sort_key, 0);
}

#[test]
fn unreadable_times_fall_back() {
    // a start with a `T` that is not RFC 3339 reads as the epoch at UTC
    let raw = RawEvent { summary: text("Odd"), start: timed("Tomorrow"), end: timed("Tonight") };
    let e = build_event(&raw, "c");
    assert_eq!(e.start_time, "12:00 AM");
    assert_eq!(e.sort_key, 0);
    assert_eq!(e.kind, EventKind::Meeting);
    assert_eq!(e.end_time, "Tonight");
}

#[test]
fn date_time_member_wins_even_when_not_a_string() {
    let start = EventTimeFields { date_time: JsonField::Other, date: text("2026-05-11T09:00:00Z") };
    let raw = RawEvent { summary: JsonField::Other, start, end: absent() };
    let e = build_event(&raw, "c");
    assert_eq!(e.summary, "No Title");
    assert_eq!(e.start_time, "All Day");
    assert_eq!(e.kind, EventKind::Task);
    assert_eq!(e.end_time, "");
}

#[test]
fn kind_follows_the_shown_start() {
    let e = event_from_parts("a".to_string(), "All Day".to_string(), String::new(), String::new(), 5);
    assert_eq!(e.kind, EventKind::Task);
    let e = event_from_parts("a".to_string(), "09:00 AM".to_string(), String::new(), String::new(), 5);
    assert_eq!(e.kind, EventKind::Meeting);
}

#[test]
fn sorting_is_stable() {
    let mut events = vec![
        entry("c1", 30),
        entry("a1", 0),
        entry("b1", 20),
        entry("a2", 0),
        entry("c2", 30),
        entry("b2", 20),
        entry("z", -5),
    ];
    sort_events(&mut events);
    let order: Vec<&str> = events.iter().map(|e| e.summary.as_str()).collect();
    assert_eq!(order, vec!["z", "a1", "a2", "b1", "b2", "c1", "c2"]);
    let mut empty: Vec<CalendarEvent> = vec![];
    sort_events(&mut empty);
    assert!(empty.is_empty());
}

#[test]
fn sorting_an_ordered_agenda_changes_nothing() {
    let mut events = vec![entry("a", -3), entry("b", 0), entry("c", 0), entry("d", 7)];
    sort_events(&mut events);
    let first: Vec<String> = events.iter().map(|e| e.summary.clone()).collect();
    sort_events(&mut events);
    let second: Vec<String> = events.iter().map(|e| e.summary.clone()).collect();
    assert_eq!(first, vec!["a", "b", "c", "d"]);
    assert_eq!(first, second);
}

#[test]
fn agenda_is_built_per_calendar_then_ordered() {
    let work = EventBatch {
        color: "#111".to_string(),
        events: vec![
            RawEvent { summary: text("Review"), start: timed("2026-05-11T15:00:00Z"), end: absent() },
            RawEvent { summary: text("Holiday"), start: all_day("2026-05-11"), end: absent() },
        ],
    };
    let home = EventBatch {
        color: "#222".to_string(),
        events: vec![
            RawEvent { summary: text("Gym"), start: timed("2026-05-11T07:00:00Z"), end: absent() },
            RawEvent { summary: text("Birthday"), start: all_day("2026-05-11"), end: absent() },
        ],
    };
    let empty = EventBatch { color: "#333".to_string(), events: vec![] };
    let agenda = assemble_agenda(&vec![work, empty, home]);
    let order: Vec<(&str, &str, EventKind)> =
        agenda.iter().map(|e| (e.summary.as_str(), e.color.as_str(), e.kind)).collect();
    assert_eq!(
        order,
        vec![
            ("Holiday", "#111", EventKind::Task),
            ("Birthday", "#222", EventKind::Task),
            ("Gym", "#222", EventKind::Meeting),
            ("Review", "#111", EventKind::Meeting),
        ]
    );
    assert!(assemble_agenda(&vec![]).is_empty());
}

#[test]
fn twelve_hour_clock_edges() {
    let start_of = |start: &str| build_event(&RawEvent { summary: text("x"), start: timed(start), end: absent() }, "c");
    assert_eq!(start_of("2026-05-11T00:00:00Z").start_time, "12:00 AM");
    assert_eq!(start_of("2026-05-11T12:00:00Z").start_time, "12:00 PM");
    assert_eq!(start_of("2026-05-11T13:05:59Z").start_time, "01:05 PM");
    assert_eq!(start_of("2026-05-11T11:59:00Z").start_time, "11:59 AM");
    assert_eq!(start_of("2026-05-11T23:30:00-02:00").start_time, "11:30 PM");
}
