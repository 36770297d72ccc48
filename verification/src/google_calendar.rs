use vstd::prelude::*;
use vstd::string::StringExecFns;
use vstd::utf8::encode_utf8;

use crate::datetime_stats::{chrono_timestamp_valid, clock12_text, format_local, valid_offset};
use crate::text::{contains_char, digit_char};

verus! {

broadcast use vstd::seq_lib::group_filter_ensures;

// ---------------------------------------------------------------------------
// Fields read from the calendar API's JSON
// ---------------------------------------------------------------------------

/// One field of a JSON object as the agenda reads it: absent, a string, or
/// some other JSON value.
pub enum JsonField {
    Missing,
    Text(String),
    Other,
}

/// The string a field holds, if it holds one.
pub open spec fn field_text(f: JsonField) -> Option<Seq<char>> {
    match f {
        JsonField::Text(s) => Some(s@),
        _ => None,
    }
}

/// The `start` or `end` member of an event: its `dateTime` and `date`
/// members (both `Missing` when the member is absent or not an object).
pub struct EventTimeFields {
    pub date_time: JsonField,
    pub date: JsonField,
}

/// The time text of an event boundary: `dateTime` when that member is present
/// at all, else `date`; the empty text when the chosen member is not a string.
pub open spec fn chosen_time_text(t: EventTimeFields) -> Seq<char> {
    let chosen = match t.date_time {
        JsonField::Missing => t.date,
        other => other,
    };
    match field_text(chosen) {
        Some(s) => s,
        None => seq![],
    }
}

/// An event item of the calendar API, as the agenda reads it.
pub struct RawEvent {
    pub summary: JsonField,
    pub start: EventTimeFields,
    pub end: EventTimeFields,
}

/// A calendar of the calendar list, as the agenda reads it.
pub struct RawCalendar {
    pub id: JsonField,
    pub background_color: JsonField,
}

fn field_text_or(f: &JsonField, default: &str) -> (s: String)
    ensures
        s@ == match field_text(*f) {
            Some(t) => t,
            None => default@,
        },
{
    match f {
        JsonField::Text(t) => t.clone(),
        _ => String::from_str(default),
    }
}

fn chosen_time(t: &EventTimeFields) -> (s: String)
    ensures
        s@ == chosen_time_text(*t),
{
    let chosen = match &t.date_time {
        JsonField::Missing => &t.date,
        other => other,
    };
    match chosen {
        JsonField::Text(s) => s.clone(),
        _ => String::new(),
    }
}

// ---------------------------------------------------------------------------
// Calendars
// ---------------------------------------------------------------------------

/// A calendar to fetch events from, and the colour its events are shown in.
pub struct CalendarSource {
    pub id: String,
    pub color: String,
}

/// The calendar id and colour of a calendar list entry: `primary` and
/// `#4285F4` stand in for an id or a colour that is not a string.
pub fn calendar_source(calendar: &RawCalendar) -> (source: CalendarSource)
    ensures
        source.id@ == match field_text(calendar.id) {
            Some(t) => t,
            None => "primary"@,
        },
        source.color@ == match field_text(calendar.background_color) {
            Some(t) => t,
            None => "#4285F4"@,
        },
{
    CalendarSource {
        id: field_text_or(&calendar.id, "primary"),
        color: field_text_or(&calendar.background_color, "#4285F4"),
    }
}

// ---------------------------------------------------------------------------
// URLs
// ---------------------------------------------------------------------------

/// A byte that percent-encoding leaves as it is: an ASCII letter or digit,
/// `-`, `.`, `_` or `~`.
pub open spec fn is_unreserved(b: u8) -> bool {
    ||| 48 <= b <= 57
    ||| 65 <= b <= 90
    ||| 97 <= b <= 122
    ||| b == 45
    ||| b == 46
    ||| b == 95
    ||| b == 126
}

/// An upper-case hexadecimal digit.
pub open spec fn hex_digit(n: int) -> char {
    if n < 10 {
        digit_char(n)
    } else if n == 10 {
        'A'
    } else if n == 11 {
        'B'
    } else if n == 12 {
        'C'
    } else if n == 13 {
        'D'
    } else if n == 14 {
        'E'
    } else {
        'F'
    }
}

/// Percent-encoding of a byte sequence: unreserved bytes stay, every other
/// byte becomes `%` and two upper-case hexadecimal digits.
pub open spec fn percent_encode_bytes(bytes: Seq<u8>) -> Seq<char>
    decreases bytes.len(),
{
    if bytes.len() == 0 {
        seq![]
    } else {
        let b = bytes[0];
        let head = if is_unreserved(b) {
            seq![b as char]
        } else {
            seq!['%', hex_digit((b / 16) as int), hex_digit((b % 16) as int)]
        };
        head + percent_encode_bytes(bytes.drop_first())
    }
}

/// Percent-encoding of the UTF-8 bytes of a text.
pub open spec fn percent_encoded(text: Seq<char>) -> Seq<char> {
    percent_encode_bytes(encode_utf8(text))
}

/// Percent-encodes a text for use in a URL.
///
/// Calls `urlencoding::encode`. The contract claims what its documentation
/// and source show: every byte of the UTF-8 encoding except ASCII letters,
/// digits and `-`, `_`, `.`, `~` becomes `%XX` with upper-case hex digits.
#[verifier::external_body]
fn url_encode(text: &str) -> (encoded: String)
    ensures
        encoded@ == percent_encoded(text@),
{
    urlencoding::encode(text).into_owned()
}

/// The text of `s` up to the first `stop` (all of it when there is none).
pub open spec fn take_until(s: Seq<char>, stop: char) -> Seq<char>
    decreases s.len(),
{
    if s.len() == 0 || s[0] == stop {
        Seq::<char>::empty()
    } else {
        seq![s[0]] + take_until(s.drop_first(), stop)
    }
}

/// The value of a hexadecimal digit of either case.
pub open spec fn hex_value(c: char) -> Option<int> {
    if '0' <= c <= '9' {
        Some(c as int - '0' as int)
    } else if 'A' <= c <= 'F' {
        Some(c as int - 'A' as int + 10)
    } else if 'a' <= c <= 'f' {
        Some(c as int - 'a' as int + 10)
    } else {
        None
    }
}

/// The bytes a percent-encoded text stands for: `%XX` is the byte with hex
/// value `XX`, any other ASCII character is its own byte; `None` for a lone
/// `%` or a non-ASCII character.
pub open spec fn percent_decode(s: Seq<char>) -> Option<Seq<u8>>
    decreases s.len(),
{
    if s.len() == 0 {
        Some(Seq::<u8>::empty())
    } else if s[0] == '%' {
        if s.len() >= 3 && hex_value(s[1]) is Some && hex_value(s[2]) is Some {
            match percent_decode(s.skip(3)) {
                Some(rest) => Some(
                    seq![(hex_value(s[1])->0 * 16 + hex_value(s[2])->0) as u8] + rest,
                ),
                None => None,
            }
        } else {
            None
        }
    } else if (s[0] as int) < 128 {
        match percent_decode(s.drop_first()) {
            Some(rest) => Some(seq![s[0] as u8] + rest),
            None => None,
        }
    } else {
        None
    }
}

/// An ASCII character that URLs carry as it is: a letter, a digit, `-`, `.`,
/// `_` or `~`.
pub open spec fn is_unreserved_char(c: char) -> bool {
    ||| '0' <= c <= '9'
    ||| 'A' <= c <= 'Z'
    ||| 'a' <= c <= 'z'
    ||| c == '-'
    ||| c == '.'
    ||| c == '_'
    ||| c == '~'
}

/// An upper-case hexadecimal digit.
pub open spec fn is_upper_hex(c: char) -> bool {
    ('0' <= c <= '9') || ('A' <= c <= 'F')
}

/// A text escaped the canonical way: only unreserved characters and `%XX`
/// escapes with upper-case digits, and no escape of an unreserved byte.
pub open spec fn canonically_escaped(s: Seq<char>) -> bool
    decreases s.len(),
{
    if s.len() == 0 {
        true
    } else if s[0] == '%' {
        &&& s.len() >= 3
        &&& is_upper_hex(s[1])
        &&& is_upper_hex(s[2])
        &&& !is_unreserved((hex_value(s[1])->0 * 16 + hex_value(s[2])->0) as u8)
        &&& canonically_escaped(s.skip(3))
    } else {
        is_unreserved_char(s[0]) && canonically_escaped(s.drop_first())
    }
}

proof fn lemma_hex_digit(n: int)
    requires
        0 <= n < 16,
    ensures
        is_upper_hex(hex_digit(n)),
        hex_value(hex_digit(n)) == Some(n),
{
}

/// Percent-encoding is canonical, decodes back to the bytes, and uses only
/// letters, digits, `-._~` and `%`.
proof fn lemma_percent_encode_bytes(bytes: Seq<u8>)
    ensures
        percent_decode(percent_encode_bytes(bytes)) == Some(bytes),
        canonically_escaped(percent_encode_bytes(bytes)),
        forall|i: int|
            0 <= i < percent_encode_bytes(bytes).len() ==> (is_unreserved_char(
                #[trigger] percent_encode_bytes(bytes)[i],
            ) || percent_encode_bytes(bytes)[i] == '%'),
    decreases bytes.len(),
{
    if bytes.len() > 0 {
        let b = bytes[0];
        let rest = percent_encode_bytes(bytes.drop_first());
        lemma_percent_encode_bytes(bytes.drop_first());
        let enc = percent_encode_bytes(bytes);
        if is_unreserved(b) {
            assert(enc =~= seq![b as char] + rest);
            assert(enc.drop_first() =~= rest);
            assert((b as char) as u8 == b);
            assert(is_unreserved_char(b as char));
            assert(seq![b] + bytes.drop_first() =~= bytes);
        } else {
            let hi = (b / 16) as int;
            let lo = (b % 16) as int;
            lemma_hex_digit(hi);
            lemma_hex_digit(lo);
            assert(enc =~= seq!['%', hex_digit(hi), hex_digit(lo)] + rest);
            assert(enc.skip(3) =~= rest);
            assert((hi * 16 + lo) as u8 == b);
            assert(seq![b] + bytes.drop_first() =~= bytes);
            assert(is_unreserved_char(hex_digit(hi)));
            assert(is_unreserved_char(hex_digit(lo)));
        }
        assert forall|i: int| 0 <= i < enc.len() implies (is_unreserved_char(#[trigger] enc[i])
            || enc[i] == '%') by {
            if is_unreserved(b) {
                if i > 0 {
                    assert(enc[i] == rest[i - 1]);
                }
            } else {
                if i >= 3 {
                    assert(enc[i] == rest[i - 3]);
                }
            }
        }
    }
}

proof fn lemma_take_until_prefix(x: Seq<char>, t: Seq<char>, stop: char)
    requires
        forall|i: int| 0 <= i < x.len() ==> is_unreserved_char(#[trigger] x[i]) || x[i] == '%',
        t.len() > 0,
        t[0] == stop,
        !is_unreserved_char(stop),
        stop != '%',
    ensures
        take_until(x + t, stop) == x,
    decreases x.len(),
{
    if x.len() == 0 {
        assert(x + t =~= t);
        assert(x =~= Seq::<char>::empty());
    } else {
        assert(x[0] != stop);
        assert((x + t).drop_first() =~= x.drop_first() + t);
        lemma_take_until_prefix(x.drop_first(), t, stop);
        assert(seq![x[0]] + x.drop_first() =~= x);
    }
}

/// The calendar API URL that lists one day of events of a calendar,
/// expanded into single events and ordered by start time.
pub open spec fn spec_events_url(
    calendar_id: Seq<char>,
    time_min: Seq<char>,
    time_max: Seq<char>,
) -> Seq<char> {
    "https://www.googleapis.com/calendar/v3/calendars/"@ + percent_encoded(calendar_id)
        + "/events?timeMin="@ + percent_encoded(time_min) + "&timeMax="@ + percent_encoded(
        time_max,
    ) + "&singleEvents=true&orderBy=startTime"@
}

/// How the events URL reads: after the fixed `.../calendars/` comes the
/// calendar id's segment, up to the next `/`, which decodes to exactly the
/// id's UTF-8 bytes and is escaped the canonical way (nothing but letters,
/// digits, `-._~` and `%XX`, so a `#`, `@` or `/` in the id cannot cut or
/// bend the URL); then `/events?timeMin=` and the start bound's value, up to
/// the next `&`, likewise; then `&timeMax=` and the end bound's value,
/// likewise; then `&singleEvents=true&orderBy=startTime`.
pub proof fn law_events_url_parts(calendar_id: Seq<char>, time_min: Seq<char>, time_max: Seq<char>)
    ensures
        ({
            let url = spec_events_url(calendar_id, time_min, time_max);
            let head = "https://www.googleapis.com/calendar/v3/calendars/"@;
            let after_head = url.skip(head.len() as int);
            let id_part = take_until(after_head, '/');
            let after_id = after_head.skip(id_part.len() as int);
            let min_label = "/events?timeMin="@;
            let min_part = take_until(after_id.skip(min_label.len() as int), '&');
            let after_min = after_id.skip((min_label.len() + min_part.len()) as int);
            let max_label = "&timeMax="@;
            let max_part = take_until(after_min.skip(max_label.len() as int), '&');
            let tail = after_min.skip((max_label.len() + max_part.len()) as int);
            &&& url.take(head.len() as int) == head
            &&& percent_decode(id_part) == Some(encode_utf8(calendar_id))
            &&& canonically_escaped(id_part)
            &&& after_id.take(min_label.len() as int) == min_label
            &&& percent_decode(min_part) == Some(encode_utf8(time_min))
            &&& canonically_escaped(min_part)
            &&& after_min.take(max_label.len() as int) == max_label
            &&& percent_decode(max_part) == Some(encode_utf8(time_max))
            &&& canonically_escaped(max_part)
            &&& tail == "&singleEvents=true&orderBy=startTime"@
        }),
{
    reveal_strlit("https://www.googleapis.com/calendar/v3/calendars/");
    reveal_strlit("/events?timeMin=");
    reveal_strlit("&timeMax=");
    reveal_strlit("&singleEvents=true&orderBy=startTime");
    let head = "https://www.googleapis.com/calendar/v3/calendars/"@;
    let min_label = "/events?timeMin="@;
    let max_label = "&timeMax="@;
    let end = "&singleEvents=true&orderBy=startTime"@;
    let a = percent_encoded(calendar_id);
    let b = percent_encoded(time_min);
    let c = percent_encoded(time_max);
    lemma_percent_encode_bytes(encode_utf8(calendar_id));
    lemma_percent_encode_bytes(encode_utf8(time_min));
    lemma_percent_encode_bytes(encode_utf8(time_max));
    let url = spec_events_url(calendar_id, time_min, time_max);
    assert(url =~= head + (a + (min_label + (b + (max_label + (c + end))))));
    let after_head = url.skip(head.len() as int);
    assert(url.take(head.len() as int) =~= head);
    assert(after_head =~= a + (min_label + (b + (max_label + (c + end)))));
    lemma_take_until_prefix(a, min_label + (b + (max_label + (c + end))), '/');
    let after_id = after_head.skip(a.len() as int);
    assert(after_id =~= min_label + (b + (max_label + (c + end))));
    assert(after_id.take(min_label.len() as int) =~= min_label);
    assert(after_id.skip(min_label.len() as int) =~= b + (max_label + (c + end)));
    lemma_take_until_prefix(b, max_label + (c + end), '&');
    let after_min = after_id.skip((min_label.len() + b.len()) as int);
    assert(after_min =~= max_label + (c + end));
    assert(after_min.take(max_label.len() as int) =~= max_label);
    assert(after_min.skip(max_label.len() as int) =~= c + end);
    lemma_take_until_prefix(c, end, '&');
    assert(after_min.skip((max_label.len() + c.len()) as int) =~= end);
}

/// The URL for the events of `calendar_id` between `time_min` and `time_max`.
pub fn calendar_events_url(calendar_id: &str, time_min: &str, time_max: &str) -> (url: String)
    ensures
        url@ == spec_events_url(calendar_id@, time_min@, time_max@),
{
    let mut url = String::from_str("https://www.googleapis.com/calendar/v3/calendars/");
    let id = url_encode(calendar_id);
    url.append(id.as_str());
    url.append("/events?timeMin=");
    let min = url_encode(time_min);
    url.append(min.as_str());
    url.append("&timeMax=");
    let max = url_encode(time_max);
    url.append(max.as_str());
    url.append("&singleEvents=true&orderBy=startTime");
    url
}

// ---------------------------------------------------------------------------
// Events
// ---------------------------------------------------------------------------

/// The instant and UTC offset that `chrono::DateTime::parse_from_rfc3339`
/// reads from a text, or `None` when it rejects the text.
pub uninterp spec fn rfc3339_instant(text: Seq<char>) -> Option<(i64, i32)>;

/// Parses an RFC 3339 date-time.
///
/// Calls `chrono::DateTime::parse_from_rfc3339` and keeps the timestamp and
/// the offset of what it returns. The contract claims that the result is the
/// named `rfc3339_instant`, and, of a parsed value, what holds of every
/// `DateTime<FixedOffset>`: its offset is one `FixedOffset` accepts and its
/// timestamp converts back with `DateTime::from_timestamp`.
#[verifier::external_body]
fn parse_rfc3339(text: &str) -> (r: Option<(i64, i32)>)
    ensures
        r == rfc3339_instant(text@),
        r matches Some((secs, offset)) ==> chrono_timestamp_valid(secs) && valid_offset(
            offset as int,
        ),
{
    match chrono::DateTime::parse_from_rfc3339(text) {
        Ok(parsed) => Some((parsed.timestamp(), parsed.offset().local_minus_utc())),
        Err(_) => None,
    }
}

/// Whether an agenda entry is an all-day task or a timed meeting.
#[derive(Clone, Copy, Debug, PartialEq, Eq, Structural)]
pub enum EventKind {
    Task,
    Meeting,
}

/// One entry of the agenda.
pub struct CalendarEvent {
    pub summary: String,
    pub start_time: String,
    pub end_time: String,
    pub color: String,
    pub kind: EventKind,
    /// Seconds since the Unix epoch of the start; 0 for an all-day entry.
    pub sort_key: i64,
}

/// The instant a timed start reads as; the Unix epoch at UTC when the text is
/// not RFC 3339.
pub open spec fn start_instant(start: Seq<char>) -> (i64, i32) {
    match rfc3339_instant(start) {
        Some(p) => p,
        None => (0, 0),
    }
}

/// The shown start: the 12-hour clock time (`%I:%M %p`) of a start that holds
/// a `T`, else `All Day`.
pub open spec fn spec_start_time(start: Seq<char>) -> Seq<char> {
    if start.contains('T') {
        clock12_text(start_instant(start).0 as int, start_instant(start).1 as int)
    } else {
        "All Day"@
    }
}

/// The sort key: the start's timestamp when it holds a `T`, else 0.
pub open spec fn spec_sort_key(start: Seq<char>) -> i64 {
    if start.contains('T') {
        start_instant(start).0
    } else {
        0
    }
}

/// The shown end: the 12-hour clock time of an end that holds a `T` (the end text
/// itself when it is not RFC 3339), else nothing.
pub open spec fn spec_end_time(end: Seq<char>) -> Seq<char> {
    if end.contains('T') {
        match rfc3339_instant(end) {
            Some((secs, offset)) => clock12_text(secs as int, offset as int),
            None => end,
        }
    } else {
        seq![]
    }
}

/// An entry whose shown start is `All Day` is a task; any other is a meeting.
pub open spec fn kind_of(start_time: Seq<char>) -> EventKind {
    if start_time == "All Day"@ {
        EventKind::Task
    } else {
        EventKind::Meeting
    }
}

/// The sort key of a timed entry is the instant its start names, in seconds
/// since the Unix epoch, whatever offset the start is written with: two
/// entries whose starts name the same instant get the same key.
pub proof fn law_sort_key_is_the_instant(
    first: CalendarEvent,
    first_raw: RawEvent,
    first_color: Seq<char>,
    second: CalendarEvent,
    second_raw: RawEvent,
    second_color: Seq<char>,
    secs: i64,
    first_offset: i32,
    second_offset: i32,
)
    requires
        entry_for(first, first_raw, first_color),
        entry_for(second, second_raw, second_color),
        chosen_time_text(first_raw.start).contains('T'),
        chosen_time_text(second_raw.start).contains('T'),
        rfc3339_instant(chosen_time_text(first_raw.start)) == Some((secs, first_offset)),
        rfc3339_instant(chosen_time_text(second_raw.start)) == Some((secs, second_offset)),
    ensures
        first.sort_key == secs,
        second.sort_key == secs,
        first.sort_key == second.sort_key,
{
}

/// Assembles an agenda entry; its kind follows from the shown start.
pub fn event_from_parts(
    summary: String,
    start_time: String,
    end_time: String,
    color: String,
    sort_key: i64,
) -> (event: CalendarEvent)
    ensures
        event.summary == summary,
        event.start_time == start_time,
        event.end_time == end_time,
        event.color == color,
        event.sort_key == sort_key,
        event.kind == kind_of(start_time@),
{
    let all_day = String::from_str("All Day");
    let kind = if start_time == all_day {
        EventKind::Task
    } else {
        EventKind::Meeting
    };
    CalendarEvent { summary, start_time, end_time, color, kind, sort_key }
}

/// `event` is the agenda entry for the event item `raw` of a calendar shown
/// in `color`: the summary (`No Title` when it is not a string), the shown
/// start and end, the colour, the kind and the sort key.
pub open spec fn entry_for(event: CalendarEvent, raw: RawEvent, color: Seq<char>) -> bool {
    &&& event.summary@ == match field_text(raw.summary) {
        Some(t) => t,
        None => "No Title"@,
    }
    &&& event.start_time@ == spec_start_time(chosen_time_text(raw.start))
    &&& event.sort_key == spec_sort_key(chosen_time_text(raw.start))
    &&& event.end_time@ == spec_end_time(chosen_time_text(raw.end))
    &&& event.color@ == color
    &&& event.kind == kind_of(event.start_time@)
    &&& event.kind == if chosen_time_text(raw.start).contains('T') {
        EventKind::Meeting
    } else {
        EventKind::Task
    }
}

/// A timed start never shows as `All Day`, so a timed entry is a meeting and
/// an all-day entry a task.
proof fn lemma_kind_of_start(start: Seq<char>)
    ensures
        kind_of(spec_start_time(start)) == if start.contains('T') {
            EventKind::Meeting
        } else {
            EventKind::Task
        },
{
    reveal_strlit("All Day");
    if start.contains('T') {
        assert(spec_start_time(start).len() == 8);
        assert("All Day"@.len() == 7);
    }
}

/// The agenda entry for an event item of a calendar shown in `color`.
pub fn build_event(raw: &RawEvent, color: &str) -> (event: CalendarEvent)
    ensures
        entry_for(event, *raw, color@),
        chosen_time_text(raw.start).contains('T') ==> event.sort_key == match rfc3339_instant(
            chosen_time_text(raw.start),
        ) {
            Some((secs, _)) => secs,
            None => 0,
        },
        !chosen_time_text(raw.start).contains('T') ==> event.sort_key == 0,
{
    let summary = field_text_or(&raw.summary, "No Title");
    let start = chosen_time(&raw.start);
    let end = chosen_time(&raw.end);
    let (start_time, sort_key) = if contains_char(start.as_str(), 'T') {
        let (secs, offset) = match parse_rfc3339(start.as_str()) {
            Some(p) => p,
            None => (0, 0),
        };
        (format_local(secs, offset, "%I:%M %p"), secs)
    } else {
        (String::from_str("All Day"), 0)
    };
    let end_time = if contains_char(end.as_str(), 'T') {
        match parse_rfc3339(end.as_str()) {
            Some((secs, offset)) => format_local(secs, offset, "%I:%M %p"),
            None => end.clone(),
        }
    } else {
        String::new()
    };
    proof {
        lemma_kind_of_start(start@);
    }
    event_from_parts(summary, start_time, end_time, String::from_str(color), sort_key)
}

// ---------------------------------------------------------------------------
// Ordering the agenda
// ---------------------------------------------------------------------------

/// The entries of `events` with sort key `key`, in their order.
pub open spec fn key_class(events: Seq<CalendarEvent>, key: i64) -> Seq<CalendarEvent> {
    events.filter(|e: CalendarEvent| e.sort_key == key)
}

/// The entries are in ascending order of sort key.
pub open spec fn sorted_by_key(events: Seq<CalendarEvent>) -> bool {
    forall|i: int, j: int|
        0 <= i <= j < events.len() ==> #[trigger] events[i].sort_key <= #[trigger] events[j].sort_key
}

proof fn lemma_key_class_single(e: CalendarEvent, key: i64)
    ensures
        key_class(seq![e], key) == (if e.sort_key == key {
            seq![e]
        } else {
            Seq::<CalendarEvent>::empty()
        }),
{
    reveal_with_fuel(Seq::filter, 2);
    assert(seq![e].drop_last() =~= Seq::<CalendarEvent>::empty());
}

proof fn lemma_key_class_none(events: Seq<CalendarEvent>, key: i64)
    requires
        forall|i: int| 0 <= i < events.len() ==> (#[trigger] events[i]).sort_key != key,
    ensures
        key_class(events, key) == Seq::<CalendarEvent>::empty(),
{
    let c = key_class(events, key);
    if c.len() > 0 {
        assert(c[0].sort_key == key);
        assert(events.contains(c[0])) by {
            events.lemma_filter_contains_rev(|e: CalendarEvent| e.sort_key == key, c[0]);
        }
        assert(false);
    }
    assert(c =~= Seq::<CalendarEvent>::empty());
}

proof fn lemma_key_class_drop_last(events: Seq<CalendarEvent>, key: i64)
    requires
        events.len() > 0,
    ensures
        key_class(events, key) == if events.last().sort_key == key {
            key_class(events.drop_last(), key).push(events.last())
        } else {
            key_class(events.drop_last(), key)
        },
{
    reveal_with_fuel(Seq::filter, 1);
}

proof fn lemma_key_class_occurs(events: Seq<CalendarEvent>, key: i64)
    ensures
        key_class(events, key).len() > 0 <==> exists|i: int|
            0 <= i < events.len() && (#[trigger] events[i]).sort_key == key,
{
    let pred = |e: CalendarEvent| e.sort_key == key;
    let c = key_class(events, key);
    if c.len() > 0 {
        assert(pred(c[0]));
        events.lemma_filter_contains_rev(pred, c[0]);
        let i = choose|i: int| 0 <= i < events.len() && events[i] == c[0];
        assert(events[i].sort_key == key);
    }
    if exists|i: int| 0 <= i < events.len() && (#[trigger] events[i]).sort_key == key {
        let i = choose|i: int| 0 <= i < events.len() && (#[trigger] events[i]).sort_key == key;
        events.lemma_filter_contains(pred, i);
    }
}

/// An agenda in order is fixed by its key classes: two orderings with the same
/// entries per sort key, each in ascending key order, are the same. So the
/// order `sort_events` produces is the only one its contract allows, and
/// sorting an agenda that is already in order changes nothing.
pub proof fn law_sorted_order_is_unique(a: Seq<CalendarEvent>, b: Seq<CalendarEvent>)
    requires
        sorted_by_key(a),
        sorted_by_key(b),
        forall|key: i64| key_class(a, key) == key_class(b, key),
    ensures
        a == b,
    decreases a.len(),
{
    if a.len() == 0 {
        if b.len() > 0 {
            lemma_key_class_occurs(b, b.last().sort_key);
            lemma_key_class_occurs(a, b.last().sort_key);
            assert(key_class(a, b.last().sort_key) == key_class(b, b.last().sort_key));
            assert(b[b.len() - 1].sort_key == b.last().sort_key);
        }
        assert(a =~= b);
    } else {
        let ma = a.last().sort_key;
        lemma_key_class_occurs(a, ma);
        lemma_key_class_occurs(b, ma);
        assert(a[a.len() - 1].sort_key == ma);
        assert(key_class(a, ma) == key_class(b, ma));
        assert(b.len() > 0);
        let mb = b.last().sort_key;
        lemma_key_class_occurs(a, mb);
        lemma_key_class_occurs(b, mb);
        assert(b[b.len() - 1].sort_key == mb);
        assert(key_class(a, mb) == key_class(b, mb));
        let i = choose|i: int| 0 <= i < a.len() && (#[trigger] a[i]).sort_key == mb;
        let j = choose|j: int| 0 <= j < b.len() && (#[trigger] b[j]).sort_key == ma;
        assert(a[i].sort_key <= a[a.len() - 1].sort_key);
        assert(b[j].sort_key <= b[b.len() - 1].sort_key);
        assert(ma == mb);
        lemma_key_class_drop_last(a, ma);
        lemma_key_class_drop_last(b, ma);
        assert(a.last() == key_class(a, ma).last());
        assert(b.last() == key_class(b, ma).last());
        assert(a.last() == b.last());
        assert forall|key: i64| key_class(a.drop_last(), key) == key_class(b.drop_last(), key) by {
            lemma_key_class_drop_last(a, key);
            lemma_key_class_drop_last(b, key);
            if key == ma {
                assert(key_class(a.drop_last(), key) =~= key_class(a, key).drop_last());
                assert(key_class(b.drop_last(), key) =~= key_class(b, key).drop_last());
            }
        }
        assert(sorted_by_key(a.drop_last()));
        assert(sorted_by_key(b.drop_last()));
        law_sorted_order_is_unique(a.drop_last(), b.drop_last());
        assert(a =~= a.drop_last().push(a.last()));
        assert(b =~= b.drop_last().push(b.last()));
    }
}

/// Sorts the agenda by sort key, keeping entries with equal keys in the order
/// they came in.
#[verifier::spinoff_prover]
#[verifier::rlimit(40)]
pub fn sort_events(events: &mut Vec<CalendarEvent>)
    ensures
        final(events)@.len() == old(events)@.len(),
        sorted_by_key(final(events)@),
        forall|key: i64| key_class(final(events)@, key) == key_class(old(events)@, key),
{
    let mut pending: Vec<CalendarEvent> = Vec::new();
    std::mem::swap(&mut pending, events);
    let ghost orig = pending@;
    let ghost mut done: int = 0;
    assert(orig.take(0) =~= Seq::<CalendarEvent>::empty());
    assert(orig.skip(0) =~= orig);
    while pending.len() > 0
        invariant
            0 <= done <= orig.len(),
            pending@ == orig.skip(done),
            events@.len() == done,
            sorted_by_key(events@),
            forall|key: i64| key_class(events@, key) == key_class(orig.take(done), key),
        decreases pending.len(),
    {
        let item = pending.remove(0);
        assert(item == orig[done]);
        let mut pos: usize = 0;
        while pos < events.len() && events[pos].sort_key <= item.sort_key
            invariant
                pos <= events@.len(),
                forall|i: int| 0 <= i < pos ==> (#[trigger] events@[i]).sort_key <= item.sort_key,
            decreases events@.len() - pos,
        {
            pos = pos + 1;
        }
        let ghost before = events@;
        assert forall|i: int| pos <= i < before.len() implies (#[trigger] before[i]).sort_key
            > item.sort_key by {
            assert(before[pos as int].sort_key > item.sort_key);
            assert(before[pos as int].sort_key <= before[i].sort_key);
        }
        let ghost item_ghost = item;
        events.insert(pos, item);
        proof {
            let left = before.take(pos as int);
            let right = before.skip(pos as int);
            assert(before =~= left + right);
            assert(events@ =~= left + seq![item_ghost] + right);
            assert(orig.take(done + 1) =~= orig.take(done) + seq![item_ghost]);
            assert forall|i: int, j: int| 0 <= i <= j < events@.len() implies #[trigger] events@[i].sort_key
                <= #[trigger] events@[j].sort_key by {
                if i < pos && j > pos {
                    assert(events@[j] == before[j - 1]);
                    assert(before[i].sort_key <= before[j - 1].sort_key);
                } else if j < pos {
                    assert(before[i].sort_key <= before[j].sort_key);
                } else if i > pos {
                    assert(before[i - 1].sort_key <= before[j - 1].sort_key);
                } else if i == pos && j > pos {
                    assert(events@[j] == before[j - 1]);
                } else if i < pos && j == pos {
                    assert(events@[i] == before[i]);
                }
            }
            assert forall|key: i64| key_class(events@, key) == key_class(orig.take(done + 1), key) by {
                lemma_key_class_single(item_ghost, key);
                assert(key_class(left + seq![item_ghost] + right, key) == key_class(
                    left + seq![item_ghost],
                    key,
                ) + key_class(right, key));
                assert(key_class(left + seq![item_ghost], key) == key_class(left, key)
                    + key_class(seq![item_ghost], key));
                assert(key_class(before, key) == key_class(left, key) + key_class(right, key));
                assert(key_class(orig.take(done) + seq![item_ghost], key) == key_class(
                    orig.take(done),
                    key,
                ) + key_class(seq![item_ghost], key));
                if item_ghost.sort_key == key {
                    assert forall|i: int| 0 <= i < right.len() implies (#[trigger] right[i]).sort_key
                        != key by {
                        assert(right[i] == before[pos + i]);
                    }
                    lemma_key_class_none(right, key);
                    assert(key_class(right, key) =~= Seq::<CalendarEvent>::empty());
                    assert(key_class(before, key) =~= key_class(left, key));
                    assert(key_class(events@, key) =~= key_class(left, key) + seq![item_ghost]);
                } else {
                    assert(key_class(events@, key) =~= key_class(left, key) + key_class(right, key));
                }
            }
            assert(pending@ =~= orig.skip(done + 1));
            done = done + 1;
        }
    }
    proof {
        assert(orig.take(done) =~= orig);
    }
}

// ---------------------------------------------------------------------------
// Assembling the agenda
// ---------------------------------------------------------------------------

/// The event items fetched from one calendar, and the colour of that calendar.
pub struct EventBatch {
    pub color: String,
    pub events: Vec<RawEvent>,
}

/// The event items of one batch, each with its calendar's colour.
pub open spec fn batch_items(batch: EventBatch) -> Seq<(RawEvent, Seq<char>)> {
    batch.events@.map_values(|r: RawEvent| (r, batch.color@))
}

/// All event items of the batches, calendar after calendar.
pub open spec fn all_items(batches: Seq<EventBatch>) -> Seq<(RawEvent, Seq<char>)>
    decreases batches.len(),
{
    if batches.len() == 0 {
        Seq::<(RawEvent, Seq<char>)>::empty()
    } else {
        all_items(batches.drop_last()) + batch_items(batches.last())
    }
}

/// `entries` are the agenda entries for `items`, one for one and in order.
pub open spec fn entries_for(entries: Seq<CalendarEvent>, items: Seq<(RawEvent, Seq<char>)>) -> bool {
    &&& entries.len() == items.len()
    &&& forall|i: int| 0 <= i < items.len() ==> entry_for(#[trigger] entries[i], items[i].0, items[i].1)
}

/// The agenda of the fetched calendars: an entry for every event item,
/// calendar after calendar, then ordered by sort key, entries with equal
/// keys keeping that order.
pub fn assemble_agenda(batches: &Vec<EventBatch>) -> (agenda: Vec<CalendarEvent>)
    ensures
        sorted_by_key(agenda@),
        exists|entries: Seq<CalendarEvent>|
            #![trigger entries_for(entries, all_items(batches@))]
            entries_for(entries, all_items(batches@)) && forall|key: i64|
                key_class(agenda@, key) == key_class(entries, key),
{
    let mut agenda: Vec<CalendarEvent> = Vec::new();
    let mut b: usize = 0;
    assert(batches@.take(0) =~= Seq::<EventBatch>::empty());
    while b < batches.len()
        invariant
            b <= batches@.len(),
            entries_for(agenda@, all_items(batches@.take(b as int))),
        decreases batches@.len() - b,
    {
        let batch = &batches[b];
        let ghost done = all_items(batches@.take(b as int));
        assert(batches@.take(b + 1).drop_last() =~= batches@.take(b as int));
        assert(batches@.take(b + 1).last() == *batch);
        let mut j: usize = 0;
        while j < batch.events.len()
            invariant
                batch == batches@[b as int],
                j <= batch.events@.len(),
                entries_for(agenda@, done + batch_items(*batch).take(j as int)),
            decreases batch.events@.len() - j,
        {
            let entry = build_event(&batch.events[j], batch.color.as_str());
            let ghost items = done + batch_items(*batch).take(j as int);
            let ghost before = agenda@;
            agenda.push(entry);
            assert(done + batch_items(*batch).take(j + 1) =~= items.push(
                (batch.events@[j as int], batch.color@),
            ));
            assert forall|i: int|
                0 <= i < agenda@.len() implies entry_for(
                #[trigger] agenda@[i],
                (items.push((batch.events@[j as int], batch.color@)))[i].0,
                (items.push((batch.events@[j as int], batch.color@)))[i].1,
            ) by {
                if i < before.len() {
                    assert(agenda@[i] == before[i]);
                }
            }
            j = j + 1;
        }
        assert(batch_items(*batch).take(batch.events@.len() as int) =~= batch_items(*batch));
        b = b + 1;
    }
    assert(batches@.take(batches@.len() as int) =~= batches@);
    let ghost entries = agenda@;
    sort_events(&mut agenda);
    assert(entries_for(entries, all_items(batches@)));
    agenda
}

} // verus!
