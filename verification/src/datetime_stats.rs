use vstd::prelude::*;
use vstd::string::StringSliceAdditionalSpecFns;
use vstd::utf8::{encode_utf8, is_char_boundary, is_continuation_byte};

use crate::text::{append_signed_decimal, decimal, digit_char, push_char, signed_decimal};

verus! {

broadcast use vstd::utf8::group_utf8_lib;

// ---------------------------------------------------------------------------
// chrono, behind trusted items
// ---------------------------------------------------------------------------

/// The first second chrono's calendar holds: -262143-01-01T00:00:00 UTC.
pub const CHRONO_MIN_TIMESTAMP: i64 = -8_334_601_228_800;

/// The last second chrono's calendar holds: 262142-12-31T23:59:59 UTC.
pub const CHRONO_MAX_TIMESTAMP: i64 = 8_210_266_876_799;

/// Whether an instant, in seconds since the Unix epoch, lies in chrono's
/// calendar range (years -262143 to 262142).
pub open spec fn in_chrono_range(secs: int) -> bool {
    CHRONO_MIN_TIMESTAMP <= secs <= CHRONO_MAX_TIMESTAMP
}

/// Whether `chrono::DateTime::from_timestamp(secs, 0)` yields a date-time.
pub open spec fn chrono_timestamp_valid(secs: i64) -> bool {
    in_chrono_range(secs as int)
}

/// The text that chrono's `format(pattern)` gives for the instant `secs`
/// (seconds since the Unix epoch) seen at the UTC offset `offset` (seconds).
pub uninterp spec fn chrono_formatted(secs: i64, offset: i32, pattern: Seq<char>) -> Seq<char>;

/// An offset that `chrono::FixedOffset::east_opt` accepts.
pub open spec fn valid_offset(offset: int) -> bool {
    -86_400 < offset < 86_400
}

/// The strftime patterns this library formats with; each is made of
/// specifiers that chrono supports, so formatting never fails.
pub open spec fn supported_pattern(pattern: Seq<char>) -> bool {
    ||| pattern == "%H:%M:%S"@
    ||| pattern == "%A"@
    ||| pattern == "%b %d"@
    ||| pattern == "%z"@
    ||| pattern == "%I:%M %p"@
}

/// The absolute value of an integer.
pub open spec fn abs(x: int) -> int {
    if x < 0 {
        -x
    } else {
        x
    }
}

/// Two zero-padded decimal digits for a value below one hundred.
pub open spec fn two_digits(n: int) -> Seq<char> {
    seq![digit_char(n / 10), digit_char(n % 10)]
}

/// The offset rounded to whole minutes, as chrono rounds it for `%z`.
pub open spec fn offset_minutes(offset: int) -> int {
    (abs(offset) + 30) / 60
}

/// What chrono writes for `%z`: a sign, then hours and minutes, two digits
/// each, of the offset rounded to the nearest minute.
pub open spec fn offset_text(offset: int) -> Seq<char> {
    seq![if offset < 0 { '-' } else { '+' }] + two_digits(offset_minutes(offset) / 60) + two_digits(
        offset_minutes(offset) % 60,
    )
}

/// Whether chrono can represent the instant `secs`.
///
/// Calls `chrono::DateTime::from_timestamp(secs, 0)`. The contract claims
/// what its source shows: it yields a date-time exactly when the day of
/// `secs` lies between `NaiveDate::MIN` and `NaiveDate::MAX`, that is, when
/// `secs` is in `CHRONO_MIN_TIMESTAMP..=CHRONO_MAX_TIMESTAMP`.
#[verifier::external_body]
pub(crate) fn timestamp_representable(secs: i64) -> (ok: bool)
    ensures
        ok == chrono_timestamp_valid(secs),
{
    chrono::DateTime::from_timestamp(secs, 0).is_some()
}

/// The second of the local day: the instant moved by the offset, modulo a day.
pub open spec fn second_of_day(secs: int, offset: int) -> int {
    (secs + offset) % 86_400
}

/// The local hour (0 to 23).
pub open spec fn local_hour(secs: int, offset: int) -> int {
    second_of_day(secs, offset) / 3600
}

/// The local minute of the hour.
pub open spec fn local_minute(secs: int, offset: int) -> int {
    (second_of_day(secs, offset) % 3600) / 60
}

/// The local second of the minute.
pub open spec fn local_second(secs: int, offset: int) -> int {
    second_of_day(secs, offset) % 60
}

/// What chrono writes for `%H:%M:%S`: the local 24-hour time, two digits each.
pub open spec fn clock24_text(secs: int, offset: int) -> Seq<char> {
    two_digits(local_hour(secs, offset)) + seq![':'] + two_digits(local_minute(secs, offset))
        + seq![':'] + two_digits(local_second(secs, offset))
}

/// The hour on a 12-hour clock: 12 for noon and midnight.
pub open spec fn hour12(hour: int) -> int {
    if hour % 12 == 0 {
        12
    } else {
        hour % 12
    }
}

/// What chrono writes for `%I:%M %p`: the local 12-hour time, two digits each,
/// then `AM` or `PM`.
pub open spec fn clock12_text(secs: int, offset: int) -> Seq<char> {
    two_digits(hour12(local_hour(secs, offset))) + seq![':'] + two_digits(
        local_minute(secs, offset),
    ) + seq![' '] + if local_hour(secs, offset) >= 12 {
        seq!['P', 'M']
    } else {
        seq!['A', 'M']
    }
}

/// Formats the instant `secs` at the UTC offset `offset` with chrono.
///
/// Builds `chrono::DateTime::from_timestamp(secs, 0)`, moves it to
/// `chrono::FixedOffset::east_opt(offset)` and calls `format(pattern)`.
/// The contract claims that the text is the named result `chrono_formatted`,
/// and, for the numeric patterns, what chrono's writers visibly produce from
/// the local time (`secs + offset` modulo a day, with no fraction of a
/// second): for `%z` the sign and the zero-padded hours and minutes of the
/// offset rounded to the minute; for `%H:%M:%S` and `%I:%M %p` the
/// zero-padded fields, with `AM` before noon and `PM` after. The weekday and
/// month names are left to the name.
#[verifier::external_body]
pub(crate) fn format_local(secs: i64, offset: i32, pattern: &str) -> (text: String)
    requires
        chrono_timestamp_valid(secs),
        valid_offset(offset as int),
        supported_pattern(pattern@),
    ensures
        text@ == chrono_formatted(secs, offset, pattern@),
        pattern@ == "%z"@ ==> text@ == offset_text(offset as int),
        pattern@ == "%H:%M:%S"@ ==> text@ == clock24_text(secs as int, offset as int),
        pattern@ == "%I:%M %p"@ ==> text@ == clock12_text(secs as int, offset as int),
{
    let zone = chrono::FixedOffset::east_opt(offset).unwrap();
    let instant = chrono::DateTime::from_timestamp(secs, 0).unwrap();
    instant.with_timezone(&zone).format(pattern).to_string()
}

// ---------------------------------------------------------------------------
// A local date-time
// ---------------------------------------------------------------------------

/// An instant together with the UTC offset it is shown at.
pub struct LocalDateTime {
    timestamp: i64,
    offset_seconds: i32,
}

impl View for LocalDateTime {
    /// Seconds since the Unix epoch, and the offset from UTC in seconds.
    type V = (i64, i32);

    closed spec fn view(&self) -> (i64, i32) {
        (self.timestamp, self.offset_seconds)
    }
}

impl LocalDateTime {
    #[verifier::type_invariant]
    spec fn well_formed(self) -> bool {
        chrono_timestamp_valid(self.timestamp) && valid_offset(self.offset_seconds as int)
    }

    /// The instant `timestamp` seen at the offset `offset_seconds`, when chrono
    /// can represent both.
    pub fn new(timestamp: i64, offset_seconds: i32) -> (r: Option<LocalDateTime>)
        ensures
            r is Some <==> (chrono_timestamp_valid(timestamp) && valid_offset(
                offset_seconds as int,
            )),
            r matches Some(d) ==> d@ == (timestamp, offset_seconds),
    {
        if -86_400 < offset_seconds && offset_seconds < 86_400 && timestamp_representable(
            timestamp,
        ) {
            Some(LocalDateTime { timestamp, offset_seconds })
        } else {
            None
        }
    }

    /// Seconds since the Unix epoch.
    pub fn timestamp(&self) -> (t: i64)
        ensures
            t == self@.0,
    {
        self.timestamp
    }

    /// The offset from UTC, in seconds.
    pub fn offset_seconds(&self) -> (o: i32)
        ensures
            o == self@.1,
    {
        self.offset_seconds
    }
}

// ---------------------------------------------------------------------------
// The time zone label
// ---------------------------------------------------------------------------

/// An ASCII decimal digit.
pub open spec fn is_ascii_digit(b: u8) -> bool {
    48 <= b <= 57
}

/// What `str::parse::<i32>` gives for the two-byte text `x y`: an optional
/// sign followed by digits, and nothing else.
pub open spec fn parse_two_byte_int(x: u8, y: u8) -> Option<int> {
    if is_ascii_digit(x) && is_ascii_digit(y) {
        Some(10 * (x - 48) + (y - 48))
    } else if x == 43 && is_ascii_digit(y) {
        Some(y - 48)
    } else if x == 45 && is_ascii_digit(y) {
        Some(-(y - 48))
    } else {
        None
    }
}

/// When the label can be read from `bytes` without cutting a character:
/// the first byte and the two after it must be whole characters.
pub open spec fn timezone_label_defined(bytes: Seq<u8>) -> bool {
    bytes.len() >= 3 ==> is_char_boundary(bytes, 1) && is_char_boundary(bytes, 3)
}

/// The label for an offset written as `+HHMM`: `UTC`, the sign, and the hours
/// read from the two bytes after the sign (0 when they are not a number);
/// just `UTC` for a text shorter than three bytes.
pub open spec fn timezone_label_of(bytes: Seq<u8>) -> Seq<char> {
    if bytes.len() >= 3 {
        let hours = match parse_two_byte_int(bytes[1], bytes[2]) {
            Some(h) => h,
            None => 0,
        };
        seq!['U', 'T', 'C', if bytes[0] == 45 { '-' } else { '+' }] + signed_decimal(hours)
    } else {
        seq!['U', 'T', 'C']
    }
}

/// The label shown for a UTC offset in seconds: `UTC`, the sign, and the
/// whole hours of the offset rounded to the minute.
pub open spec fn utc_label(offset: int) -> Seq<char> {
    seq!['U', 'T', 'C', if offset < 0 { '-' } else { '+' }] + decimal(
        (offset_minutes(offset) / 60) as nat,
    )
}

fn parse_two_byte_int_exec(x: u8, y: u8) -> (r: Option<i64>)
    ensures
        r matches Some(v) ==> parse_two_byte_int(x, y) == Some(v as int),
        r is None ==> parse_two_byte_int(x, y) is None,
{
    let x_digit = 48 <= x && x <= 57;
    let y_digit = 48 <= y && y <= 57;
    if x_digit && y_digit {
        Some(10 * (x as i64 - 48) + (y as i64 - 48))
    } else if x == 43 && y_digit {
        Some(y as i64 - 48)
    } else if x == 45 && y_digit {
        Some(-(y as i64 - 48))
    } else {
        None
    }
}

/// Turns a `%z` offset such as `+0800` into a label such as `UTC+8`.
pub fn timezone_label(tz_offset: &str) -> (label: String)
    requires
        timezone_label_defined(tz_offset.spec_bytes()),
    ensures
        label@ == timezone_label_of(tz_offset.spec_bytes()),
{
    let bytes = tz_offset.as_bytes();
    let mut label = String::new();
    push_char(&mut label, 'U');
    push_char(&mut label, 'T');
    push_char(&mut label, 'C');
    if bytes.len() >= 3 {
        let hours: i64 = match parse_two_byte_int_exec(bytes[1], bytes[2]) {
            Some(h) => h,
            None => 0,
        };
        if bytes[0] == 45 {
            push_char(&mut label, '-');
        } else {
            push_char(&mut label, '+');
        }
        append_signed_decimal(&mut label, hours);
        assert(label@ =~= timezone_label_of(tz_offset.spec_bytes()));
    } else {
        assert(label@ =~= timezone_label_of(tz_offset.spec_bytes()));
    }
    label
}

/// The `%z` text of a valid offset is plain ASCII with a label the way the
/// dashboard shows it.
proof fn lemma_offset_text_label(offset: int)
    requires
        valid_offset(offset),
    ensures
        timezone_label_defined(encode_utf8(offset_text(offset))),
        timezone_label_of(encode_utf8(offset_text(offset))) == utc_label(offset),
{
    let chars = offset_text(offset);
    let m = offset_minutes(offset);
    let h = m / 60;
    assert(0 <= h <= 24);
    assert(chars[1] == digit_char(h / 10));
    assert(chars[2] == digit_char(h % 10));
    assert(vstd::utf8::is_ascii_chars(chars));
    let bytes = encode_utf8(chars);
    assert(bytes[0] == chars[0] as u8);
    assert(bytes[1] == chars[1] as u8);
    assert(bytes[3] == chars[3] as u8);
    assert(!is_continuation_byte(bytes[1]));
    assert(!is_continuation_byte(bytes[3]));
    assert(bytes[1] == 48 + h / 10);
    assert(bytes[2] == 48 + h % 10);
    assert((bytes[0] == 45) == (offset < 0));
}

// ---------------------------------------------------------------------------
// The clock panel
// ---------------------------------------------------------------------------

/// The texts shown on the clock panel.
pub struct DateTimeInfo {
    pub time: String,
    pub day: String,
    pub date: String,
    pub timezone: String,
}

/// The clock panel's texts for a local date-time: the time as `HH:MM:SS`,
/// the weekday name, the month and day, and the time zone as `UTC+H`.
pub fn get_datetime_info(now: &LocalDateTime) -> (info: DateTimeInfo)
    ensures
        info.time@ == chrono_formatted(now@.0, now@.1, "%H:%M:%S"@),
        info.time@ == clock24_text(now@.0 as int, now@.1 as int),
        info.time@.len() == 8,
        info.day@ == chrono_formatted(now@.0, now@.1, "%A"@),
        info.date@ == chrono_formatted(now@.0, now@.1, "%b %d"@),
        info.timezone@ == utc_label(now@.1 as int),
{
    proof {
        use_type_invariant(now);
    }
    let time = format_local(now.timestamp, now.offset_seconds, "%H:%M:%S");
    let day = format_local(now.timestamp, now.offset_seconds, "%A");
    let date = format_local(now.timestamp, now.offset_seconds, "%b %d");
    let offset = format_local(now.timestamp, now.offset_seconds, "%z");
    proof {
        lemma_offset_text_label(now.offset_seconds as int);
    }
    let timezone = timezone_label(offset.as_str());
    DateTimeInfo { time, day, date, timezone }
}

} // verus!
