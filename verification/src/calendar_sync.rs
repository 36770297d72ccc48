use vstd::prelude::*;
use vstd::string::StringExecFns;

use crate::datetime_stats::{chrono_timestamp_valid, in_chrono_range, timestamp_representable};

verus! {

// ---------------------------------------------------------------------------
// When the agenda is fetched again
// ---------------------------------------------------------------------------

/// How long a fetched agenda is kept before it is fetched again: 30 minutes,
/// in nanoseconds.
pub const CACHE_DURATION_NANOS: u64 = 1_800_000_000_000;

/// Time between two readings of the monotonic clock; zero when the later
/// reading is not after the earlier one.
pub open spec fn elapsed_nanos(now: u64, earlier: u64) -> int {
    if now >= earlier {
        now - earlier
    } else {
        0
    }
}

/// A fetch starts only when none is running and the last one started at
/// least the cache duration ago (or never).
pub open spec fn refresh_due(is_loading: bool, last_update: Option<u64>, now: u64) -> bool {
    &&& !is_loading
    &&& match last_update {
        Some(last) => elapsed_nanos(now, last) >= CACHE_DURATION_NANOS,
        None => true,
    }
}

/// The agenda panel's state. Instants are readings of a monotonic clock in
/// nanoseconds.
pub struct CalendarBackendState {
    /// The agenda, as the JSON text handed to the view.
    pub events_json: String,
    pub is_loading: bool,
    pub last_update: Option<u64>,
}

impl Default for CalendarBackendState {
    /// An empty agenda, no fetch running, none done yet.
    fn default() -> (state: Self)
        ensures
            state.events_json@ == "[]"@,
            !state.is_loading,
            state.last_update is None,
    {
        CalendarBackendState {
            events_json: String::from_str("[]"),
            is_loading: false,
            last_update: None,
        }
    }
}

impl CalendarBackendState {
    /// Starts a fetch at `now` when one is due: marks the panel as loading and
    /// records the start. Returns whether the fetch starts; when it does not,
    /// nothing changes.
    pub fn begin_update(&mut self, now: u64) -> (started: bool)
        ensures
            started == refresh_due(old(self).is_loading, old(self).last_update, now),
            started ==> final(self).is_loading && final(self).last_update == Some(now)
                && final(self).events_json == old(self).events_json,
            !started ==> *final(self) == *old(self),
    {
        if self.is_loading {
            return false;
        }
        match self.last_update {
            Some(last) => {
                let elapsed: u64 = if now >= last {
                    now - last
                } else {
                    0
                };
                if elapsed < CACHE_DURATION_NANOS {
                    return false;
                }
            },
            None => {},
        }
        self.is_loading = true;
        self.last_update = Some(now);
        true
    }

    /// Ends a fetch: shows its agenda and clears the loading mark.
    pub fn finish_update(&mut self, events_json: String)
        ensures
            final(self).events_json == events_json,
            !final(self).is_loading,
            final(self).last_update == old(self).last_update,
    {
        self.events_json = events_json;
        self.is_loading = false;
    }
}

/// While a fetch runs, no other fetch starts, whatever the time.
pub proof fn law_no_overlapping_fetches(last_update: Option<u64>, now: u64)
    ensures
        !refresh_due(true, last_update, now),
{
}

/// After a fetch started at `start`, the next one starts exactly when the
/// cache duration has passed since `start`.
pub proof fn law_fetches_are_throttled(start: u64, now: u64)
    ensures
        refresh_due(false, Some(start), now) <==> now >= start + CACHE_DURATION_NANOS,
{
}

// ---------------------------------------------------------------------------
// Access token expiry
// ---------------------------------------------------------------------------

/// An instant on the UTC clock, as chrono holds it (leap seconds excluded).
pub struct UtcInstant {
    secs: i64,
    nanos: u32,
}

impl View for UtcInstant {
    /// Seconds since the Unix epoch and the nanoseconds within that second.
    type V = (i64, u32);

    closed spec fn view(&self) -> (i64, u32) {
        (self.secs, self.nanos)
    }
}

impl UtcInstant {
    #[verifier::type_invariant]
    spec fn well_formed(self) -> bool {
        chrono_timestamp_valid(self.secs) && self.nanos < 1_000_000_000
    }

    /// The instant `secs` seconds and `nanos` nanoseconds after the epoch,
    /// when chrono can represent it and it is not within a leap second.
    pub fn new(secs: i64, nanos: u32) -> (r: Option<UtcInstant>)
        ensures
            r is Some <==> (chrono_timestamp_valid(secs) && nanos < 1_000_000_000),
            r matches Some(t) ==> t@ == (secs, nanos),
    {
        if nanos < 1_000_000_000 && timestamp_representable(secs) {
            Some(UtcInstant { secs, nanos })
        } else {
            None
        }
    }

    /// Seconds since the Unix epoch.
    pub fn secs(&self) -> (s: i64)
        ensures
            s == self@.0,
    {
        self.secs
    }

    /// Nanoseconds within the second.
    pub fn nanos(&self) -> (n: u32)
        ensures
            n == self@.1,
    {
        self.nanos
    }
}

/// The largest whole number of seconds that chrono's `TimeDelta` holds
/// (`i64::MAX` milliseconds).
pub const MAX_DELTA_SECS: u64 = 9_223_372_036_854_775;

/// How long a token lives, in seconds: a lifetime too long for chrono's
/// `TimeDelta` counts as zero.
pub open spec fn lifetime_secs(expires_in: u64) -> int {
    if expires_in <= MAX_DELTA_SECS {
        expires_in as int
    } else {
        0
    }
}

/// A token expires a minute before its lifetime is over: it counts as expired
/// when `now` plus sixty seconds is past the instant it was received plus its
/// lifetime. A token without a lifetime never expires.
pub open spec fn token_expired(expires_in: Option<u64>, received: (i64, u32), now: (i64, u32)) -> bool {
    match expires_in {
        None => false,
        Some(e) => {
            let expiry = received.0 + lifetime_secs(e);
            ||| now.0 + 60 > expiry
            ||| (now.0 + 60 == expiry && now.1 > received.1)
        },
    }
}

/// `later` is the same instant as `earlier` or comes after it.
pub open spec fn not_before(later: (i64, u32), earlier: (i64, u32)) -> bool {
    later.0 > earlier.0 || (later.0 == earlier.0 && later.1 >= earlier.1)
}

/// Expiry is for good: a token that counts as expired at `now` counts as
/// expired at every later instant, with the same lifetime and receipt.
pub proof fn law_expiry_is_monotone(
    expires_in: Option<u64>,
    received: (i64, u32),
    now: (i64, u32),
    later: (i64, u32),
)
    requires
        token_expired(expires_in, received, now),
        not_before(later, now),
    ensures
        token_expired(expires_in, received, later),
{
}

/// A token is expired once the minute before the end of its lifetime has
/// begun: at any instant more than a minute past receipt plus lifetime (in
/// whole seconds) it counts as expired, and at receipt a token that lives
/// longer than a minute does not.
pub proof fn law_expiry_threshold(expires_in: u64, received: (i64, u32), now: (i64, u32))
    ensures
        now.0 + 60 > received.0 + lifetime_secs(expires_in) ==> token_expired(
            Some(expires_in),
            received,
            now,
        ),
        now.0 + 60 < received.0 + lifetime_secs(expires_in) ==> !token_expired(
            Some(expires_in),
            received,
            now,
        ),
        lifetime_secs(expires_in) > 60 ==> !token_expired(Some(expires_in), received, received),
        expires_in <= MAX_DELTA_SECS ==> lifetime_secs(expires_in) == expires_in,
{
}

/// The instants the expiry check computes are ones chrono can represent (it
/// panics on the others).
pub open spec fn expiry_check_defined(
    expires_in: Option<u64>,
    received: (i64, u32),
    now: (i64, u32),
) -> bool {
    expires_in matches Some(e) ==> {
        &&& in_chrono_range(received.0 + lifetime_secs(e))
        &&& in_chrono_range(now.0 + 60)
    }
}

/// Whether a token received at `received_at` with lifetime `expires_in`
/// (seconds) counts as expired at `now`.
pub fn is_expired(expires_in: Option<u64>, received_at: &UtcInstant, now: &UtcInstant) -> (expired:
    bool)
    requires
        expiry_check_defined(expires_in, received_at@, now@),
    ensures
        expired == token_expired(expires_in, received_at@, now@),
{
    match expires_in {
        None => false,
        Some(e) => {
            let lifetime: i64 = if e <= MAX_DELTA_SECS {
                e as i64
            } else {
                0
            };
            let expiry = received_at.secs + lifetime;
            let soon = now.secs + 60;
            soon > expiry || (soon == expiry && now.nanos > received_at.nanos)
        },
    }
}

/// The expiry check, or `None` on the instants where computing it would
/// overflow chrono's range.
pub fn expiry_status(expires_in: Option<u64>, received_at: &UtcInstant, now: &UtcInstant) -> (r:
    Option<bool>)
    ensures
        r is Some <==> expiry_check_defined(expires_in, received_at@, now@),
        r matches Some(expired) ==> expired == token_expired(expires_in, received_at@, now@),
{
    match expires_in {
        None => Some(false),
        Some(e) => {
            let lifetime: i64 = if e <= MAX_DELTA_SECS {
                e as i64
            } else {
                0
            };
            if received_at.secs > i64::MAX - lifetime || now.secs > i64::MAX - 60 {
                return None;
            }
            if timestamp_representable(received_at.secs + lifetime) && timestamp_representable(
                now.secs + 60,
            ) {
                Some(is_expired(expires_in, received_at, now))
            } else {
                None
            }
        },
    }
}

/// How long before `now` a token stored in the old format, without its time
/// of receipt, is taken to have been received: two hours, in seconds.
pub const LEGACY_TOKEN_AGE_SECS: i64 = 7200;

/// The time of receipt assumed for a token stored in the old format: two
/// hours before `now`, so that it counts as old; `None` where that instant
/// lies before chrono's range (where the subtraction would panic).
pub fn legacy_received_at(now: &UtcInstant) -> (r: Option<UtcInstant>)
    ensures
        r is Some <==> in_chrono_range(now@.0 - LEGACY_TOKEN_AGE_SECS),
        r matches Some(t) ==> t@ == ((now@.0 - LEGACY_TOKEN_AGE_SECS) as i64, now@.1),
{
    proof {
        use_type_invariant(now);
    }
    let secs = now.secs - LEGACY_TOKEN_AGE_SECS;
    UtcInstant::new(secs, now.nanos)
}

// ---------------------------------------------------------------------------
// Retrying a request after a refresh
// ---------------------------------------------------------------------------

/// How a request to the calendar API ended.
#[derive(Clone, Copy, Debug, PartialEq, Eq, Structural)]
pub enum HttpOutcome {
    Success,
    /// The server answered 401: the access token was refused.
    Unauthorized,
    Failed,
}

/// What to do with a request's outcome.
#[derive(Clone, Copy, Debug, PartialEq, Eq, Structural)]
pub enum FetchStep {
    UseResponse,
    /// Refresh the access token and send the request once more.
    RefreshAndRetry,
    GiveUp,
}

/// A refused token is refreshed and the request sent again, once; the
/// outcome of the second attempt is final.
pub open spec fn spec_fetch_step(outcome: HttpOutcome, retried: bool) -> FetchStep {
    match outcome {
        HttpOutcome::Success => FetchStep::UseResponse,
        HttpOutcome::Unauthorized => if retried {
            FetchStep::GiveUp
        } else {
            FetchStep::RefreshAndRetry
        },
        HttpOutcome::Failed => FetchStep::GiveUp,
    }
}

/// The step after a request; `retried` tells whether it was the repeated one.
pub fn fetch_step(outcome: HttpOutcome, retried: bool) -> (step: FetchStep)
    ensures
        step == spec_fetch_step(outcome, retried),
        retried ==> step != FetchStep::RefreshAndRetry,
{
    match outcome {
        HttpOutcome::Success => FetchStep::UseResponse,
        HttpOutcome::Unauthorized => if retried {
            FetchStep::GiveUp
        } else {
            FetchStep::RefreshAndRetry
        },
        HttpOutcome::Failed => FetchStep::GiveUp,
    }
}

// ---------------------------------------------------------------------------
// Fetching the calendars
// ---------------------------------------------------------------------------

/// How fetching one calendar's events ended.
#[derive(Clone, Copy, Debug, PartialEq, Eq, Structural)]
pub enum CalendarResponse {
    /// The events arrived and were read.
    Read,
    /// The request failed, also after a refresh (a calendar the account may
    /// not read, for instance).
    RequestFailed,
    /// The response arrived but its body is not JSON.
    BodyUnreadable,
}

/// What the agenda does with one calendar.
#[derive(Clone, Copy, Debug, PartialEq, Eq, Structural)]
pub enum CalendarStep {
    /// Take its events into the agenda.
    Include,
    /// Leave it out and go on with the next calendar.
    Skip,
    /// Give up on the whole agenda.
    Abort,
}

/// A calendar whose request fails is left out; a body that cannot be read
/// ends the whole fetch.
pub open spec fn spec_calendar_step(response: CalendarResponse) -> CalendarStep {
    match response {
        CalendarResponse::Read => CalendarStep::Include,
        CalendarResponse::RequestFailed => CalendarStep::Skip,
        CalendarResponse::BodyUnreadable => CalendarStep::Abort,
    }
}

/// The step for one calendar's response.
pub fn calendar_step(response: CalendarResponse) -> (step: CalendarStep)
    ensures
        step == spec_calendar_step(response),
{
    match response {
        CalendarResponse::Read => CalendarStep::Include,
        CalendarResponse::RequestFailed => CalendarStep::Skip,
        CalendarResponse::BodyUnreadable => CalendarStep::Abort,
    }
}

/// The agenda text to show after a fetch: the fetched agenda, or an empty
/// list (`[]`) when the fetch failed.
pub fn agenda_text(fetched: Option<String>) -> (text: String)
    ensures
        text@ == match fetched {
            Some(json) => json@,
            None => "[]"@,
        },
{
    match fetched {
        Some(json) => json,
        None => String::from_str("[]"),
    }
}

} // verus!
