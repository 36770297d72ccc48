//! Dashboard logic: date and time labels, system load summaries, weather
//! classification and the calendar agenda, with the rules that decide when
//! the calendar is fetched again and how a sign-in redirect is read.

pub mod calendar_sync;
pub mod datetime_stats;
pub mod google_calendar;
pub mod login_redirect;
pub mod system_stats;
pub mod text;
pub mod weather_stats;
