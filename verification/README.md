# mbar

The logic behind a small desktop dashboard (clock, system load, weather and
today's calendar), written in Verus and verified.

- `src/` is the library: `datetime_stats` (clock texts and the `UTC+H` label),
  `system_stats` (disk sums and the figures the system panel shows),
  `weather_stats` (WMO codes to conditions), `google_calendar` (agenda entries,
  event URLs, the stable ordering of the agenda), `calendar_sync` (when the
  agenda is fetched again, token expiry, the one retry after a refused token)
  and `login_redirect` (reading the sign-in redirect and checking its state).
  Date formatting and parsing go through chrono, URL encoding through
  urlencoding, behind the trusted items that each module documents.
- `app/` is the Qt program around it: the QObjects, HTTP, files and OAuth2.
- `tests/` runs the library on concrete values.
