//! Points in time as the store and the wire write them.

use chrono::{DateTime, NaiveDateTime, Utc};
use vstd::prelude::*;

verus! {

/// The form of every stored timestamp: UTC, to the second.
pub const ISO_SECONDS: &'static str = "%Y-%m-%dT%H:%M:%SZ";

/// The point in time that `text` names in the form `format`, in seconds and
/// nanoseconds since the epoch.
pub uninterp spec fn instant_of(text: Seq<char>, format: Seq<char>) -> Option<(i64, u32)>;

/// The text of a point in time, in milliseconds since the epoch, in the form
/// `format`.
pub uninterp spec fn text_of_millis(ms: int, format: Seq<char>) -> Option<Seq<char>>;

/// `chrono::NaiveDateTime::parse_from_str`, read as UTC: the point in time is
/// fixed by the text and the form.
#[verifier::external_body]
fn parse_instant(text: &str, format: &str) -> (instant: Option<(i64, u32)>)
    ensures
        instant == instant_of(text@, format@),
{
    let dt = NaiveDateTime::parse_from_str(text, format).ok()?.and_utc();
    Some((dt.timestamp(), dt.timestamp_subsec_nanos()))
}

/// The last second that the calendar of `chrono` holds.
pub const LAST_SECOND: i64 = 8_210_266_876_799;

/// The first second of the year 0.
pub const YEAR_ZERO: i64 = -62_167_219_200;

/// The first second of the year 10000, from which on a year takes more than
/// four digits.
pub const FIVE_DIGIT_YEARS: i64 = 253_402_300_800;

/// `chrono::DateTime::format`, of a point in time that
/// `DateTime::from_timestamp_millis` can hold: the text is fixed by both.
/// Every point in time from the year 0 to the calendar's last second has one,
/// and from the epoch up to the year 9999 `NaiveDateTime::parse_from_str`
/// reads its second back.
#[verifier::external_body]
fn format_millis(ms: i64, format: &str) -> (text: Option<String>)
    requires
        format@ == ISO_SECONDS@,
    ensures
        match text {
            Some(t) => text_of_millis(ms as int, format@) == Some(t@),
            None => text_of_millis(ms as int, format@) is None,
        },
        (YEAR_ZERO * 1000 <= ms <= LAST_SECOND * 1000) ==> text is Some,
        (0 <= ms <= FIVE_DIGIT_YEARS * 1000 - 1) ==> text is Some && instant_of(
            text->Some_0@,
            format@,
        ) == Some(((ms / 1000) as i64, 0u32)),
{
    Some(DateTime::<Utc>::from_timestamp_millis(ms)?.format(format).to_string())
}

/// Whether a point in time, in seconds and nanoseconds since the epoch, is one
/// that the clock can show: from the epoch to the end of the calendar.
pub open spec fn can_be_now(now: (i64, u32)) -> bool {
    0 <= now.0 <= LAST_SECOND && now.1 < 1_000_000_000
}

/// Whether milliseconds since the epoch are those of a point in time that the
/// clock can show.
pub open spec fn ms_can_be_now(ms: u64) -> bool {
    ms <= LAST_SECOND * 1000 + 999
}

/// `chrono::Utc::now`, in seconds and nanoseconds since the epoch: a point in
/// time that the calendar holds, not before the epoch, and with less than a
/// second of nanoseconds, for they come from the system's time and not from a
/// leap second. The call does not return where the system's clock stands
/// outside of that range.
#[verifier::external_body]
pub(crate) fn utc_now() -> (now: (i64, u32))
    ensures
        can_be_now(now),
{
    let now = Utc::now();
    (now.timestamp(), now.timestamp_subsec_nanos())
}

/// The milliseconds of a point in time.
pub open spec fn millis_of(instant: (i64, u32)) -> int {
    instant.0 * 1000 + instant.1 / 1_000_000
}

/// The Unix milliseconds of a stored timestamp, where it has its form and is
/// not before the epoch.
pub open spec fn unix_ms_of(text: Seq<char>) -> Option<u64> {
    match instant_of(text, ISO_SECONDS@) {
        Some(instant) => if 0 <= millis_of(instant) <= u64::MAX {
            Some(millis_of(instant) as u64)
        } else {
            None
        },
        None => None,
    }
}

/// The Unix milliseconds of a point in time, if it is not before the epoch.
pub fn unix_ms_of_instant(instant: (i64, u32)) -> (ms: Option<u64>)
    ensures
        ms == (if 0 <= millis_of(instant) <= u64::MAX {
            Some(millis_of(instant) as u64)
        } else {
            None
        }),
{
    let ms: i128 = instant.0 as i128 * 1000 + (instant.1 / 1_000_000) as i128;
    if 0 <= ms && ms <= u64::MAX as i128 {
        Some(ms as u64)
    } else {
        None
    }
}

/// The Unix milliseconds of a stored timestamp, where it has its form and is
/// not before the epoch.
pub fn iso8601_to_unix_ms(s: &str) -> (ms: Option<u64>)
    ensures
        ms == unix_ms_of(s@),
{
    match parse_instant(s, ISO_SECONDS) {
        Some(instant) => unix_ms_of_instant(instant),
        None => None,
    }
}

/// Whether one point in time lies before another.
pub open spec fn is_before(a: (i64, u32), b: (i64, u32)) -> bool {
    a.0 < b.0 || (a.0 == b.0 && a.1 < b.1)
}

/// The point in time of a stored timestamp.
pub fn iso_instant(s: &str) -> (instant: Option<(i64, u32)>)
    ensures
        instant == instant_of(s@, ISO_SECONDS@),
{
    parse_instant(s, ISO_SECONDS)
}

/// The stored form of a point in time.
pub fn iso_of_millis(ms: i64) -> (text: Option<String>)
    ensures
        match text {
            Some(t) => text_of_millis(ms as int, ISO_SECONDS@) == Some(t@),
            None => text_of_millis(ms as int, ISO_SECONDS@) is None,
        },
{
    format_millis(ms, ISO_SECONDS)
}

/// The stored form of a second.
pub fn iso_of_second(secs: i64) -> (text: String)
    requires
        YEAR_ZERO <= secs <= LAST_SECOND,
    ensures
        text_of_millis(secs * 1000, ISO_SECONDS@) == Some(text@),
        0 <= secs < FIVE_DIGIT_YEARS ==> instant_of(text@, ISO_SECONDS@) == Some((secs, 0u32)),
{
    match format_millis(secs * 1000, ISO_SECONDS) {
        Some(t) => t,
        None => {
            assert(false);
            String::new()
        },
    }
}

/// A point in time to the second: the milliseconds that are signed, and the
/// text that is stored.
#[derive(Debug)]
pub struct Stamp {
    pub ms: u64,
    pub text: String,
}

/// The stamp of a second. Up to the year 9999 the stored text gives the
/// signed milliseconds back.
pub fn stamp(secs: i64) -> (stamp: Stamp)
    requires
        0 <= secs <= LAST_SECOND,
    ensures
        stamp.ms == secs * 1000,
        text_of_millis(secs * 1000, ISO_SECONDS@) == Some(stamp.text@),
        secs < FIVE_DIGIT_YEARS ==> unix_ms_of(stamp.text@) == Some(stamp.ms),
{
    let text: String = iso_of_second(secs);
    Stamp { ms: secs as u64 * 1000, text }
}

/// The milliseconds of a point in time are a thousand for each second and one
/// for each million nanoseconds; there are none before the epoch.
pub proof fn law_seconds_have_a_thousand_milliseconds(instant: (i64, u32), ms: Option<u64>)
    requires
        call_ensures(unix_ms_of_instant, (instant,), ms),
        instant.0 <= 8_210_266_876_799,
        instant.1 < 1_000_000_000,
    ensures
        ms is Some <==> instant.0 >= 0,
        ms matches Some(n) ==> 1000 * instant.0 <= n < 1000 * (instant.0 + 1) && 1_000_000 * (n
            - 1000 * instant.0) <= instant.1 < 1_000_000 * (n - 1000 * instant.0 + 1),
{
}

/// What is stored of a second is read as that second, and what is signed of it
/// as its milliseconds, up to the year 9999.
pub proof fn law_stored_times_are_read(
    secs: i64,
    stamped: Stamp,
    text: &str,
    ms: Option<u64>,
    instant: Option<(i64, u32)>,
    stored: String,
)
    requires
        0 <= secs < FIVE_DIGIT_YEARS,
        call_ensures(stamp, (secs,), stamped),
        call_ensures(iso_of_second, (secs,), stored),
        text@ == stamped.text@,
        call_ensures(iso8601_to_unix_ms, (text,), ms),
        call_ensures(iso_instant, (text,), instant),
    ensures
        stamped.ms == 1000 * secs,
        stamped.text@ == stored@,
        ms == Some(stamped.ms),
        instant == Some((secs, 0u32)),
{
    assert(text_of_millis(secs * 1000, ISO_SECONDS@) == Some(stored@));
}

/// A stored time is read as its milliseconds wherever it has its form and is
/// not before the epoch.
pub proof fn law_times_in_form_are_read(s: &str, ms: Option<u64>)
    requires
        call_ensures(iso8601_to_unix_ms, (s,), ms),
    ensures
        instant_of(s@, ISO_SECONDS@) is None ==> ms is None,
        instant_of(s@, ISO_SECONDS@) matches Some(at) ==> ({
            let n = at.0 * 1000 + at.1 / 1_000_000;
            &&& ms is Some <==> 0 <= n <= u64::MAX
            &&& ms matches Some(m) ==> m == n
        }),
{
}

/// Of two points in time the one with fewer seconds lies before the other, and
/// of two in one second the one with fewer nanoseconds.
pub proof fn law_earlier_times_lie_before(a: (i64, u32), b: (i64, u32))
    ensures
        a.0 < b.0 ==> is_before(a, b) && !is_before(b, a),
        a.0 == b.0 && a.1 < b.1 ==> is_before(a, b) && !is_before(b, a),
        !is_before(a, a),
{
}

/// The stored form of a point in time is the one that the calendar gives, and
/// there is none where it gives none.
pub proof fn law_the_calendar_gives_the_text(ms: i64, text: Option<String>)
    requires
        call_ensures(iso_of_millis, (ms,), text),
    ensures
        text is Some <==> text_of_millis(ms as int, ISO_SECONDS@) is Some,
        text matches Some(t) ==> text_of_millis(ms as int, ISO_SECONDS@) == Some(t@),
{
}

} // verus!
