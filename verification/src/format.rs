//! Display formatting for the screens: durations, dates, counts, and the
//! dash that stands for a value there is none of.

use vstd::prelude::*;

use crate::text::{
    chars_of, decimal, decimal_string, owned, push_str,
    signed_decimal, signed_decimal_string, string_of, sub_chars, two_digit_string, two_digits,
};
use crate::stats::{date_led, leads_with_a_date};
use crate::types::komoot_privacy::{privacy_label, KomootPrivacy};
use crate::types::trip_kind::{kind_wire, TripKind};

verus! {

/// The dash shown for a value there is none of.
pub open spec fn dash_text() -> Seq<char> {
    "—"@
}

/// The dash.
pub fn dash() -> (r: String)
    ensures
        r@ == dash_text(),
{
    owned("—")
}

/// `a / b` rounded towards zero, as Rust's integer division does.
pub open spec fn div_trunc(a: int, b: int) -> int
    recommends
        b > 0,
{
    if a >= 0 {
        a / b
    } else {
        -((-a) / b)
    }
}

/// The remainder that goes with [`div_trunc`], carrying the sign of `a`.
pub open spec fn rem_trunc(a: int, b: int) -> int
    recommends
        b > 0,
{
    a - b * div_trunc(a, b)
}

/// Seconds as `hh:mm:ss`, each part as `{:02}` writes it.
pub open spec fn duration_text(secs: int) -> Seq<char> {
    let h = div_trunc(secs, 3600);
    let m = div_trunc(rem_trunc(secs, 3600), 60);
    let s = rem_trunc(secs, 60);
    two_digits(h) + ":"@ + two_digits(m) + ":"@ + two_digits(s)
}

/// Seconds as `hh:mm:ss`; hours keep counting past a day.
pub fn duration(secs: Option<i64>) -> (r: String)
    ensures
        match secs {
            None => r@ == dash_text(),
            Some(secs) => r@ == duration_text(secs as int),
        },
{
    match secs {
        None => dash(),
        Some(secs) => {
            let h = secs / 3600;
            let m = (secs % 3600) / 60;
            let s = secs % 60;
            let mut r = two_digit_string(h);
            push_str(&mut r, ":");
            let mm = two_digit_string(m);
            push_str(&mut r, mm.as_str());
            push_str(&mut r, ":");
            let ss = two_digit_string(s);
            push_str(&mut r, ss.as_str());
            r
        },
    }
}

/// A duration reads back as itself: for any non-negative number of
/// seconds, the hours shown times 3600, plus the minutes shown times 60,
/// plus the seconds shown, is that number, with fewer than 60 minutes and
/// fewer than 60 seconds shown; the hours are the whole hours, rounded
/// down.
pub proof fn lemma_duration_reads_back(secs: int)
    requires
        secs >= 0,
    ensures
        exists|h: int, m: int, s: int|
            {
                &&& h == secs / 3600
                &&& 0 <= m < 60
                &&& 0 <= s < 60
                &&& h * 3600 + m * 60 + s == secs
                &&& duration_text(secs) == two_digits(h) + ":"@ + two_digits(m) + ":"@ + two_digits(
                    s,
                )
            },
{
    let h = secs / 3600;
    let r = secs % 3600;
    let m = r / 60;
    let s = secs % 60;
    assert(div_trunc(secs, 3600) == h);
    assert(rem_trunc(secs, 3600) == r) by (nonlinear_arith)
        requires
            r == secs % 3600,
            h == secs / 3600,
            div_trunc(secs, 3600) == h,
            rem_trunc(secs, 3600) == secs - 3600 * div_trunc(secs, 3600),
    {}
    assert(0 <= r < 3600);
    assert(div_trunc(r, 60) == m);
    assert(rem_trunc(secs, 60) == s) by (nonlinear_arith)
        requires
            secs >= 0,
            s == secs % 60,
            rem_trunc(secs, 60) == secs - 60 * div_trunc(secs, 60),
            div_trunc(secs, 60) == secs / 60,
    {}
    assert(h * 3600 + m * 60 + s == secs) by (nonlinear_arith)
        requires
            secs >= 0,
            h == secs / 3600,
            r == secs % 3600,
            m == r / 60,
            s == secs % 60,
    {}
    assert(0 <= m < 60);
    assert(0 <= s < 60);
    assert(duration_text(secs) == two_digits(h) + ":"@ + two_digits(m) + ":"@ + two_digits(s));
    assert({
        &&& h == secs / 3600
        &&& 0 <= m < 60
        &&& 0 <= s < 60
        &&& h * 3600 + m * 60 + s == secs
        &&& duration_text(secs) == two_digits(h) + ":"@ + two_digits(m) + ":"@ + two_digits(s)
    });
}

/// Whether a text is shaped like a stored RFC-3339 timestamp: a
/// `YYYY-MM-DD` date and then the `T` that starts its time.
pub open spec fn timestamp_shaped(s: Seq<char>) -> bool {
    date_led(s) && s.len() > 10 && s[10] == 'T'
}

/// What [`date`] shows of a stored timestamp: its date part where it is
/// shaped like one, and otherwise the text as it is.
pub open spec fn date_text(s: Seq<char>) -> Seq<char> {
    if timestamp_shaped(s) {
        s.take(10)
    } else {
        s
    }
}

/// The date part of a stored RFC-3339 timestamp: what comes before the `T`.
/// Anything that isn't shaped like one is shown as-is rather than hidden.
pub fn date(timestamp: Option<&str>) -> (r: String)
    ensures
        match timestamp {
            None => r@ == dash_text(),
            Some(ts) => r@ == date_text(ts@),
        },
{
    match timestamp {
        None => dash(),
        Some(ts) => {
            let cs = chars_of(ts);
            if leads_with_a_date(ts) && cs.len() > 10 && cs[10] == 'T' {
                let head = sub_chars(cs.as_slice(), 0, 10);
                string_of(head.as_slice())
            } else {
                owned(ts)
            }
        },
    }
}

/// A string shown as it is, or a dash when there is none.
pub fn or_dash(value: Option<&str>) -> (r: String)
    ensures
        match value {
            None => r@ == dash_text(),
            Some(v) => r@ == v@,
        },
{
    match value {
        None => dash(),
        Some(v) => owned(v),
    }
}

/// A linked Komoot tour's privacy by its label, or a dash for a trip that
/// never came from Komoot or whose privacy no sync has read yet.
pub fn privacy(value: Option<KomootPrivacy>) -> (r: String)
    ensures
        match value {
            None => r@ == dash_text(),
            Some(p) => r@ == privacy_label(p),
        },
{
    match value {
        None => dash(),
        Some(p) => owned(p.label()),
    }
}

/// "247 of 312 recorded trips", or "312 recorded trips" when nothing is
/// narrowed; the noun agrees with the total.
pub open spec fn trip_counts_text(shown: nat, total: nat, kind: TripKind) -> Seq<char> {
    let noun = if total == 1 {
        "trip"@
    } else {
        "trips"@
    };
    if shown == total {
        decimal(total) + " "@ + kind_wire(kind) + " "@ + noun
    } else {
        decimal(shown) + " of "@ + decimal(total) + " "@ + kind_wire(kind) + " "@ + noun
    }
}

/// How many trips the list shows, and how many the tab holds in all (US-61)
/// — "247 of 312 recorded trips". An unnarrowed list drops the "of".
pub fn trip_counts(shown: usize, total: usize, kind: TripKind) -> (r: String)
    ensures
        r@ == trip_counts_text(shown as nat, total as nat, kind),
{
    let mut r = String::new();
    if shown != total {
        let s = decimal_string(shown as u64);
        push_str(&mut r, s.as_str());
        push_str(&mut r, " of ");
    }
    let t = decimal_string(total as u64);
    push_str(&mut r, t.as_str());
    push_str(&mut r, " ");
    push_str(&mut r, kind.as_str());
    push_str(&mut r, " ");
    if total == 1 {
        push_str(&mut r, "trip");
    } else {
        push_str(&mut r, "trips");
    }
    r
}

/// "showing 51–100" for rows 50..100.
pub open spec fn page_place_text(start: nat, end: nat) -> Seq<char> {
    "showing "@ + decimal(start + 1) + "–"@ + decimal(end)
}

/// Which rows of the list a page shows (US-63), counted from one the way
/// the owner counts them.
pub fn page_place(rows: std::ops::Range<usize>) -> (r: String)
    requires
        rows.start < usize::MAX,
    ensures
        r@ == page_place_text(rows.start as nat, rows.end as nat),
{
    let mut r = owned("showing ");
    let first = decimal_string((rows.start + 1) as u64);
    push_str(&mut r, first.as_str());
    push_str(&mut r, "–");
    let last = decimal_string(rows.end as u64);
    push_str(&mut r, last.as_str());
    r
}

// ── Times, as the clock read where they happened (US-62) ────────────────

/// The first whole second `time` can hold, -9999-01-01T00:00:00Z, counted
/// from the Unix epoch.
pub const FIRST_SECOND: i64 = -377705116800;

/// The last whole second `time` can hold, 9999-12-31T23:59:59Z, counted
/// from the Unix epoch.
pub const LAST_SECOND: i64 = 253402300799;

/// The instant that `time::OffsetDateTime::parse` with the RFC-3339
/// description reads from a text, as whole seconds since the Unix epoch
/// (`unix_timestamp`), or none for text it does not read.
pub uninterp spec fn rfc3339_instant(text: Seq<char>) -> Option<i64>;

/// Calls `time::OffsetDateTime::parse` with the RFC-3339 description and
/// takes the instant's `unix_timestamp`: what it reads is named
/// `rfc3339_instant`, and an empty text reads as none.
#[verifier::external_body]
fn parse_rfc3339(text: &str) -> (r: Option<i64>)
    ensures
        r == rfc3339_instant(text@),
        text@.len() == 0 ==> r is None,
{
    time::OffsetDateTime::parse(text, &time::format_description::well_known::Rfc3339).ok().map(
        |at| at.unix_timestamp(),
    )
}

#[verifier::external_type_specification]
#[verifier::external_body]
pub struct ExUtcOffset(time::UtcOffset);

/// Calls `time::UtcOffset::from_whole_seconds`: there is an offset for
/// exactly the seconds within ±25:59:59.
#[verifier::external_body]
pub(crate) fn offset_from_seconds(seconds: i32) -> (r: Option<time::UtcOffset>)
    ensures
        r is Some <==> -93599 <= seconds <= 93599,
{
    time::UtcOffset::from_whole_seconds(seconds).ok()
}

/// A local reading of an instant: its year, its month counted from one,
/// its day of the month, its hour and its minute.
#[derive(Debug, Clone, Copy, PartialEq, Eq, Structural)]
pub struct LocalReading {
    pub year: i32,
    pub month: u8,
    pub day: u8,
    pub hour: u8,
    pub minute: u8,
}

/// Whether a reading is one a calendar and a clock can show.
pub open spec fn valid_reading(r: LocalReading) -> bool {
    &&& 1 <= r.month <= 12
    &&& 1 <= r.day <= 31
    &&& r.hour < 24
    &&& r.minute < 60
}

/// The calendar date, in UTC, of the instant `secs` seconds after the Unix
/// epoch, as `time::OffsetDateTime::from_unix_timestamp` gives it: the
/// year, the month counted from one, and the day of the month.
pub uninterp spec fn utc_date(secs: int) -> (i32, u8, u8);

/// The reading in UTC of the instant `secs` seconds after the Unix epoch:
/// its date, and the hour and minute of the seconds into its day.
pub open spec fn utc_reading(secs: int) -> LocalReading {
    let (y, m, d) = utc_date(secs);
    let in_day = secs % 86400;
    LocalReading {
        year: y,
        month: m,
        day: d,
        hour: (in_day / 3600) as u8,
        minute: ((in_day % 3600) / 60) as u8,
    }
}

/// Calls `time::OffsetDateTime::from_unix_timestamp` and reads the year,
/// month, day, hour and minute off the instant it gives, which is held in
/// UTC. There is one for exactly the seconds from [`FIRST_SECOND`] to
/// [`LAST_SECOND`]; its hour and minute are those of the seconds into the
/// day, and its date is named `utc_date`, in the ranges a date keeps.
#[verifier::external_body]
fn reading_at(secs: i64) -> (r: Option<LocalReading>)
    ensures
        r is Some <==> FIRST_SECOND <= secs <= LAST_SECOND,
        r matches Some(x) ==> {
            &&& (x.year, x.month, x.day) == utc_date(secs as int)
            &&& x.hour as int == (secs as int % 86400) / 3600
            &&& x.minute as int == ((secs as int % 86400) % 3600) / 60
            &&& 1 <= x.month <= 12
            &&& 1 <= x.day <= 31
        },
{
    time::OffsetDateTime::from_unix_timestamp(secs).ok().map(
        |at|
            LocalReading {
                year: at.year(),
                month: at.month() as u8,
                day: at.day(),
                hour: at.hour(),
                minute: at.minute(),
            },
    )
}

/// The seconds east of UTC of an offset, none standing for UTC itself.
pub open spec fn offset_seconds(offset: Option<i32>) -> int {
    match offset {
        Some(o) => o as int,
        None => 0,
    }
}

/// Whether the instant `at` seconds after the Unix epoch, read in the
/// offset (in UTC where there is none), falls within the years `time`
/// holds.
pub open spec fn in_years(at: int, offset: Option<i32>) -> bool {
    FIRST_SECOND <= at + offset_seconds(offset) <= LAST_SECOND
}

/// The instant `at` seconds after the Unix epoch as the clock read in the
/// offset (in UTC where there is none): the UTC reading of the instant
/// moved on by the offset.
pub open spec fn reading_in(at: int, offset: Option<i32>) -> LocalReading {
    utc_reading(at + offset_seconds(offset))
}

/// Whether a stored timestamp can be read in the offset: it is no
/// timestamp at all (and so has no reading), or its reading there falls
/// within the years `time` holds.
pub open spec fn time_readable(timestamp: Seq<char>, offset: Option<i32>) -> bool {
    match rfc3339_instant(timestamp) {
        Some(at) => in_years(at as int, offset),
        None => true,
    }
}

/// What `time::Date::parse` reads from a text with the `[year]-[month]-[day]`
/// description: the year, the month counted from one, and the day.
pub uninterp spec fn parsed_day(text: Seq<char>) -> Option<(int, int, int)>;

/// Calls `time::Date::parse` with the `[year]-[month]-[day]` description
/// (built by `time::format_description::parse_borrowed::<1>`, the same
/// items as `format_description!` builds): the date read, as the year, the
/// month counted from one and the day, or none. Beyond naming what it
/// reads, only the ranges a date keeps are claimed.
#[verifier::external_body]
fn parse_day(text: &str) -> (r: Option<(i32, u8, u8)>)
    ensures
        match r {
            Some((y, m, d)) => parsed_day(text@) == Some((y as int, m as int, d as int)) && 1 <= m
                <= 12 && 1 <= d <= 31,
            None => parsed_day(text@) is None,
        },
{
    let format = time::format_description::parse_borrowed::<1>("[year]-[month]-[day]").ok()?;
    time::Date::parse(text, &format).ok().map(|d| (d.year(), d.month() as u8, d.day()))
}

/// The first three letters of a month's English name, as `time::Month`
/// displays it.
pub open spec fn month_abbrev(m: int) -> Seq<char> {
    if m == 1 {
        "Jan"@
    } else if m == 2 {
        "Feb"@
    } else if m == 3 {
        "Mar"@
    } else if m == 4 {
        "Apr"@
    } else if m == 5 {
        "May"@
    } else if m == 6 {
        "Jun"@
    } else if m == 7 {
        "Jul"@
    } else if m == 8 {
        "Aug"@
    } else if m == 9 {
        "Sep"@
    } else if m == 10 {
        "Oct"@
    } else if m == 11 {
        "Nov"@
    } else {
        "Dec"@
    }
}

/// A month's short name.
fn short_month(m: u8) -> (r: &'static str)
    requires
        1 <= m <= 12,
    ensures
        r@ == month_abbrev(m as int),
{
    if m == 1 {
        "Jan"
    } else if m == 2 {
        "Feb"
    } else if m == 3 {
        "Mar"
    } else if m == 4 {
        "Apr"
    } else if m == 5 {
        "May"
    } else if m == 6 {
        "Jun"
    } else if m == 7 {
        "Jul"
    } else if m == 8 {
        "Aug"
    } else if m == 9 {
        "Sep"
    } else if m == 10 {
        "Oct"
    } else if m == 11 {
        "Nov"
    } else {
        "Dec"
    }
}

/// An offset as `+02:00`, `-04:00`, `+05:30`: the sign always shown, then
/// the whole hours and the minutes left over.
pub open spec fn offset_text(seconds: int) -> Seq<char> {
    let a = if seconds < 0 {
        -seconds
    } else {
        seconds
    };
    (if seconds < 0 {
        "-"@
    } else {
        "+"@
    }) + two_digits(a / 3600) + ":"@ + two_digits((a % 3600) / 60)
}

/// An offset of `seconds` east of UTC as `+02:00`, `-04:00`, `+05:30`.
pub fn utc_offset(seconds: i32) -> (r: String)
    requires
        -93599 <= seconds <= 93599,
    ensures
        r@ == offset_text(seconds as int),
{
    let a: i64 = if seconds < 0 {
        -(seconds as i64)
    } else {
        seconds as i64
    };
    let mut r = if seconds < 0 {
        owned("-")
    } else {
        owned("+")
    };
    let h = two_digit_string(a / 3600);
    push_str(&mut r, h.as_str());
    push_str(&mut r, ":");
    let m = two_digit_string((a % 3600) / 60);
    push_str(&mut r, m.as_str());
    r
}

/// A reading as the owner reads it: `14:32 (+02:00)`, or `14:32 UTC` where
/// the offset is not known, and with the date in front, `11 Jul 14:32
/// (+02:00)`, when asked for.
pub open spec fn reading_text(r: LocalReading, offset: Option<i32>, with_date: bool) -> Seq<char> {
    let time = two_digits(r.hour as int) + ":"@ + two_digits(r.minute as int) + match offset {
        Some(o) => " ("@ + offset_text(o as int) + ")"@,
        None => " UTC"@,
    };
    if with_date {
        decimal(r.day as nat) + " "@ + month_abbrev(r.month as int) + " "@ + time
    } else {
        time
    }
}

/// A reading as the owner reads it. Never a bare time: one with no zone on
/// it is worse than one in the wrong zone, so a reading whose offset is not
/// known says it is UTC.
pub fn reading_line(r: LocalReading, offset: Option<i32>, with_date: bool) -> (s: String)
    requires
        valid_reading(r),
        offset matches Some(o) ==> -93599 <= o <= 93599,
    ensures
        s@ == reading_text(r, offset, with_date),
{
    let mut time = two_digit_string(r.hour as i64);
    push_str(&mut time, ":");
    let m = two_digit_string(r.minute as i64);
    push_str(&mut time, m.as_str());
    match offset {
        Some(o) => {
            push_str(&mut time, " (");
            let t = utc_offset(o);
            push_str(&mut time, t.as_str());
            push_str(&mut time, ")");
        },
        None => push_str(&mut time, " UTC"),
    }
    if with_date {
        let mut s = decimal_string(r.day as u64);
        push_str(&mut s, " ");
        push_str(&mut s, short_month(r.month));
        push_str(&mut s, " ");
        push_str(&mut s, time.as_str());
        s
    } else {
        time
    }
}

/// A stored RFC-3339 instant, as whole seconds since the Unix epoch, or
/// `None` for anything else — an empty string is how the track says a
/// point has no time.
pub fn instant(timestamp: &str) -> (r: Option<i64>)
    ensures
        r == rfc3339_instant(timestamp@),
        timestamp@.len() == 0 ==> r is None,
{
    parse_rfc3339(timestamp)
}

/// Whether the instant `at` seconds after the Unix epoch, read in the
/// offset of `offset` seconds (in UTC when there is none), falls within the
/// years `time` holds.
pub fn within_years(at: i64, offset: Option<i32>) -> (r: bool)
    requires
        offset matches Some(o) ==> -93599 <= o <= 93599,
    ensures
        r == in_years(at as int, offset),
{
    if at < FIRST_SECOND - 93599 || at > LAST_SECOND + 93599 {
        return false;
    }
    let shift: i64 = match offset {
        Some(o) => o as i64,
        None => 0,
    };
    FIRST_SECOND <= at + shift && at + shift <= LAST_SECOND
}

/// Whether a stored timestamp can be read in the offset of `offset`
/// seconds: see [`time_readable`].
pub fn readable(timestamp: &str, offset: Option<i32>) -> (r: bool)
    requires
        offset matches Some(o) ==> -93599 <= o <= 93599,
    ensures
        r == time_readable(timestamp@, offset),
{
    match instant(timestamp) {
        Some(at) => within_years(at, offset),
        None => true,
    }
}

/// The instant `at` seconds after the Unix epoch as the clock read in the
/// offset of `offset` seconds, or in UTC when there is none.
pub fn local_reading(at: i64, offset: Option<i32>) -> (r: LocalReading)
    requires
        offset matches Some(o) ==> -93599 <= o <= 93599,
        in_years(at as int, offset),
    ensures
        r == reading_in(at as int, offset),
        valid_reading(r),
{
    let shift: i64 = match offset {
        Some(o) => o as i64,
        None => 0,
    };
    match reading_at(at + shift) {
        Some(x) => {
            proof {
                let in_day = (at + shift) as int % 86400;
                assert(0 <= in_day < 86400);
                assert(x.hour as int == in_day / 3600);
                assert(x.minute as int == (in_day % 3600) / 60);
            }
            x
        },
        None => {
            proof {
                assert(false);
            }
            LocalReading { year: 1970, month: 1, day: 1, hour: 0, minute: 0 }
        },
    }
}

/// A string as its text, kept an `Option`.
pub open spec fn text_of(s: Option<String>) -> Option<Seq<char>> {
    match s {
        Some(s) => Some(s@),
        None => None,
    }
}

/// What [`clock`] shows of the instant `at` seconds after the Unix epoch.
pub open spec fn clock_text(at: int, offset: Option<i32>, with_date: bool) -> Seq<char> {
    reading_text(reading_in(at, offset), offset, with_date)
}

/// An instant, `at` seconds after the Unix epoch, as the clock read where
/// it happened (US-62): `14:32 (+02:00)`, or with its date, `11 Jul 14:32
/// (+02:00)`; `14:32 UTC` for an instant whose offset is not known.
pub fn clock(at: i64, offset: Option<i32>, with_date: bool) -> (r: String)
    requires
        offset matches Some(o) ==> -93599 <= o <= 93599,
        in_years(at as int, offset),
    ensures
        r@ == clock_text(at as int, offset, with_date),
{
    let x = local_reading(at, offset);
    reading_line(x, offset, with_date)
}

/// A date as the owner reads one, `11 Jul 2026`.
pub open spec fn day_text(year: int, month: int, day: int) -> Seq<char> {
    decimal(day as nat) + " "@ + month_abbrev(month) + " "@ + signed_decimal(year)
}

/// A date as the owner reads one, from its parts.
pub fn day_line(year: i32, month: u8, day: u8) -> (r: String)
    requires
        1 <= month <= 12,
    ensures
        r@ == day_text(year as int, month as int, day as int),
{
    let mut s = decimal_string(day as u64);
    push_str(&mut s, " ");
    push_str(&mut s, short_month(month));
    push_str(&mut s, " ");
    let y = signed_decimal_string(year as i64);
    push_str(&mut s, y.as_str());
    s
}

/// A stored `YYYY-MM-DD` date as the owner reads one, `11 Jul 2026`
/// (US-62). Anything else is shown as it is rather than hidden.
pub fn day(date: &str) -> (r: String)
    ensures
        r@ == match parsed_day(date@) {
            Some((y, m, d)) => day_text(y, m, d),
            None => date@,
        },
{
    match parse_day(date) {
        Some((y, m, d)) => day_line(y, m, d),
        None => owned(date),
    }
}

} // verus!
