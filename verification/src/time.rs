//! Instants and Hong Kong local time: the conversions that the tz database
//! of `chrono_tz` answers, and the display of local times.

use vstd::prelude::*;
use chrono::Datelike;
use chrono::TimeZone;
use chrono::Timelike;
use crate::text::decimal_text;
use crate::text::digit_char;
use crate::text::push_char;
use crate::text::push_decimal;
use crate::text::push_str;
use crate::text::parse_i64;
use crate::text::parsed_i64;
use vstd::utf8::is_char_boundary;
use vstd::string::StringSliceAdditionalSpecFns;

verus! {

/// The earliest UNIX timestamp that `chrono` represents (-262143-01-01T00:00:00Z).
pub const MIN_TIMESTAMP: i64 = -8334601228800;

/// The latest UNIX timestamp that `chrono` represents (262142-12-31T23:59:59Z).
pub const MAX_TIMESTAMP: i64 = 8210266876799;

/// Seconds in a day.
pub const SECONDS_PER_DAY: i64 = 86400;

/// A date and time of day in Hong Kong, with the day of the week counted
/// from Monday (0) to Sunday (6).
#[derive(Clone, Copy, Debug, PartialEq, Eq, Structural)]
pub struct HktDateTime {
    pub year: i32,
    pub month: u32,
    pub day: u32,
    pub hour: u32,
    pub minute: u32,
    pub second: u32,
    pub weekday: u32,
}

impl HktDateTime {
    /// Each field lies in its calendar range.
    pub open spec fn well_formed(self) -> bool {
        &&& 1 <= self.month <= 12
        &&& 1 <= self.day <= 31
        &&& self.hour < 24
        &&& self.minute < 60
        &&& self.second < 60
        &&& self.weekday < 7
    }

    /// Both fall on the same calendar day.
    pub open spec fn same_date(self, other: HktDateTime) -> bool {
        self.year == other.year && self.month == other.month && self.day == other.day
    }
}

/// The Hong Kong local date and time of a UNIX timestamp, as `chrono_tz`
/// converts it (`Asia::Hong_Kong.timestamp_opt(ts, 0)`).
pub uninterp spec fn hkt_local(ts: i64) -> Option<HktDateTime>;

/// The UNIX timestamp of a Hong Kong local date and time (seconds zero), as
/// `Asia::Hong_Kong.from_local_datetime` resolves it, taking the earlier
/// instant of an ambiguous local time; `None` when it does not exist.
pub uninterp spec fn hkt_instant(year: i32, month: u32, day: u32, hour: u32, minute: u32) -> Option<i64>;

/// The date that `NaiveDate::parse_from_str(text, format)` reads, as
/// (year, month, day).
pub uninterp spec fn parsed_date(text: Seq<char>, format: Seq<char>) -> Option<(i32, u32, u32)>;

/// The time of day that `NaiveTime::parse_from_str(text, format)` reads, as
/// (hour, minute).
pub uninterp spec fn parsed_time_of_day(text: Seq<char>, format: Seq<char>) -> Option<(u32, u32)>;

/// A timestamp lies in the range that `chrono` represents.
pub open spec fn in_time_range(ts: int) -> bool {
    MIN_TIMESTAMP <= ts <= MAX_TIMESTAMP
}

/// A current time for which today's and tomorrow's dates both exist.
pub open spec fn valid_now(now: i64) -> bool {
    MIN_TIMESTAMP <= now <= MAX_TIMESTAMP - SECONDS_PER_DAY
}

/// Whether a current time leaves room for tomorrow's date.
pub fn now_in_range(now: i64) -> (r: bool)
    ensures
        r == valid_now(now),
{
    MIN_TIMESTAMP <= now && now <= MAX_TIMESTAMP - SECONDS_PER_DAY
}

/// Converts a UNIX timestamp to Hong Kong local time.
///
/// Calls `TimeZone::timestamp_opt` of `chrono_tz::Asia::Hong_Kong` with zero
/// nanoseconds. Claimed: the result is the named `hkt_local`; it exists
/// exactly for the timestamps in `chrono`'s range (`DateTime::from_timestamp`
/// accepts the days from -262143-01-01 to 262142-12-31); each field lies in
/// its calendar range, as `Datelike` and `Timelike` document them. The
/// offset of each instant is not stated.
#[verifier::external_body]
pub(crate) fn hkt_from_ts(ts: i64) -> (r: Option<HktDateTime>)
    ensures
        r == hkt_local(ts),
        r is Some <==> in_time_range(ts as int),
        r matches Some(t) ==> t.well_formed(),
{
    match chrono_tz::Asia::Hong_Kong.timestamp_opt(ts, 0).single() {
        Some(dt) => Some(HktDateTime {
            year: dt.year(),
            month: dt.month(),
            day: dt.day(),
            hour: dt.hour(),
            minute: dt.minute(),
            second: dt.second(),
            weekday: dt.weekday().num_days_from_monday(),
        }),
        None => None,
    }
}

/// Resolves a Hong Kong local date and time to a UNIX timestamp.
///
/// Builds the `NaiveDateTime` with `NaiveDate::from_ymd_opt` and
/// `and_hms_opt(hour, minute, 0)`, then calls
/// `TimeZone::from_local_datetime` of `chrono_tz::Asia::Hong_Kong`, keeping
/// the single instant or the first of two. Claimed: the result is the named
/// `hkt_instant`; nothing is claimed about which dates resolve.
#[verifier::external_body]
pub(crate) fn resolve_hkt(year: i32, month: u32, day: u32, hour: u32, minute: u32) -> (r: Option<i64>)
    ensures
        r == hkt_instant(year, month, day, hour, minute),
{
    let naive = chrono::NaiveDate::from_ymd_opt(year, month, day)?.and_hms_opt(hour, minute, 0)?;
    match chrono_tz::Asia::Hong_Kong.from_local_datetime(&naive) {
        chrono::LocalResult::Single(dt) => Some(dt.timestamp()),
        chrono::LocalResult::Ambiguous(dt, _) => Some(dt.timestamp()),
        chrono::LocalResult::None => None,
    }
}

/// Reads a date with a `chrono` format string.
///
/// Calls `NaiveDate::parse_from_str`. Claimed: the result is the named
/// `parsed_date`; a date read has a month from 1 to 12 and a day from 1 to
/// 31, as every `NaiveDate` has.
#[verifier::external_body]
pub(crate) fn parse_date(text: &str, format: &str) -> (r: Option<(i32, u32, u32)>)
    ensures
        r == parsed_date(text@, format@),
        r matches Some(d) ==> 1 <= d.1 <= 12 && 1 <= d.2 <= 31,
{
    match chrono::NaiveDate::parse_from_str(text, format) {
        Ok(d) => Some((d.year(), d.month(), d.day())),
        Err(_) => None,
    }
}

/// Reads a time of day with a `chrono` format string.
///
/// Calls `NaiveTime::parse_from_str`. Claimed: the result is the named
/// `parsed_time_of_day`; a time read has an hour below 24 and a minute
/// below 60, as every `NaiveTime` has.
#[verifier::external_body]
pub(crate) fn parse_time_of_day(text: &str, format: &str) -> (r: Option<(u32, u32)>)
    ensures
        r == parsed_time_of_day(text@, format@),
        r matches Some(t) ==> t.0 < 24 && t.1 < 60,
{
    match chrono::NaiveTime::parse_from_str(text, format) {
        Ok(t) => Some((t.hour(), t.minute())),
        Err(_) => None,
    }
}

/// Two digits of a number below 100, with a leading zero.
pub open spec fn two_digits(n: int) -> Seq<char> {
    seq![digit_char(n / 10), digit_char(n % 10)]
}

/// The English abbreviation of a month (1 to 12).
pub open spec fn month_abbrev(month: int) -> Seq<char> {
    if month == 1 { "Jan"@ }
    else if month == 2 { "Feb"@ }
    else if month == 3 { "Mar"@ }
    else if month == 4 { "Apr"@ }
    else if month == 5 { "May"@ }
    else if month == 6 { "Jun"@ }
    else if month == 7 { "Jul"@ }
    else if month == 8 { "Aug"@ }
    else if month == 9 { "Sep"@ }
    else if month == 10 { "Oct"@ }
    else if month == 11 { "Nov"@ }
    else { "Dec"@ }
}

/// `HH:MM`.
pub open spec fn clock_text(t: HktDateTime) -> Seq<char> {
    two_digits(t.hour as int) + ":"@ + two_digits(t.minute as int)
}

/// `YYYY-MM-DD`, with the year as `chrono`'s `%Y` writes it: four digits
/// from 0 to 9999, otherwise a sign and at least four digits.
pub open spec fn date_text(t: HktDateTime) -> Seq<char> {
    year_text(t.year as int) + "-"@ + two_digits(t.month as int) + "-"@ + two_digits(t.day as int)
}

/// At least four digits of a number, with leading zeros.
pub open spec fn four_digits(n: nat) -> Seq<char> {
    if n < 10 {
        "000"@ + decimal_text(n)
    } else if n < 100 {
        "00"@ + decimal_text(n)
    } else if n < 1000 {
        "0"@ + decimal_text(n)
    } else {
        decimal_text(n)
    }
}

/// A year as `%Y` writes it.
pub open spec fn year_text(year: int) -> Seq<char> {
    if 0 <= year <= 9999 {
        four_digits(year as nat)
    } else if year < 0 {
        "-"@ + four_digits((-year) as nat)
    } else {
        "+"@ + four_digits(year as nat)
    }
}

/// How a due time is shown: `today HH:MM`, `tomorrow HH:MM`, or
/// `Mon DD HH:MM`, against the Hong Kong dates of `now` and of one day later.
pub open spec fn due_text(t: HktDateTime, today: HktDateTime, tomorrow: HktDateTime) -> Seq<char> {
    if t.same_date(today) {
        "today "@ + clock_text(t)
    } else if t.same_date(tomorrow) {
        "tomorrow "@ + clock_text(t)
    } else {
        month_abbrev(t.month as int) + " "@ + two_digits(t.day as int) + " "@ + clock_text(t)
    }
}

/// The text of `fmt_ts(ts, now)`; `None` when `ts` has no local time.
pub open spec fn fmt_ts_text(ts: i64, now: i64) -> Option<Seq<char>> {
    match hkt_local(ts) {
        Some(t) => Some(due_text(t, hkt_local(now).unwrap(), hkt_local((now + SECONDS_PER_DAY) as i64).unwrap())),
        None => None,
    }
}

/// A month abbreviation has three letters and does not begin with `t`.
proof fn lemma_month_abbrev_shape(month: int)
    ensures
        month_abbrev(month).len() == 3,
        month_abbrev(month)[0] != 't',
{
    reveal_strlit("Jan");
    reveal_strlit("Feb");
    reveal_strlit("Mar");
    reveal_strlit("Apr");
    reveal_strlit("May");
    reveal_strlit("Jun");
    reveal_strlit("Jul");
    reveal_strlit("Aug");
    reveal_strlit("Sep");
    reveal_strlit("Oct");
    reveal_strlit("Nov");
    reveal_strlit("Dec");
}

/// How a due time reads against now, in Hong Kong time: it begins with
/// `today ` exactly when it falls on now's date (year, month and day), with
/// `tomorrow ` exactly when it falls on the date one day after now and not
/// today, and otherwise with the abbreviation of its own month; it always
/// ends with its hour and minute as `HH:MM`.
pub proof fn lemma_fmt_ts_day_words(ts: i64, now: i64, t: HktDateTime, n: HktDateTime, n1: HktDateTime)
    ensures
        (hkt_local(ts) == Some(t) && hkt_local(now) == Some(n)
            && hkt_local((now + SECONDS_PER_DAY) as i64) == Some(n1) && t.well_formed()) ==> {
            let on_today = t.year == n.year && t.month == n.month && t.day == n.day;
            let on_tomorrow = t.year == n1.year && t.month == n1.month && t.day == n1.day;
            fmt_ts_text(ts, now) matches Some(s) && {
                &&& (s.len() >= 6 && s.take(6) == "today "@) <==> on_today
                &&& (s.len() >= 9 && s.take(9) == "tomorrow "@) <==> (!on_today && on_tomorrow)
                &&& (!on_today && !on_tomorrow) ==> s.take(3) == month_abbrev(t.month as int)
                    && s.subrange(3, 7) == " "@ + two_digits(t.day as int) + " "@
                &&& s.len() >= 5
                &&& s.skip(s.len() - 5) == two_digits(t.hour as int) + ":"@ + two_digits(t.minute as int)
            }
        },
{
    if hkt_local(ts) == Some(t) && hkt_local(now) == Some(n)
        && hkt_local((now + SECONDS_PER_DAY) as i64) == Some(n1) && t.well_formed() {
        reveal_strlit("today ");
        reveal_strlit("tomorrow ");
        reveal_strlit(" ");
        reveal_strlit(":");
        let on_today = t.year == n.year && t.month == n.month && t.day == n.day;
        let on_tomorrow = t.year == n1.year && t.month == n1.month && t.day == n1.day;
        let s = fmt_ts_text(ts, now).unwrap();
        let c = clock_text(t);
        assert(c.len() == 5);
        lemma_month_abbrev_shape(t.month as int);
        if on_today {
            assert(s == "today "@ + c);
            assert(s.take(6) =~= "today "@);
            assert(s.take(9)[2] != "tomorrow "@[2]);
            assert(s.skip(s.len() - 5) =~= c);
        } else if on_tomorrow {
            assert(s == "tomorrow "@ + c);
            assert(s.take(9) =~= "tomorrow "@);
            assert(s.take(6)[2] != "today "@[2]);
            assert(s.skip(s.len() - 5) =~= c);
        } else {
            let m = month_abbrev(t.month as int);
            assert(s == m + " "@ + two_digits(t.day as int) + " "@ + c);
            assert(s.take(6)[0] != "today "@[0]);
            assert(s.take(9)[0] != "tomorrow "@[0]);
            assert(s.take(3) =~= m);
            assert(s.subrange(3, 7) =~= " "@ + two_digits(t.day as int) + " "@);
            assert(s.skip(s.len() - 5) =~= c);
        }
    }
}

/// Appends two digits of a number below 100.
pub fn push_two_digits(s: &mut String, n: u32)
    requires
        n < 100,
    ensures
        final(s)@ == old(s)@ + two_digits(n as int),
{
    let tens: u8 = (n / 10) as u8;
    let ones: u8 = (n % 10) as u8;
    push_char(s, (tens + 48) as char);
    push_char(s, (ones + 48) as char);
    assert(final(s)@ =~= old(s)@ + two_digits(n as int));
}

/// Appends `HH:MM`.
pub fn push_clock(s: &mut String, t: &HktDateTime)
    requires
        t.well_formed(),
    ensures
        final(s)@ == old(s)@ + clock_text(*t),
{
    push_two_digits(s, t.hour);
    push_str(s, ":");
    push_two_digits(s, t.minute);
    assert(final(s)@ =~= old(s)@ + clock_text(*t));
}

/// The English abbreviation of a month.
pub fn month_name(month: u32) -> (r: &'static str)
    ensures
        r@ == month_abbrev(month as int),
{
    if month == 1 { "Jan" }
    else if month == 2 { "Feb" }
    else if month == 3 { "Mar" }
    else if month == 4 { "Apr" }
    else if month == 5 { "May" }
    else if month == 6 { "Jun" }
    else if month == 7 { "Jul" }
    else if month == 8 { "Aug" }
    else if month == 9 { "Sep" }
    else if month == 10 { "Oct" }
    else if month == 11 { "Nov" }
    else { "Dec" }
}

/// Appends at least four digits of `n`.
pub fn push_four_digits(s: &mut String, n: u64)
    ensures
        final(s)@ == old(s)@ + four_digits(n as nat),
{
    if n < 10 {
        push_str(s, "000");
    } else if n < 100 {
        push_str(s, "00");
    } else if n < 1000 {
        push_str(s, "0");
    }
    push_decimal(s, n);
    assert(final(s)@ =~= old(s)@ + four_digits(n as nat));
}

/// Appends `YYYY-MM-DD`.
pub fn push_date(s: &mut String, t: &HktDateTime)
    requires
        t.well_formed(),
    ensures
        final(s)@ == old(s)@ + date_text(*t),
{
    let y = t.year;
    if 0 <= y && y <= 9999 {
        push_four_digits(s, y as u64);
    } else if y < 0 {
        push_str(s, "-");
        let m: u64 = if y == i32::MIN { 2147483648u64 } else { (-y) as u64 };
        push_four_digits(s, m);
    } else {
        push_str(s, "+");
        push_four_digits(s, y as u64);
    }
    push_str(s, "-");
    push_two_digits(s, t.month);
    push_str(s, "-");
    push_two_digits(s, t.day);
    assert(final(s)@ =~= old(s)@ + date_text(*t));
}

/// Shows a due timestamp relative to `now`: `today HH:MM`, `tomorrow HH:MM`
/// or `Mon DD HH:MM` in Hong Kong time. `None` when the timestamp is outside
/// the range of times (where the tool stops with "Invalid timestamp").
pub fn fmt_ts(ts: i64, now: i64) -> (r: Option<String>)
    requires
        valid_now(now),
    ensures
        r is Some <==> in_time_range(ts as int),
        r matches Some(s) ==> fmt_ts_text(ts, now) == Some(s@),
        r is None ==> fmt_ts_text(ts, now) is None,
{
    let t = match hkt_from_ts(ts) {
        Some(t) => t,
        None => return None,
    };
    let today = match hkt_from_ts(now) {
        Some(d) => d,
        None => return None,
    };
    let tomorrow = match hkt_from_ts(now + SECONDS_PER_DAY) {
        Some(d) => d,
        None => return None,
    };
    let mut s = String::new();
    if t.year == today.year && t.month == today.month && t.day == today.day {
        push_str(&mut s, "today ");
    } else if t.year == tomorrow.year && t.month == tomorrow.month && t.day == tomorrow.day {
        push_str(&mut s, "tomorrow ");
    } else {
        push_str(&mut s, month_name(t.month));
        push_str(&mut s, " ");
        push_two_digits(&mut s, t.day);
        push_str(&mut s, " ");
    }
    push_clock(&mut s, &t);
    assert(s@ =~= due_text(t, today, tomorrow));
    Some(s)
}


/// The largest number of seconds that a `chrono::TimeDelta` holds
/// (`i64::MAX / 1000`).
pub const MAX_DELTA_SECONDS: i64 = 9223372036854775;

/// The smallest number of seconds that a `chrono::TimeDelta` holds
/// (`-i64::MAX / 1000 - 1`).
pub const MIN_DELTA_SECONDS: i64 = -9223372036854776;

/// Why a requested time was refused.
#[derive(Clone, Copy, Debug, PartialEq, Eq, Structural)]
pub enum TimeError {
    /// `--in` is not a number followed by `s`, `m` or `h`.
    InvalidIn,
    /// `--date` is not a `YYYY-MM-DD` date.
    InvalidDate,
    /// `--at` is not an `HH:MM` time.
    InvalidAt,
    /// `--at` names an hour above 23 or a minute above 59.
    AtOutOfRange,
    /// The local time does not exist in Hong Kong.
    Unresolvable,
}

/// The seconds in a unit of `--in`: `s`, `m` or `h`.
pub open spec fn unit_seconds(b: u8) -> Option<int> {
    if b == 115 {
        Some(1)
    } else if b == 109 {
        Some(60)
    } else if b == 104 {
        Some(3600)
    } else {
        None
    }
}

/// The offset in seconds that an `--in` value (its UTF-8 bytes) asks for:
/// an integer followed by one unit byte. `None` when it is not one.
pub open spec fn relative_offset(rel: Seq<u8>) -> Option<int> {
    if rel.len() < 2 {
        None
    } else {
        match parsed_i64(rel.take(rel.len() - 1)) {
            None => None,
            Some(n) => match unit_seconds(rel.last()) {
                None => None,
                Some(u) => Some(n * u),
            },
        }
    }
}

/// The inputs on which the tool panics while reading `--in`: the last
/// character is not a single byte, the offset exceeds what a
/// `chrono::TimeDelta` holds, or the resulting instant leaves `chrono`'s range.
pub open spec fn relative_panics(rel: Seq<u8>, now: i64) -> bool {
    &&& rel.len() >= 2
    &&& {
        ||| !is_char_boundary(rel, rel.len() - 1)
        ||| match relative_offset(rel) {
            Some(k) => !(MIN_DELTA_SECONDS <= k <= MAX_DELTA_SECONDS) || !in_time_range(now + k),
            None => false,
        }
    }
}

/// The time of day that `--at` names: `%H:%M`, or `%-H:%M` when that fails.
pub open spec fn at_time(at: Seq<char>) -> Option<(u32, u32)> {
    match parsed_time_of_day(at, "%H:%M"@) {
        Some(t) => Some(t),
        None => parsed_time_of_day(at, "%-H:%M"@),
    }
}

/// The local date that the times are taken on: `--date`, or today in Hong
/// Kong; refused when `--date` does not read or its midnight does not exist.
pub open spec fn base_date(date: Option<Seq<char>>, now: i64) -> Result<(i32, u32, u32), TimeError> {
    match date {
        None => {
            let t = hkt_local(now).unwrap();
            Ok((t.year, t.month, t.day))
        },
        Some(d) => match parsed_date(d, "%Y-%m-%d"@) {
            None => Err(TimeError::InvalidDate),
            Some(ymd) => if hkt_instant(ymd.0, ymd.1, ymd.2, 0, 0) is None {
                Err(TimeError::Unresolvable)
            } else {
                Ok(ymd)
            },
        },
    }
}

/// The timestamp of a local time on a date, or `Unresolvable`.
pub open spec fn instant_on(ymd: (i32, u32, u32), hour: u32, minute: u32) -> Result<Option<i64>, TimeError> {
    match hkt_instant(ymd.0, ymd.1, ymd.2, hour, minute) {
        None => Err(TimeError::Unresolvable),
        Some(ts) => Ok(Some(ts)),
    }
}

/// What the time options ask for: `--in` wins and is an offset from `now`;
/// otherwise `--at` on the base date, or 09:00 on `--date`; nothing when no
/// option is given.
pub open spec fn requested_time(
    rel: Option<Seq<u8>>,
    at: Option<Seq<char>>,
    date: Option<Seq<char>>,
    now: i64,
) -> Result<Option<i64>, TimeError> {
    match rel {
        Some(r) => match relative_offset(r) {
            None => Err(TimeError::InvalidIn),
            Some(k) => Ok(Some((now + k) as i64)),
        },
        None => match base_date(date, now) {
            Err(e) => Err(e),
            Ok(ymd) => match at {
                Some(a) => match at_time(a) {
                    None => Err(TimeError::InvalidAt),
                    Some(hm) => if hm.0 > 23 || hm.1 > 59 {
                        Err(TimeError::AtOutOfRange)
                    } else {
                        instant_on(ymd, hm.0, hm.1)
                    },
                },
                None => if date is Some {
                    instant_on(ymd, 9, 0)
                } else {
                    Ok(None)
                },
            },
        },
    }
}

/// What the time options mean, over all inputs:
/// - without `--in`, an `--at` that reads (as `%H:%M`, else `%-H:%M`) as
///   hour `h` and minute `m` gives the Hong Kong instant of `h:m` on the base
///   date: the `--date` read as `%Y-%m-%d`, or without it today's date in
///   Hong Kong; refused as unresolvable when that local time does not exist;
/// - `--date` alone gives 09:00 on that date;
/// - no option gives no time;
/// - `--in` gives now plus its offset.
pub proof fn lemma_requested_time_meaning(
    rel: Seq<u8>,
    at: Seq<char>,
    date: Option<Seq<char>>,
    now: i64,
    h: u32,
    m: u32,
    y: i32,
    mo: u32,
    d: u32,
)
    ensures
        ({
            let read = match parsed_time_of_day(at, "%H:%M"@) {
                Some(hm) => Some(hm),
                None => parsed_time_of_day(at, "%-H:%M"@),
            };
            let on_date = match date {
                None => hkt_local(now) matches Some(t) && t.year == y && t.month == mo && t.day == d,
                Some(ds) => parsed_date(ds, "%Y-%m-%d"@) == Some((y, mo, d)) && hkt_instant(y, mo, d, 0, 0) is Some,
            };
            (read == Some((h, m)) && h < 24 && m < 60 && on_date) ==>
                requested_time(None, Some(at), date, now) == match hkt_instant(y, mo, d, h, m) {
                    Some(ts) => Ok::<Option<i64>, TimeError>(Some(ts)),
                    None => Err(TimeError::Unresolvable),
                }
        }),
        (date matches Some(ds) && parsed_date(ds, "%Y-%m-%d"@) == Some((y, mo, d))
            && hkt_instant(y, mo, d, 0, 0) is Some) ==>
            requested_time(None, None, date, now) == match hkt_instant(y, mo, d, 9, 0) {
                Some(ts) => Ok::<Option<i64>, TimeError>(Some(ts)),
                None => Err(TimeError::Unresolvable),
            },
        hkt_local(now) is Some ==> requested_time(None, None, None, now) == Ok::<Option<i64>, TimeError>(None),
        relative_offset(rel) matches Some(k) ==>
            requested_time(Some(rel), Some(at), date, now) == Ok::<Option<i64>, TimeError>(Some((now + k) as i64))
            && requested_time(Some(rel), None, date, now) == Ok::<Option<i64>, TimeError>(Some((now + k) as i64)),
{
}

/// The bytes of an optional text.
pub open spec fn option_bytes(s: Option<&str>) -> Option<Seq<u8>> {
    match s {
        Some(t) => Some(t.spec_bytes()),
        None => None,
    }
}

/// The characters of an optional text.
pub open spec fn option_chars(s: Option<&str>) -> Option<Seq<char>> {
    match s {
        Some(t) => Some(t@),
        None => None,
    }
}

/// Whether reading this `--in` value at `now` makes the tool panic (see
/// `relative_panics`).
pub fn relative_would_panic(rel: &str, now: i64) -> (r: bool)
    ensures
        r == relative_panics(rel.spec_bytes(), now),
{
    let b = rel.as_bytes();
    let len = b.len();
    if len < 2 {
        return false;
    }
    if !rel.is_char_boundary(len - 1) {
        return true;
    }
    match relative_seconds(b) {
        Some(k) => {
            if k < MIN_DELTA_SECONDS as i128 || k > MAX_DELTA_SECONDS as i128 {
                true
            } else {
                let t = now as i128 + k;
                t < MIN_TIMESTAMP as i128 || t > MAX_TIMESTAMP as i128
            }
        },
        None => false,
    }
}

/// The offset that an `--in` value asks for.
fn relative_seconds(b: &[u8]) -> (r: Option<i128>)
    ensures
        r matches Some(k) ==> relative_offset(b@) == Some(k as int),
        r is None ==> relative_offset(b@) is None,
{
    let len = b.len();
    if len < 2 {
        return None;
    }
    let n = match parse_i64(b, len - 1) {
        Some(n) => n,
        None => return None,
    };
    let last = b[len - 1];
    let unit: i128 = if last == 115u8 {
        1
    } else if last == 109u8 {
        60
    } else if last == 104u8 {
        3600
    } else {
        return None;
    };
    assert(b@.last() == last);
    Some(n as i128 * unit)
}

/// Turns the time options of `add` and `edit` into a due timestamp.
///
/// `--in` (such as `30m`, `2h`, `90s`) is an offset from `now`; otherwise
/// `--at HH:MM` is taken on `--date YYYY-MM-DD` or on today in Hong Kong,
/// and `--date` alone means 09:00 on that date. `Ok(None)` when no option is
/// given. The inputs on which the tool panics are left out.
pub fn parse_time(rel: Option<&str>, at: Option<&str>, date: Option<&str>, now: i64) -> (r: Result<Option<i64>, TimeError>)
    requires
        valid_now(now),
        rel matches Some(x) ==> !relative_panics(x.spec_bytes(), now),
    ensures
        r == requested_time(option_bytes(rel), option_chars(at), option_chars(date), now),
{
    if let Some(x) = rel {
        let b = x.as_bytes();
        return match relative_seconds(b) {
            None => Err(TimeError::InvalidIn),
            Some(k) => Ok(Some((now as i128 + k) as i64)),
        };
    }
    let today = match hkt_from_ts(now) {
        Some(t) => t,
        None => return Ok(None),
    };
    let mut ymd: (i32, u32, u32) = (today.year, today.month, today.day);
    if let Some(d) = date {
        match parse_date(d, "%Y-%m-%d") {
            None => return Err(TimeError::InvalidDate),
            Some(p) => {
                if resolve_hkt(p.0, p.1, p.2, 0, 0).is_none() {
                    return Err(TimeError::Unresolvable);
                }
                ymd = p;
            },
        }
    }
    if let Some(a) = at {
        let hm = match parse_time_of_day(a, "%H:%M") {
            Some(t) => t,
            None => match parse_time_of_day(a, "%-H:%M") {
                Some(t) => t,
                None => return Err(TimeError::InvalidAt),
            },
        };
        if hm.0 > 23 || hm.1 > 59 {
            return Err(TimeError::AtOutOfRange);
        }
        return match resolve_hkt(ymd.0, ymd.1, ymd.2, hm.0, hm.1) {
            None => Err(TimeError::Unresolvable),
            Some(ts) => Ok(Some(ts)),
        };
    }
    if date.is_some() {
        return match resolve_hkt(ymd.0, ymd.1, ymd.2, 9, 0) {
            None => Err(TimeError::Unresolvable),
            Some(ts) => Ok(Some(ts)),
        };
    }
    Ok(None)
}

} // verus!
