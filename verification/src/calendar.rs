//! Calendar values as plain integers: a date is its day number counted from
//! January 1 of year 1 (day 1), a time of day is its whole seconds since
//! midnight plus a nanosecond fraction (which reaches past one second only
//! inside a leap second). Weekdays, parsing and spans between instants come
//! from chrono.
use vstd::prelude::*;

verus! {

/// The first day number that chrono's `NaiveDate` can hold.
pub const MIN_DAY: i32 = -95746129;

/// The last day number that chrono's `NaiveDate` can hold.
pub const MAX_DAY: i32 = 95745399;

pub open spec fn day_in_range(days: int) -> bool {
    MIN_DAY <= days <= MAX_DAY
}

#[derive(Clone, Copy, Debug, PartialEq, Eq, Structural)]
pub enum Weekday {
    Mon,
    Tue,
    Wed,
    Thu,
    Fri,
    Sat,
    Sun,
}

impl Weekday {
    pub open spec fn index(self) -> nat {
        match self {
            Weekday::Mon => 0,
            Weekday::Tue => 1,
            Weekday::Wed => 2,
            Weekday::Thu => 3,
            Weekday::Fri => 4,
            Weekday::Sat => 5,
            Weekday::Sun => 6,
        }
    }

    pub open spec fn from_index_spec(i: nat) -> Weekday {
        if i == 0 {
            Weekday::Mon
        } else if i == 1 {
            Weekday::Tue
        } else if i == 2 {
            Weekday::Wed
        } else if i == 3 {
            Weekday::Thu
        } else if i == 4 {
            Weekday::Fri
        } else if i == 5 {
            Weekday::Sat
        } else {
            Weekday::Sun
        }
    }

    /// Days since the preceding Monday (Monday is 0, Sunday is 6).
    pub fn num_days_from_monday(&self) -> (r: u32)
        ensures
            r == self.index(),
            r < 7,
    {
        match self {
            Weekday::Mon => 0,
            Weekday::Tue => 1,
            Weekday::Wed => 2,
            Weekday::Thu => 3,
            Weekday::Fri => 4,
            Weekday::Sat => 5,
            Weekday::Sun => 6,
        }
    }

    /// The weekday `i` days after Monday.
    pub fn from_index(i: u32) -> (w: Weekday)
        requires
            i < 7,
        ensures
            w.index() == i,
            w == Weekday::from_index_spec(i as nat),
    {
        if i == 0 {
            Weekday::Mon
        } else if i == 1 {
            Weekday::Tue
        } else if i == 2 {
            Weekday::Wed
        } else if i == 3 {
            Weekday::Thu
        } else if i == 4 {
            Weekday::Fri
        } else if i == 5 {
            Weekday::Sat
        } else {
            Weekday::Sun
        }
    }

    /// The three-letter English name, as chrono displays a weekday.
    pub open spec fn short_name(self) -> Seq<char> {
        match self {
            Weekday::Mon => "Mon"@,
            Weekday::Tue => "Tue"@,
            Weekday::Wed => "Wed"@,
            Weekday::Thu => "Thu"@,
            Weekday::Fri => "Fri"@,
            Weekday::Sat => "Sat"@,
            Weekday::Sun => "Sun"@,
        }
    }

    pub fn short_name_str(&self) -> (s: &'static str)
        ensures
            s@ == self.short_name(),
    {
        match self {
            Weekday::Mon => "Mon",
            Weekday::Tue => "Tue",
            Weekday::Wed => "Wed",
            Weekday::Thu => "Thu",
            Weekday::Fri => "Fri",
            Weekday::Sat => "Sat",
            Weekday::Sun => "Sun",
        }
    }
}

pub proof fn lemma_weekday_index_roundtrip(w: Weekday)
    ensures
        Weekday::from_index_spec(w.index()) == w,
        w.index() < 7,
{
}

/// A calendar date: its day number counted from January 1 of year 1 (day 1).
#[derive(Clone, Copy, Debug, PartialEq, Eq, Structural)]
pub struct Date {
    pub days: i32,
}

impl Date {
    pub open spec fn wf(self) -> bool {
        day_in_range(self.days as int)
    }

    /// The instant at time `time` on this date.
    pub fn and_time(&self, time: Time) -> (dt: DateTime)
        ensures
            dt.date == *self,
            dt.time == time,
    {
        DateTime { date: *self, time }
    }

    /// The day of the week of this date.
    pub fn weekday(&self) -> (w: Weekday)
        requires
            self.wf(),
        ensures
            w == weekday_of(*self),
    {
        match weekday_of_day(self.days) {
            Some(w) => w,
            None => Weekday::Mon,
        }
    }
}

/// A time of day: whole seconds past midnight and nanoseconds past that
/// second. The nanoseconds reach one second or more only inside a leap second,
/// which chrono places at the end of a minute.
#[derive(Clone, Copy, Debug, PartialEq, Eq, Structural)]
pub struct Time {
    pub secs: u32,
    pub nanos: u32,
}

impl Time {
    pub open spec fn wf(self) -> bool {
        &&& self.secs < 86400
        &&& self.nanos < 2_000_000_000
        &&& self.nanos >= 1_000_000_000 ==> self.secs % 60 == 59
    }

    pub open spec fn spec_before(self, other: Time) -> bool {
        self.secs < other.secs || (self.secs == other.secs && self.nanos < other.nanos)
    }

    /// Whether `self` comes strictly earlier in the day than `other`.
    pub fn before(&self, other: &Time) -> (r: bool)
        ensures
            r == self.spec_before(*other),
    {
        self.secs < other.secs || (self.secs == other.secs && self.nanos < other.nanos)
    }

    pub open spec fn spec_hour(self) -> int {
        self.secs as int / 3600
    }

    pub open spec fn spec_minute(self) -> int {
        (self.secs as int / 60) % 60
    }
}

/// A date and a time of day, without a time zone.
#[derive(Clone, Copy, Debug, PartialEq, Eq, Structural)]
pub struct DateTime {
    pub date: Date,
    pub time: Time,
}

impl DateTime {
    pub open spec fn wf(self) -> bool {
        self.date.wf() && self.time.wf()
    }

    /// Chronological order: by date, then by time of day.
    pub open spec fn spec_before(self, other: DateTime) -> bool {
        self.date.days < other.date.days || (self.date.days == other.date.days
            && self.time.spec_before(other.time))
    }

    pub open spec fn spec_at_or_before(self, other: DateTime) -> bool {
        self.spec_before(other) || self == other
    }

    /// Whether `self` is strictly earlier than `other`.
    pub fn before(&self, other: &DateTime) -> (r: bool)
        ensures
            r == self.spec_before(*other),
    {
        self.date.days < other.date.days || (self.date.days == other.date.days
            && self.time.before(&other.time))
    }

    /// Whether `self` is earlier than or equal to `other`.
    pub fn at_or_before(&self, other: &DateTime) -> (r: bool)
        ensures
            r == self.spec_at_or_before(*other),
    {
        self.before(other) || (self.date.days == other.date.days && self.time.secs
            == other.time.secs && self.time.nanos == other.time.nanos)
    }
}

pub proof fn lemma_order_total(a: DateTime, b: DateTime)
    ensures
        a.spec_before(b) || b.spec_before(a) || a == b,
        !(a.spec_before(b) && b.spec_before(a)),
        !a.spec_before(a),
{
}

pub proof fn lemma_order_transitive(a: DateTime, b: DateTime, c: DateTime)
    requires
        a.spec_before(b),
        b.spec_before(c),
    ensures
        a.spec_before(c),
{
}

/// The weekday number (Monday is 0) of the date with day number `days`: day
/// 1, January 1 of year 1 in the proleptic Gregorian calendar, is a Monday,
/// and weekdays repeat every seven days.
pub open spec fn weekday_number(days: int) -> int {
    (days - 1) % 7
}

pub open spec fn weekday_of(d: Date) -> Weekday {
    Weekday::from_index_spec(weekday_number(d.days as int) as nat)
}

/// Calls chrono's `NaiveDate::from_num_days_from_ce_opt` and the weekday of
/// the date it builds. Claims: a date exists exactly for the day numbers in
/// chrono's range (its source bounds the year to -262143..=262142), and its
/// weekday number counts on from Monday for day 1, seven days to the week
/// (`num_days_from_ce` counts days from January 1 of year 1, a Monday in the
/// proleptic Gregorian calendar that chrono uses).
#[verifier::external_body]
fn chrono_weekday_number_of(days: i32) -> (r: Option<u32>)
    ensures
        (r is Some) == day_in_range(days as int),
        r matches Some(n) ==> n == weekday_number(days as int),
{
    match chrono::NaiveDate::from_num_days_from_ce_opt(days) {
        Some(d) => Some(chrono::Datelike::weekday(&d).num_days_from_monday()),
        None => None,
    }
}

/// The weekday of the date with day number `days`, or `None` when chrono
/// cannot represent that date.
pub fn weekday_of_day(days: i32) -> (r: Option<Weekday>)
    ensures
        (r is Some) == day_in_range(days as int),
        r matches Some(w) ==> w == weekday_of(Date { days }),
{
    match chrono_weekday_number_of(days) {
        Some(n) => Some(Weekday::from_index(n)),
        None => None,
    }
}

/// What chrono's `NaiveTime::parse_from_str(s, "%H:%M")` gives, as whole
/// seconds since midnight and nanoseconds.
pub uninterp spec fn chrono_parse_hm(s: Seq<char>) -> Option<(u32, u32)>;

/// What chrono's `NaiveTime::parse_from_str(s, "%H:%M:%S")` gives, as whole
/// seconds since midnight and nanoseconds.
pub uninterp spec fn chrono_parse_hms(s: Seq<char>) -> Option<(u32, u32)>;

/// The full English name of weekday `i` (Monday is 0), in lower case.
pub open spec fn weekday_long_name(i: int) -> Seq<char> {
    if i == 0 {
        "monday"@
    } else if i == 1 {
        "tuesday"@
    } else if i == 2 {
        "wednesday"@
    } else if i == 3 {
        "thursday"@
    } else if i == 4 {
        "friday"@
    } else if i == 5 {
        "saturday"@
    } else {
        "sunday"@
    }
}

/// `s` spells the lower-case ASCII word `w`, each letter in either case.
pub open spec fn spells_ignoring_case(s: Seq<char>, w: Seq<char>) -> bool {
    &&& s.len() == w.len()
    &&& forall|k: int|
        0 <= k < s.len() ==> s[k] == w[k] || (s[k] as u32) + 32 == (#[trigger] w[k] as u32)
}

/// `s` names weekday `i`: its three-letter abbreviation or its full name,
/// letters in either case.
pub open spec fn names_weekday(s: Seq<char>, i: int) -> bool {
    spells_ignoring_case(s, weekday_long_name(i).take(3)) || spells_ignoring_case(s, weekday_long_name(i))
}

/// The weekday, as days from Monday, that chrono's `Weekday::from_str` reads
/// in `s`: only the abbreviation and the full name are accepted, in any ASCII
/// letter case.
pub open spec fn weekday_from_text(s: Seq<char>) -> Option<u32> {
    if names_weekday(s, 0) {
        Some(0)
    } else if names_weekday(s, 1) {
        Some(1)
    } else if names_weekday(s, 2) {
        Some(2)
    } else if names_weekday(s, 3) {
        Some(3)
    } else if names_weekday(s, 4) {
        Some(4)
    } else if names_weekday(s, 5) {
        Some(5)
    } else if names_weekday(s, 6) {
        Some(6)
    } else {
        None
    }
}

pub open spec fn time_of_pair(p: (u32, u32)) -> Time {
    Time { secs: p.0, nanos: p.1 }
}

/// The value of the decimal digit `c`.
pub open spec fn digit_value(c: char) -> int {
    (c as int) - ('0' as int)
}

pub open spec fn is_digit(c: char) -> bool {
    '0' <= c && c <= '9'
}

/// `s` is a time written `HH:MM`: two digits of an hour below 24, a colon,
/// and two digits of a minute below 60.
pub open spec fn is_hm_text(s: Seq<char>) -> bool {
    &&& s.len() == 5
    &&& is_digit(s[0]) && is_digit(s[1]) && s[2] == ':' && is_digit(s[3]) && is_digit(s[4])
    &&& 10 * digit_value(s[0]) + digit_value(s[1]) < 24
    &&& 10 * digit_value(s[3]) + digit_value(s[4]) < 60
}

/// The time of day that an `HH:MM` text names, as whole seconds since
/// midnight and nanoseconds.
pub open spec fn hm_value(s: Seq<char>) -> (u32, u32) {
    (
        (3600 * (10 * digit_value(s[0]) + digit_value(s[1])) + 60 * (10 * digit_value(s[3])
            + digit_value(s[4]))) as u32,
        0u32,
    )
}

/// Calls chrono's `NaiveTime::parse_from_str` with the format `%H:%M`.
/// Claims: the result is a function of `s`; a parsed time satisfies chrono's
/// own invariant on `NaiveTime` (under a day of seconds, under two seconds of
/// nanoseconds, and a second or more of nanoseconds only in the last second
/// of a minute); and a text of two hour digits, a colon and two minute digits
/// (the form `%H:%M` formats) reads as that hour and minute. Which other
/// strings parse is left to chrono.
#[verifier::external_body]
fn chrono_time_hm(s: &str) -> (r: Option<(u32, u32)>)
    ensures
        r == chrono_parse_hm(s@),
        r matches Some(p) ==> time_of_pair(p).wf(),
        is_hm_text(s@) ==> r == Some(hm_value(s@)),
{
    match chrono::NaiveTime::parse_from_str(s, "%H:%M") {
        Ok(t) => Some((chrono::Timelike::num_seconds_from_midnight(&t), chrono::Timelike::nanosecond(&t))),
        Err(_) => None,
    }
}

/// Calls chrono's `NaiveTime::parse_from_str` with the format `%H:%M:%S`.
/// Claims the same as for `%H:%M`; which strings parse is left to chrono.
#[verifier::external_body]
fn chrono_time_hms(s: &str) -> (r: Option<(u32, u32)>)
    ensures
        r == chrono_parse_hms(s@),
        r matches Some(p) ==> time_of_pair(p).wf(),
{
    match chrono::NaiveTime::parse_from_str(s, "%H:%M:%S") {
        Ok(t) => Some((chrono::Timelike::num_seconds_from_midnight(&t), chrono::Timelike::nanosecond(&t))),
        Err(_) => None,
    }
}

/// Calls chrono's `Weekday::from_str`. Claims what its documentation and
/// source (`scan::short_or_long_weekday`) show: the text must be a weekday's
/// three-letter abbreviation or its full name, ASCII letters in either case,
/// and nothing more.
#[verifier::external_body]
fn chrono_weekday_from_str(s: &str) -> (r: Option<u32>)
    ensures
        r == weekday_from_text(s@),
{
    match s.parse::<chrono::Weekday>() {
        Ok(w) => Some(w.num_days_from_monday()),
        Err(_) => None,
    }
}

pub open spec fn parsed_time_spec(s: Seq<char>) -> Option<Time> {
    match chrono_parse_hm(s) {
        Some(p) => Some(time_of_pair(p)),
        None => match chrono_parse_hms(s) {
            Some(p) => Some(time_of_pair(p)),
            None => None,
        },
    }
}

/// Parses a time written `HH:MM`, or failing that `HH:MM:SS`.
pub fn parse_time(s: &str) -> (r: Option<Time>)
    ensures
        r == parsed_time_spec(s@),
        r matches Some(t) ==> t.wf(),
        is_hm_text(s@) ==> r == Some(time_of_pair(hm_value(s@))),
{
    match chrono_time_hm(s) {
        Some(p) => Some(Time { secs: p.0, nanos: p.1 }),
        None => match chrono_time_hms(s) {
            Some(p) => Some(Time { secs: p.0, nanos: p.1 }),
            None => None,
        },
    }
}

pub open spec fn parsed_weekday_spec(s: Seq<char>) -> Option<Weekday> {
    match weekday_from_text(s) {
        Some(n) => Some(Weekday::from_index_spec(n as nat)),
        None => None,
    }
}

/// Parses a weekday name the way chrono does.
pub fn parse_weekday(s: &str) -> (r: Option<Weekday>)
    ensures
        r == parsed_weekday_spec(s@),
{
    match chrono_weekday_from_str(s) {
        Some(n) => Some(Weekday::from_index(n)),
        None => None,
    }
}

/// The whole seconds chrono counts from `start` to `end`,
/// `(end - start).num_seconds()`: the days between them at 86400 seconds
/// each, plus the seconds between the times of day (a leap second one of the
/// two stands in is counted once it has passed), plus the nanoseconds carried
/// into whole seconds; the span is then cut toward zero.
pub open spec fn chrono_seconds_between(end: DateTime, start: DateTime) -> int {
    let leap: int = if end.time.secs > start.time.secs && start.time.nanos >= 1_000_000_000 {
        1
    } else if end.time.secs < start.time.secs && end.time.nanos >= 1_000_000_000 {
        -1
    } else {
        0
    };
    let frac = end.time.nanos - start.time.nanos;
    let secs = (end.date.days - start.date.days) * 86400 + (end.time.secs - start.time.secs) + leap + frac
        / 1_000_000_000;
    let nanos = frac % 1_000_000_000;
    if secs < 0 && nanos > 0 {
        secs + 1
    } else {
        secs
    }
}

/// Calls chrono's `NaiveDateTime` subtraction and `TimeDelta::num_seconds`.
/// Claims what chrono's source computes (`NaiveDate::signed_duration_since`
/// counts the days between the dates, `NaiveTime::signed_duration_since`
/// adjusts for a leap second and carries the nanoseconds, `num_seconds` cuts
/// toward zero), as `chrono_seconds_between` states it.
#[verifier::external_body]
fn chrono_seconds_from(end: &DateTime, start: &DateTime) -> (r: i64)
    requires
        end.wf(),
        start.wf(),
    ensures
        r == chrono_seconds_between(*end, *start),
{
    let e = chrono::NaiveDate::from_num_days_from_ce_opt(end.date.days).unwrap().and_time(
        chrono::NaiveTime::from_num_seconds_from_midnight_opt(end.time.secs, end.time.nanos).unwrap(),
    );
    let s = chrono::NaiveDate::from_num_days_from_ce_opt(start.date.days).unwrap().and_time(
        chrono::NaiveTime::from_num_seconds_from_midnight_opt(start.time.secs, start.time.nanos).unwrap(),
    );
    (e - s).num_seconds()
}

/// Whole seconds from `start` to `end`, negative when `end` is earlier.
pub fn seconds_between(end: &DateTime, start: &DateTime) -> (r: i64)
    requires
        end.wf(),
        start.wf(),
    ensures
        r == chrono_seconds_between(*end, *start),
{
    chrono_seconds_from(end, start)
}

/// What chrono's `NaiveDateTime::from_str` gives for `s`: the day number,
/// the seconds since midnight and the nanoseconds of the instant read, or
/// the debug text of chrono's parse error.
pub uninterp spec fn chrono_parse_datetime(s: Seq<char>) -> Result<(i32, u32, u32), Seq<char>>;

pub open spec fn datetime_of_triple(p: (i32, u32, u32)) -> DateTime {
    DateTime { date: Date { days: p.0 }, time: Time { secs: p.1, nanos: p.2 } }
}

/// Calls chrono's `NaiveDateTime::from_str` (the `%Y-%m-%dT%H:%M:%S%.f`
/// form). Claims: the
/// outcome is a function of `s`, and an instant read satisfies chrono's own
/// invariants on `NaiveDate` and `NaiveTime` (the day number in chrono's
/// range, the time of day as `Time::wf` states it). Which strings parse, and
/// the text of the error, are left to chrono.
#[verifier::external_body]
fn chrono_datetime_from_str(s: &str) -> (r: Result<(i32, u32, u32), String>)
    ensures
        match r {
            Ok(p) => chrono_parse_datetime(s@) == Ok::<(i32, u32, u32), Seq<char>>(p)
                && datetime_of_triple(p).wf(),
            Err(m) => chrono_parse_datetime(s@) == Err::<(i32, u32, u32), Seq<char>>(m@),
        },
{
    match s.parse::<chrono::NaiveDateTime>() {
        Ok(dt) => Ok((
            chrono::Datelike::num_days_from_ce(&dt),
            chrono::Timelike::num_seconds_from_midnight(&dt),
            chrono::Timelike::nanosecond(&dt),
        )),
        Err(e) => Err(format!("{:?}", e)),
    }
}

/// Reads a date and time the way chrono's `NaiveDateTime::from_str` does;
/// on failure, the debug text of chrono's error.
pub fn parse_datetime(s: &str) -> (r: Result<DateTime, String>)
    ensures
        match r {
            Ok(dt) => dt.wf() && match chrono_parse_datetime(s@) {
                Ok(p) => dt == datetime_of_triple(p),
                Err(_) => false,
            },
            Err(m) => chrono_parse_datetime(s@) == Err::<(i32, u32, u32), Seq<char>>(m@),
        },
{
    match chrono_datetime_from_str(s) {
        Ok(p) => Ok(DateTime { date: Date { days: p.0 }, time: Time { secs: p.1, nanos: p.2 } }),
        Err(m) => Err(m),
    }
}

/// What chrono gives for `dt - TimeDelta::hours(hours)`: `None` where that
/// panics (the hours out of `TimeDelta`'s range, or the result out of
/// `NaiveDateTime`'s).
pub uninterp spec fn chrono_hours_before(dt: DateTime, hours: i64) -> Option<DateTime>;

/// Calls chrono's `TimeDelta::try_hours` and
/// `NaiveDateTime::checked_sub_signed`. Claims: the outcome is a function of
/// the instant and the hours, and an instant given back satisfies chrono's
/// invariants. How leap seconds shift is left to chrono.
#[verifier::external_body]
fn chrono_sub_hours(dt: &DateTime, hours: i64) -> (r: Option<DateTime>)
    requires
        dt.wf(),
    ensures
        r == chrono_hours_before(*dt, hours),
        r matches Some(t) ==> t.wf(),
{
    let d = chrono::NaiveDate::from_num_days_from_ce_opt(dt.date.days).unwrap().and_time(
        chrono::NaiveTime::from_num_seconds_from_midnight_opt(dt.time.secs, dt.time.nanos).unwrap(),
    );
    let shifted = match chrono::TimeDelta::try_hours(hours) {
        Some(delta) => d.checked_sub_signed(delta),
        None => None,
    };
    match shifted {
        Some(t) => Some(DateTime {
            date: Date { days: chrono::Datelike::num_days_from_ce(&t) },
            time: Time { secs: chrono::Timelike::num_seconds_from_midnight(&t), nanos: chrono::Timelike::nanosecond(&t) },
        }),
        None => None,
    }
}

/// The instant `hours` hours before `dt`, or `None` when that falls outside
/// what chrono can represent.
pub fn hours_before(dt: &DateTime, hours: i64) -> (r: Option<DateTime>)
    requires
        dt.wf(),
    ensures
        r == chrono_hours_before(*dt, hours),
        r matches Some(t) ==> t.wf(),
{
    chrono_sub_hours(dt, hours)
}

/// Whether `w` is among `days`.
pub fn contains_weekday(days: &Vec<Weekday>, w: Weekday) -> (r: bool)
    ensures
        r == days@.contains(w),
{
    let mut i: usize = 0;
    while i < days.len()
        invariant
            i <= days@.len(),
            forall|k: int| 0 <= k < i ==> days@[k] != w,
        decreases days@.len() - i,
    {
        if days[i] == w {
            assert(days@[i as int] == w);
            return true;
        }
        i = i + 1;
    }
    false
}

/// A weekday's three-letter name reads back as that weekday.
pub proof fn lemma_short_name_reads_back(w: Weekday)
    ensures
        parsed_weekday_spec(w.short_name()) == Some(w),
{
    reveal_strlit("Mon");
    reveal_strlit("Tue");
    reveal_strlit("Wed");
    reveal_strlit("Thu");
    reveal_strlit("Fri");
    reveal_strlit("Sat");
    reveal_strlit("Sun");
    reveal_strlit("monday");
    reveal_strlit("tuesday");
    reveal_strlit("wednesday");
    reveal_strlit("thursday");
    reveal_strlit("friday");
    reveal_strlit("saturday");
    reveal_strlit("sunday");
    let t = w.short_name();
    let i = w.index() as int;
    assert(weekday_long_name(i).take(3)[0] == weekday_long_name(i)[0]);
    assert(weekday_long_name(i).take(3)[1] == weekday_long_name(i)[1]);
    assert(weekday_long_name(i).take(3)[2] == weekday_long_name(i)[2]);
    assert(spells_ignoring_case(t, weekday_long_name(i).take(3)));
    assert forall|j: int| 0 <= j < i implies !#[trigger] names_weekday(t, j) by {
        let a = weekday_long_name(j).take(3);
        assert(a[0] == weekday_long_name(j)[0]);
        assert(a[1] == weekday_long_name(j)[1]);
        assert(a[2] == weekday_long_name(j)[2]);
        if spells_ignoring_case(t, a) {
            assert(t[0] == a[0] || (t[0] as u32) + 32 == (a[0] as u32));
            assert(t[1] == a[1] || (t[1] as u32) + 32 == (a[1] as u32));
            assert(t[2] == a[2] || (t[2] as u32) + 32 == (a[2] as u32));
        }
    }
    assert(Weekday::from_index_spec(i as nat) == w);
}

} // verus!
