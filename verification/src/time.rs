//! Calendar dates, times of day and instants.
//!
//! Dates are counted in days of the proleptic Gregorian calendar with 0001-01-01 as day 1
//! (chrono's `num_days_from_ce`). An instant (`Moment`) is a UNIX timestamp together with the
//! local UTC offset that was in force at it, which is what a `DateTime<Local>` holds.
use vstd::prelude::*;
use crate::text::{dec, dec_chars, digit_char, zero_pad, zero_padded};
use chrono::{Datelike, TimeZone, Timelike};

verus! {

/// Day number of 1970-01-01.
pub const EPOCH_CE: i32 = 719163;

/// Day number of the first date chrono can represent (year -262143, January 1).
pub const MIN_CE: i32 = -95746129;

/// Day number of the last date chrono can represent (year 262142, December 31).
pub const MAX_CE: i32 = 95745399;

/// First second (relative to 1970-01-01 00:00) of the representable range.
pub const MIN_SECS: i64 = -8334601228800;

/// Last second (relative to 1970-01-01 00:00) of the representable range.
pub const MAX_SECS: i64 = 8210266876799;

pub const SECS_PER_DAY: i64 = 86400;

/// A calendar date.
#[derive(Clone, Copy, Debug, PartialEq, Eq, Structural)]
pub struct Date {
    pub days: i32,
}

/// A time of day, in seconds since midnight.
#[derive(Clone, Copy, Debug, PartialEq, Eq, Structural)]
pub struct Time {
    pub secs: u32,
}

/// A date and a time of day, without a time zone.
#[derive(Clone, Copy, Debug, PartialEq, Eq, Structural)]
pub struct DateTime {
    pub date: Date,
    pub time: Time,
}

/// An instant together with the local UTC offset (in seconds east of UTC) in force at it.
#[derive(Clone, Copy, Debug, PartialEq, Eq, Structural)]
pub struct Moment {
    pub timestamp: i64,
    pub offset: i32,
}

impl Date {
    pub open spec fn valid(self) -> bool {
        MIN_CE <= self.days <= MAX_CE
    }

    /// Monday is 0, Sunday is 6 (0001-01-01 was a Monday).
    pub open spec fn weekday(self) -> int {
        (self.days - 1) % 7
    }

    /// `self + n days`, when that stays within the representable range.
    pub open spec fn plus(self, n: int) -> Option<Date> {
        if MIN_CE <= self.days + n <= MAX_CE {
            Some(Date { days: (self.days + n) as i32 })
        } else {
            None
        }
    }

    pub fn weekday_index(self) -> (r: u32)
        ensures
            r == self.weekday(),
            r < 7,
    {
        let w = (self.days as i64 - 1) % 7;
        if w < 0 {
            (w + 7) as u32
        } else {
            w as u32
        }
    }

    /// Adds a number of days; `None` when the result leaves the representable range.
    pub fn add_days(self, n: i64) -> (r: Option<Date>)
        requires
            self.valid(),
        ensures
            r == self.plus(n as int),
    {
        if n < -200000000 || n > 200000000 {
            return None;
        }
        let d = self.days as i64 + n;
        if d < MIN_CE as i64 || d > MAX_CE as i64 {
            None
        } else {
            Some(Date { days: d as i32 })
        }
    }

    /// Midnight at the start of this date.
    pub open spec fn midnight(self) -> DateTime {
        DateTime { date: self, time: Time { secs: 0 } }
    }

    /// Midnight at the start of this date.
    pub fn at_midnight(self) -> (r: DateTime)
        ensures
            r == self.midnight(),
    {
        DateTime { date: self, time: Time { secs: 0 } }
    }
}

impl Time {
    pub open spec fn valid(self) -> bool {
        self.secs < 86400
    }

    pub open spec fn hour(self) -> int {
        self.secs as int / 3600
    }

    pub open spec fn minute(self) -> int {
        (self.secs as int % 3600) / 60
    }
}

/// `NaiveTime::from_hms_opt`: a time when the hour, minute and second are in range.
pub open spec fn hms(h: int, m: int, s: int) -> Option<Time> {
    if 0 <= h < 24 && 0 <= m < 60 && 0 <= s < 60 {
        Some(Time { secs: (h * 3600 + m * 60 + s) as u32 })
    } else {
        None
    }
}

pub fn from_hms(h: u32, m: u32, s: u32) -> (r: Option<Time>)
    ensures
        r == hms(h as int, m as int, s as int),
        r matches Some(t) ==> t.valid(),
{
    if h < 24 && m < 60 && s < 60 {
        Some(Time { secs: h * 3600 + m * 60 + s })
    } else {
        None
    }
}

impl DateTime {
    pub open spec fn valid(self) -> bool {
        self.date.valid() && self.time.valid()
    }

    /// Seconds since 1970-01-01 00:00 of this wall-clock reading.
    pub open spec fn secs(self) -> int {
        (self.date.days - EPOCH_CE) * 86400 + self.time.secs
    }

    pub fn total_secs(self) -> (r: i64)
        requires
            self.valid(),
        ensures
            r == self.secs(),
    {
        (self.date.days as i64 - EPOCH_CE as i64) * 86400 + self.time.secs as i64
    }
}

/// The wall-clock reading `secs` seconds after 1970-01-01 00:00.
pub open spec fn datetime_at(secs: int) -> DateTime {
    DateTime {
        date: Date { days: (secs / 86400 + EPOCH_CE) as i32 },
        time: Time { secs: (secs % 86400) as u32 },
    }
}

impl Moment {
    /// Seconds since 1970-01-01 00:00 of the local wall-clock reading.
    pub open spec fn local_secs(self) -> int {
        self.timestamp + self.offset
    }

    /// Within the range chrono represents, with a valid UTC offset.
    pub open spec fn wf(self) -> bool {
        &&& -86400 < self.offset < 86400
        &&& MIN_SECS <= self.timestamp <= MAX_SECS
        &&& MIN_SECS <= self.local_secs() <= MAX_SECS
    }

    /// Whether the instant is within the range chrono represents.
    pub fn is_wf(self) -> (r: bool)
        ensures
            r == self.wf(),
    {
        -86400 < self.offset && self.offset < 86400 && MIN_SECS <= self.timestamp
            && self.timestamp <= MAX_SECS && MIN_SECS <= self.timestamp + self.offset as i64
            && self.timestamp + self.offset as i64 <= MAX_SECS
    }

    /// The local wall-clock reading (`naive_local`).
    pub open spec fn local(self) -> DateTime {
        datetime_at(self.local_secs())
    }

    pub fn naive_local(self) -> (r: DateTime)
        requires
            self.wf(),
        ensures
            r == self.local(),
            r.valid(),
            r.secs() == self.local_secs(),
    {
        let l = self.timestamp + self.offset as i64;
        let mut days = l / 86400;
        let mut secs = l % 86400;
        if secs < 0 {
            secs = secs + 86400;
            days = days - 1;
        }
        proof {
            assert(days == l as int / 86400 && secs == l as int % 86400);
        }
        DateTime { date: Date { days: (days + EPOCH_CE as i64) as i32 }, time: Time { secs: secs as u32 } }
    }

    /// The local calendar date (`date_naive`).
    pub fn date_naive(self) -> (r: Date)
        requires
            self.wf(),
        ensures
            r == self.local().date,
            r.valid(),
    {
        self.naive_local().date
    }

    /// The local time of day (`time`).
    pub fn time(self) -> (r: Time)
        requires
            self.wf(),
        ensures
            r == self.local().time,
            r.valid(),
    {
        self.naive_local().time
    }
}

/// Whole minutes from `a` to `b`, rounded toward zero (`TimeDelta::num_minutes`).
pub open spec fn minutes_between(a: Moment, b: Moment) -> int {
    let d = b.timestamp - a.timestamp;
    if d >= 0 {
        d / 60
    } else {
        -((-d) / 60)
    }
}

pub fn minutes_from(a: Moment, b: Moment) -> (r: i64)
    requires
        a.wf(),
        b.wf(),
    ensures
        r == minutes_between(a, b),
{
    let d = b.timestamp - a.timestamp;
    if d >= 0 {
        d / 60
    } else {
        -((-d) / 60)
    }
}

/// The current instant and local offset (`Local::now`).
#[verifier::external_body]
pub(crate) fn clock_now() -> (m: Moment)
    ensures
        -86400 < m.offset < 86400,
        MIN_SECS <= m.timestamp <= MAX_SECS,
{
    let now = chrono::Local::now();
    Moment { timestamp: now.timestamp(), offset: now.offset().local_minus_utc() }
}

/// Converts a wall-clock reading to an instant in the machine's time zone
/// (`Local.from_local_datetime(..).earliest()`): the earlier reading where it is ambiguous,
/// none where the reading is skipped by a transition.
#[verifier::external_body]
pub(crate) fn localize(dt: DateTime) -> (r: Option<Moment>)
    requires
        dt.valid(),
    ensures
        r matches Some(m) ==> m.wf() && m.local_secs() == dt.secs(),
{
    let naive = chrono::NaiveDate::from_num_days_from_ce_opt(dt.date.days).unwrap().and_time(
        chrono::NaiveTime::from_num_seconds_from_midnight_opt(dt.time.secs, 0).unwrap(),
    );
    match chrono::Local.from_local_datetime(&naive).earliest() {
        Some(m) => Some(Moment { timestamp: m.timestamp(), offset: m.offset().local_minus_utc() }),
        None => None,
    }
}

/// Moves an instant by a number of seconds in the machine's time zone
/// (`DateTime<Local> + TimeDelta::seconds(..)`); the offset is the one in force at the result.
#[verifier::external_body]
pub(crate) fn moment_add_secs(m: Moment, secs: i64) -> (r: Moment)
    requires
        m.wf(),
        MIN_SECS + 86400 <= m.timestamp + secs <= MAX_SECS - 86400,
    ensures
        r.timestamp == m.timestamp + secs,
        r.wf(),
{
    let base = chrono::DateTime::from_timestamp(m.timestamp, 0).unwrap().with_timezone(&chrono::Local);
    let moved = base + chrono::TimeDelta::seconds(secs);
    Moment { timestamp: moved.timestamp(), offset: moved.offset().local_minus_utc() }
}

/// The year of an era (of 146097 days, starting on a first of March) that a day of the era
/// falls in.
pub open spec fn year_of_era(doe: int) -> int {
    (doe - doe / 1460 + doe / 36524 - doe / 146096) / 365
}

/// The day of the year (counted from the first of March) that a day of the era falls on.
pub open spec fn day_of_year(doe: int) -> int {
    let yoe = year_of_era(doe);
    doe - (365 * yoe + yoe / 4 - yoe / 100)
}

/// Whether a day of an era falls in a year of the era and a day of that year.
pub open spec fn era_day_ok(doe: int) -> bool {
    0 <= year_of_era(doe) <= 399 && 0 <= day_of_year(doe) <= 365
}

proof fn lemma_era_day_bits(doe: u32)
    by (bit_vector)
    requires
        doe < 146097,
    ensures
        0 <= doe - doe / 1460,
        0 <= doe - doe / 1460 + doe / 36524 - doe / 146096,
        ((doe - doe / 1460 + doe / 36524 - doe / 146096) / 365) <= 399,
        0 <= 365 * ((doe - doe / 1460 + doe / 36524 - doe / 146096) / 365) + ((doe - doe / 1460 + doe / 36524 - doe / 146096) / 365) / 4 - ((doe - doe / 1460 + doe / 36524 - doe / 146096) / 365) / 100,
        0 <= doe - (365 * ((doe - doe / 1460 + doe / 36524 - doe / 146096) / 365) + ((doe - doe / 1460 + doe / 36524 - doe / 146096) / 365) / 4 - ((doe - doe / 1460 + doe / 36524 - doe / 146096) / 365) / 100),
        doe - (365 * ((doe - doe / 1460 + doe / 36524 - doe / 146096) / 365) + ((doe - doe / 1460 + doe / 36524 - doe / 146096) / 365) / 4 - ((doe - doe / 1460 + doe / 36524 - doe / 146096) / 365) / 100) <= 365,
{
}

proof fn lemma_year_day_bits(doy: u32)
    by (bit_vector)
    requires
        doy <= 365,
    ensures
        (5 * doy + 2) / 153 <= 11,
        0 <= doy - (153 * ((5 * doy + 2) / 153) + 2) / 5,
        doy - (153 * ((5 * doy + 2) / 153) + 2) / 5 + 1 <= 31,
{
}

proof fn lemma_era_days(doe: int)
    requires
        0 <= doe < 146097,
    ensures
        era_day_ok(doe),
{
    lemma_era_day_bits(doe as u32);
}

/// The month and day of a day of the year counted from a first of March.
proof fn lemma_year_days(doy: int)
    requires
        0 <= doy <= 365,
    ensures
        0 <= (5 * doy + 2) / 153 <= 11,
        1 <= doy - (153 * ((5 * doy + 2) / 153) + 2) / 5 + 1 <= 31,
{
    lemma_year_day_bits(doy as u32);
}

/// A valid date's month lies between 1 and 12, its day between 1 and 31, and its year
/// within 262400 years of the common era.
pub proof fn lemma_civil_range(days: int)
    requires
        MIN_CE <= days <= MAX_CE,
    ensures
        1 <= civil(days).1 <= 12,
        1 <= civil(days).2 <= 31,
        -262400 <= civil(days).0 <= 262400,
{
    reveal(civil);
    let z = days + 102268205;
    let doe = z % 146097;
    lemma_era_days(doe);
    lemma_year_days(day_of_year(doe));
}

/// Year, month and day of a day number in the proleptic Gregorian calendar (day 1 being
/// 0001-01-01), counted in eras of 400 years from a first of March.
#[verifier::opaque]
pub open spec fn civil(days: int) -> (int, int, int) {
    let z = days + 305 + 102267900;
    let era = z / 146097;
    let doe = z % 146097;
    let yoe = year_of_era(doe);
    let doy = day_of_year(doe);
    let mp = (5 * doy + 2) / 153;
    let d = doy - (153 * mp + 2) / 5 + 1;
    let m = if mp < 10 { mp + 3 } else { mp - 9 };
    (yoe + (era - 700) * 400 + (if m <= 2 { 1int } else { 0 }), m, d)
}

/// Year, month and day of a date.
pub(crate) fn date_ymd(d: Date) -> (r: (i32, u32, u32))
    requires
        d.valid(),
    ensures
        r.0 as int == civil(d.days as int).0,
        r.1 as int == civil(d.days as int).1,
        r.2 as int == civil(d.days as int).2,
        1 <= r.1 <= 12,
        1 <= r.2 <= 31,
        -262400 <= r.0 <= 262400,
{
    proof {
        lemma_civil_range(d.days as int);
        reveal(civil);
    }
    let z: u64 = (d.days as i64 + 102268205) as u64;
    let era: u64 = z / 146097;
    let doe: u64 = z % 146097;
    proof {
        lemma_era_day_bits(doe as u32);
    }
    let yoe: u64 = (doe - doe / 1460 + doe / 36524 - doe / 146096) / 365;
    let doy: u64 = doe - (365 * yoe + yoe / 4 - yoe / 100);
    proof {
        lemma_year_day_bits(doy as u32);
    }
    let mp: u64 = (5 * doy + 2) / 153;
    let day: u64 = doy - (153 * mp + 2) / 5 + 1;
    let month: u64 = if mp < 10 {
        mp + 3
    } else {
        mp - 9
    };
    let carry: i64 = if month <= 2 {
        1
    } else {
        0
    };
    let year: i64 = yoe as i64 + (era as i64 - 700) * 400 + carry;
    (year as i32, month as u32, day as u32)
}

/// Date and time read by chrono with the pattern `%Y-%m-%d %H:%M`.
pub uninterp spec fn parse_ymd_hm(s: Seq<char>) -> Option<DateTime>;

/// Date read by chrono with the pattern `%Y-%m-%d`.
pub uninterp spec fn parse_ymd(s: Seq<char>) -> Option<Date>;

/// `NaiveDateTime::parse_from_str(s, "%Y-%m-%d %H:%M")`.
#[verifier::external_body]
pub(crate) fn chrono_parse_ymd_hm(s: &[char]) -> (r: Option<DateTime>)
    ensures
        r == parse_ymd_hm(s@),
        r matches Some(dt) ==> dt.valid(),
{
    let text: String = s.iter().collect();
    match chrono::NaiveDateTime::parse_from_str(&text, "%Y-%m-%d %H:%M") {
        Ok(dt) => Some(DateTime {
            date: Date { days: dt.date().num_days_from_ce() },
            time: Time { secs: dt.time().num_seconds_from_midnight() },
        }),
        Err(_) => None,
    }
}

/// `NaiveDate::parse_from_str(s, "%Y-%m-%d")`.
#[verifier::external_body]
pub(crate) fn chrono_parse_ymd(s: &[char]) -> (r: Option<Date>)
    ensures
        r == parse_ymd(s@),
        r matches Some(d) ==> d.valid(),
{
    let text: String = s.iter().collect();
    match chrono::NaiveDate::parse_from_str(&text, "%Y-%m-%d") {
        Ok(d) => Some(Date { days: d.num_days_from_ce() }),
        Err(_) => None,
    }
}

/// Two digits of a number below one hundred.
pub open spec fn two_digits(n: int) -> Seq<char> {
    seq![digit_char(n / 10), digit_char(n % 10)]
}

/// chrono's `%Y`: four digits with leading zeros for years 0 through 9999; other years carry
/// a sign and at least four digits.
pub open spec fn year_text(y: int) -> Seq<char> {
    if 0 <= y <= 9999 {
        zero_pad(dec(y as nat), 4)
    } else if y < 0 {
        seq!['-'] + zero_pad(dec((-y) as nat), 4)
    } else {
        seq!['+'] + zero_pad(dec(y as nat), 4)
    }
}

/// `%Y-%m-%d` of a date.
pub open spec fn ymd_text(d: Date) -> Seq<char> {
    let c = civil(d.days as int);
    year_text(c.0) + seq!['-'] + two_digits(c.1) + seq!['-'] + two_digits(c.2)
}

/// `%H:%M` of a time of day.
pub open spec fn hm_text(t: Time) -> Seq<char> {
    two_digits(t.hour()) + seq![':'] + two_digits(t.minute())
}

pub fn two_digit_chars(n: u32) -> (r: Vec<char>)
    requires
        n < 100,
    ensures
        r@ == two_digits(n as int),
{
    let mut v: Vec<char> = Vec::new();
    let t = ((n / 10) as u8 + 48) as char;
    let o = ((n % 10) as u8 + 48) as char;
    v.push(t);
    v.push(o);
    assert(v@ =~= two_digits(n as int));
    v
}

/// `%Y` of a year.
pub fn format_year(y: i32) -> (r: Vec<char>)
    ensures
        r@ == year_text(y as int),
{
    if 0 <= y && y <= 9999 {
        zero_padded(dec_chars(y as u64), 4)
    } else if y < 0 {
        let mut v: Vec<char> = Vec::new();
        v.push('-');
        let mut digits = zero_padded(dec_chars((-(y as i64)) as u64), 4);
        v.append(&mut digits);
        v
    } else {
        let mut v: Vec<char> = Vec::new();
        v.push('+');
        let mut digits = zero_padded(dec_chars(y as u64), 4);
        v.append(&mut digits);
        v
    }
}

/// `%Y-%m-%d`.
pub fn format_ymd(d: Date) -> (r: Vec<char>)
    requires
        d.valid(),
    ensures
        r@ == ymd_text(d),
{
    let (y, m, day) = date_ymd(d);
    let mut out = format_year(y);
    out.push('-');
    let mut mm = two_digit_chars(m);
    out.append(&mut mm);
    out.push('-');
    let mut dd = two_digit_chars(day);
    out.append(&mut dd);
    proof {
        assert(out@ =~= ymd_text(d));
    }
    out
}

/// `%H:%M`.
pub fn format_hm(t: Time) -> (r: Vec<char>)
    requires
        t.valid(),
    ensures
        r@ == hm_text(t),
{
    let mut out = two_digit_chars(t.secs / 3600);
    out.push(':');
    let mut mm = two_digit_chars((t.secs % 3600) / 60);
    out.append(&mut mm);
    proof {
        assert(out@ =~= hm_text(t));
    }
    out
}

/// `%H:%M:%S` of a time of day.
pub open spec fn hms_text(t: Time) -> Seq<char> {
    hm_text(t) + seq![':'] + two_digits(t.secs as int % 60)
}

/// A date and time as chrono displays a `NaiveDateTime`: `YYYY-MM-DD HH:MM:SS`.
pub open spec fn naive_text(dt: DateTime) -> Seq<char> {
    ymd_text(dt.date) + seq![' '] + hms_text(dt.time)
}

/// `%H:%M:%S`.
pub fn format_hms(t: Time) -> (r: Vec<char>)
    requires
        t.valid(),
    ensures
        r@ == hms_text(t),
{
    let mut out = format_hm(t);
    out.push(':');
    let mut ss = two_digit_chars(t.secs % 60);
    out.append(&mut ss);
    proof {
        assert(out@ =~= hms_text(t));
    }
    out
}

/// The display of a date and time: `YYYY-MM-DD HH:MM:SS`.
pub fn format_naive(dt: DateTime) -> (r: Vec<char>)
    requires
        dt.valid(),
    ensures
        r@ == naive_text(dt),
{
    let mut out = format_ymd(dt.date);
    out.push(' ');
    let mut t = format_hms(dt.time);
    out.append(&mut t);
    proof {
        assert(out@ =~= naive_text(dt));
    }
    out
}

/// The English name of a weekday, Monday being 0.
pub open spec fn weekday_name(w: int) -> Seq<char> {
    if w == 0 {
        "Monday"@
    } else if w == 1 {
        "Tuesday"@
    } else if w == 2 {
        "Wednesday"@
    } else if w == 3 {
        "Thursday"@
    } else if w == 4 {
        "Friday"@
    } else if w == 5 {
        "Saturday"@
    } else {
        "Sunday"@
    }
}

/// The English name of a month, January being 1.
pub open spec fn month_name(m: int) -> Seq<char> {
    if m == 1 {
        "January"@
    } else if m == 2 {
        "February"@
    } else if m == 3 {
        "March"@
    } else if m == 4 {
        "April"@
    } else if m == 5 {
        "May"@
    } else if m == 6 {
        "June"@
    } else if m == 7 {
        "July"@
    } else if m == 8 {
        "August"@
    } else if m == 9 {
        "September"@
    } else if m == 10 {
        "October"@
    } else if m == 11 {
        "November"@
    } else {
        "December"@
    }
}

/// `%A, %B %-d, %Y`: the weekday, month and unpadded day, and the year.
pub open spec fn long_date_text(d: Date) -> Seq<char> {
    let c = civil(d.days as int);
    weekday_name(d.weekday()) + ", "@ + month_name(c.1) + " "@ + dec(c.2 as nat) + ", "@
        + year_text(c.0)
}

fn weekday_str(w: u32) -> (r: &'static str)
    ensures
        r@ == weekday_name(w as int),
{
    if w == 0 {
        "Monday"
    } else if w == 1 {
        "Tuesday"
    } else if w == 2 {
        "Wednesday"
    } else if w == 3 {
        "Thursday"
    } else if w == 4 {
        "Friday"
    } else if w == 5 {
        "Saturday"
    } else {
        "Sunday"
    }
}

fn month_str(m: u32) -> (r: &'static str)
    ensures
        r@ == month_name(m as int),
{
    if m == 1 {
        "January"
    } else if m == 2 {
        "February"
    } else if m == 3 {
        "March"
    } else if m == 4 {
        "April"
    } else if m == 5 {
        "May"
    } else if m == 6 {
        "June"
    } else if m == 7 {
        "July"
    } else if m == 8 {
        "August"
    } else if m == 9 {
        "September"
    } else if m == 10 {
        "October"
    } else if m == 11 {
        "November"
    } else {
        "December"
    }
}

/// `%A, %B %-d, %Y` of a date.
pub fn format_long_date(d: Date) -> (r: Vec<char>)
    requires
        d.valid(),
    ensures
        r@ == long_date_text(d),
{
    let (y, m, day) = date_ymd(d);
    let mut out: Vec<char> = Vec::new();
    crate::text::push_str(&mut out, weekday_str(d.weekday_index()));
    crate::text::push_str(&mut out, ", ");
    crate::text::push_str(&mut out, month_str(m));
    crate::text::push_str(&mut out, " ");
    let mut dd = dec_chars(day as u64);
    out.append(&mut dd);
    crate::text::push_str(&mut out, ", ");
    let mut yy = format_year(y);
    out.append(&mut yy);
    proof {
        assert(out@ =~= long_date_text(d));
    }
    out
}

} // verus!
