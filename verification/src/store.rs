//! Calendar data as the event store hands it out, and the rules applied to it before and
//! after the store is asked: recurrence and alert inputs, time ranges of updates, calendar
//! lookup by name or ID, search matching, conflicts, and free-slot computation.
use vstd::prelude::*;
use crate::error::{
    agrees, agrees_text, invalid_argument, invalid_argument_str, invalid_date, invalid_date_str, AppError,
    ErrorKind, Failure,
};
use crate::text::{
    chars_eq, chars_of, contains_chars, contains_text, dec, int_chars, int_text, join, join_chars,
    lowercase, push_chars, push_str, str_eq, string_from_chars, to_lowercase,
};
use crate::time::{
    clock_now, localize, moment_add_secs, naive_text, format_naive, Date, DateTime, Moment,
    Time, MAX_CE, MAX_SECS, MIN_CE, MIN_SECS,
};

verus! {

/// A calendar: its identifier, its title and the account it belongs to.
#[derive(Clone, Debug)]
pub struct CalendarInfo {
    pub id: String,
    pub title: String,
    pub source: String,
}

/// An event as the store reports it.
#[derive(Clone, Debug)]
pub struct EventInfo {
    pub id: String,
    pub title: String,
    pub start: Moment,
    pub end: Moment,
    pub calendar: String,
    pub calendar_id: String,
    pub location: Option<String>,
    pub url: Option<String>,
    pub notes: Option<String>,
    pub all_day: bool,
    pub status: String,
    pub availability: String,
    pub organizer: Option<String>,
    pub created: Option<Moment>,
    pub modified: Option<Moment>,
    pub recurring: bool,
    pub recurrence: Option<String>,
    pub recurrence_rule: Option<RecurrenceRuleInfo>,
    pub alerts: Vec<i64>,
}

impl EventInfo {
    /// Start and end lie within the range of representable instants.
    pub open spec fn wf(self) -> bool {
        self.start.wf() && self.end.wf()
    }
}

/// A free stretch of time between busy events.
#[derive(Clone, Copy, Debug, PartialEq, Eq, Structural)]
pub struct FreeSlot {
    pub start: Moment,
    pub end: Moment,
    pub duration_mins: u32,
}

/// Which occurrences of a recurring event a change applies to.
#[derive(Clone, Copy, Debug, PartialEq, Eq, Structural)]
pub enum RecurrenceScope {
    This,
    Future,
}

/// A change to an optional text field of an event.
#[derive(Clone, Copy, Debug)]
pub enum FieldUpdate<'a> {
    Keep,
    Assign(&'a str),
    Clear,
}

/// A change to the alerts of an event.
#[derive(Clone, Copy, Debug)]
pub enum AlertUpdate<'a> {
    Keep,
    Assign(&'a [i64]),
    Clear,
}

/// A recurrence rule: frequency name, interval, and an optional end by count or date.
#[derive(Clone, Debug)]
pub struct RecurrenceRuleInfo {
    pub frequency: String,
    pub interval: u32,
    pub count: Option<u32>,
    pub until: Option<Date>,
}

/// Everything needed to create an event again (for undo and templates).
#[derive(Clone, Debug)]
pub struct EventDraft {
    pub title: String,
    pub start: Moment,
    pub end: Moment,
    pub calendar: String,
    pub calendar_id: String,
    pub location: Option<String>,
    pub url: Option<String>,
    pub notes: Option<String>,
    pub all_day: bool,
    pub alerts: Vec<i64>,
    pub recurrence_rule: Option<RecurrenceRuleInfo>,
}

/// The recurrence frequencies the store supports.
#[derive(Clone, Copy, Debug, PartialEq, Eq, Structural)]
pub enum Frequency {
    Daily,
    Weekly,
    Monthly,
    Yearly,
}

/// Which occurrences a save or removal in the store affects.
#[derive(Clone, Copy, Debug, PartialEq, Eq, Structural)]
pub enum Span {
    ThisEvent,
    FutureEvents,
}

// ---------------------------------------------------------------------------------------------
// Recurrence and alert inputs
// ---------------------------------------------------------------------------------------------

/// What `validate_repeat_configuration` decides.
pub open spec fn repeat_check(has_repeat: bool, count: Option<u32>, interval: Option<u32>) -> Result<
    (),
    Failure,
> {
    if !has_repeat {
        if count is Some {
            Err((ErrorKind::InvalidArgument, "--repeat-count requires --repeat"@))
        } else if interval is Some {
            Err((ErrorKind::InvalidArgument, "--repeat-interval requires --repeat"@))
        } else {
            Ok(())
        }
    } else if count == Some(0u32) {
        Err((ErrorKind::InvalidArgument, "--repeat-count must be greater than 0"@))
    } else if interval == Some(0u32) {
        Err((ErrorKind::InvalidArgument, "--repeat-interval must be greater than 0"@))
    } else {
        Ok(())
    }
}

/// A count or interval needs a frequency, and neither may be zero.
pub fn validate_repeat_configuration(
    repeat: Option<&str>,
    repeat_count: Option<u32>,
    repeat_interval: Option<u32>,
) -> (r: Result<(), AppError>)
    ensures
        agrees(r, repeat_check(repeat is Some, repeat_count, repeat_interval)),
{
    if repeat.is_none() {
        if repeat_count.is_some() {
            return Err(invalid_argument_str("--repeat-count requires --repeat"));
        }
        if repeat_interval.is_some() {
            return Err(invalid_argument_str("--repeat-interval requires --repeat"));
        }
        return Ok(());
    }
    if repeat_count == Some(0u32) {
        return Err(invalid_argument_str("--repeat-count must be greater than 0"));
    }
    if repeat_interval == Some(0u32) {
        return Err(invalid_argument_str("--repeat-interval must be greater than 0"));
    }
    Ok(())
}

/// The index of the first negative value.
pub open spec fn first_negative(s: Seq<i64>) -> Option<int>
    decreases s.len(),
{
    if s.len() == 0 {
        None
    } else if s[0] < 0 {
        Some(0)
    } else {
        match first_negative(s.drop_first()) {
            Some(i) => Some(i + 1),
            None => None,
        }
    }
}

proof fn lemma_first_negative(s: Seq<i64>)
    ensures
        match first_negative(s) {
            Some(i) => 0 <= i < s.len() && s[i] < 0 && forall|j: int| 0 <= j < i ==> s[j] >= 0,
            None => forall|j: int| 0 <= j < s.len() ==> s[j] >= 0,
        },
    decreases s.len(),
{
    if s.len() > 0 {
        lemma_first_negative(s.drop_first());
        if s[0] >= 0 {
            assert forall|j: int| 1 <= j < s.len() implies s[j] == s.drop_first()[j - 1] by {}
        }
    }
}

/// What `validate_alert_minutes` decides: alerts are minutes before the event.
pub open spec fn alert_check(s: Seq<i64>) -> Result<(), Failure> {
    match first_negative(s) {
        Some(i) => Err(
            (
                ErrorKind::InvalidArgument,
                "--alert expects minutes before the event; got "@ + int_text(s[i] as int),
            ),
        ),
        None => Ok(()),
    }
}

/// Rejects the first negative alert offset.
pub fn validate_alert_minutes(alerts: &[i64]) -> (r: Result<(), AppError>)
    ensures
        agrees(r, alert_check(alerts@)),
{
    proof {
        lemma_first_negative(alerts@);
    }
    let mut i: usize = 0;
    while i < alerts.len()
        invariant
            i <= alerts@.len(),
            forall|j: int| 0 <= j < i ==> alerts@[j] >= 0,
            match first_negative(alerts@) {
                Some(k) => 0 <= k < alerts@.len() && alerts@[k] < 0 && forall|j: int|
                    0 <= j < k ==> alerts@[j] >= 0,
                None => forall|j: int| 0 <= j < alerts@.len() ==> alerts@[j] >= 0,
            },
        decreases alerts@.len() - i,
    {
        if alerts[i] < 0 {
            let mut m = chars_of("--alert expects minutes before the event; got ");
            let n = int_chars(alerts[i]);
            push_chars(&mut m, &n);
            proof {
                let k = first_negative(alerts@)->0;
                assert(k == i as int);
            }
            return Err(invalid_argument(m));
        }
        i += 1;
    }
    Ok(())
}

/// The recurrence rule that `--repeat`, `--repeat-count` and `--repeat-interval` describe,
/// once they pass `repeat_check`.
pub open spec fn rule_from_inputs(
    info: RecurrenceRuleInfo,
    repeat: Seq<char>,
    count: Option<u32>,
    interval: Option<u32>,
) -> bool {
    &&& info.frequency@ == repeat
    &&& info.interval == (match interval {
        Some(n) => n,
        None => 1u32,
    })
    &&& info.count == count
    &&& info.until is None
}

/// Turns the repeat options into a recurrence rule (none without `--repeat`).
pub fn recurrence_spec_from_inputs(
    repeat: Option<&str>,
    repeat_count: Option<u32>,
    repeat_interval: Option<u32>,
) -> (r: Result<Option<RecurrenceRuleInfo>, AppError>)
    ensures
        match r {
            Ok(o) => {
                &&& repeat_check(repeat is Some, repeat_count, repeat_interval) is Ok
                &&& (o is Some <==> repeat is Some)
                &&& o matches Some(info) ==> rule_from_inputs(
                    info,
                    repeat->0@,
                    repeat_count,
                    repeat_interval,
                )
            },
            Err(e) => repeat_check(repeat is Some, repeat_count, repeat_interval) matches Err(f)
                && e.is(f),
        },
{
    match validate_repeat_configuration(repeat, repeat_count, repeat_interval) {
        Err(e) => return Err(e),
        Ok(()) => {},
    }
    match repeat {
        None => Ok(None),
        Some(freq) => {
            let interval = match repeat_interval {
                Some(n) => n,
                None => 1u32,
            };
            Ok(
                Some(
                    RecurrenceRuleInfo {
                        frequency: string_from_chars(&chars_of(freq)),
                        interval,
                        count: repeat_count,
                        until: None,
                    },
                ),
            )
        },
    }
}

/// The frequency a name stands for.
pub open spec fn frequency_of(value: Seq<char>) -> Result<Frequency, Failure> {
    if value == "daily"@ {
        Ok(Frequency::Daily)
    } else if value == "weekly"@ {
        Ok(Frequency::Weekly)
    } else if value == "monthly"@ {
        Ok(Frequency::Monthly)
    } else if value == "yearly"@ {
        Ok(Frequency::Yearly)
    } else {
        Err(
            (
                ErrorKind::InvalidArgument,
                "Unknown repeat frequency: "@ + value
                    + ". Use daily, weekly, monthly, or yearly."@,
            ),
        )
    }
}

/// Reads a frequency name: daily, weekly, monthly or yearly.
pub fn recurrence_frequency_from_str(value: &str) -> (r: Result<Frequency, AppError>)
    ensures
        agrees(r, frequency_of(value@)),
{
    if str_eq(value, "daily") {
        Ok(Frequency::Daily)
    } else if str_eq(value, "weekly") {
        Ok(Frequency::Weekly)
    } else if str_eq(value, "monthly") {
        Ok(Frequency::Monthly)
    } else if str_eq(value, "yearly") {
        Ok(Frequency::Yearly)
    } else {
        let mut m = chars_of("Unknown repeat frequency: ");
        push_str(&mut m, value);
        push_str(&mut m, ". Use daily, weekly, monthly, or yearly.");
        Err(invalid_argument(m))
    }
}

/// Which occurrences a change covers: a single event is saved alone; a recurring one needs a
/// scope.
pub open spec fn save_span(is_recurring: bool, scope: Option<RecurrenceScope>) -> Result<
    Span,
    Failure,
> {
    if !is_recurring {
        Ok(Span::ThisEvent)
    } else {
        match scope {
            Some(RecurrenceScope::This) => Ok(Span::ThisEvent),
            Some(RecurrenceScope::Future) => Ok(Span::FutureEvents),
            None => Err(
                (
                    ErrorKind::InvalidArgument,
                    "Recurring events require --scope this or --scope future."@,
                ),
            ),
        }
    }
}

/// The span a save or removal uses.
pub fn recurrence_save_span(is_recurring: bool, scope: Option<RecurrenceScope>) -> (r: Result<
    Span,
    AppError,
>)
    ensures
        agrees(r, save_span(is_recurring, scope)),
{
    if !is_recurring {
        return Ok(Span::ThisEvent);
    }
    match scope {
        Some(RecurrenceScope::This) => Ok(Span::ThisEvent),
        Some(RecurrenceScope::Future) => Ok(Span::FutureEvents),
        None => Err(invalid_argument_str("Recurring events require --scope this or --scope future.")),
    }
}

/// Turning an all-day event into a timed one needs both a new start and a new end.
pub fn validate_all_day_transition(
    current_all_day: bool,
    updated_all_day: bool,
    start: Option<DateTime>,
    end: Option<DateTime>,
) -> (r: Result<(), AppError>)
    ensures
        agrees(
            r,
            if current_all_day && !updated_all_day && (start is None || end is None) {
                Err(
                    (
                        ErrorKind::InvalidArgument,
                        "Converting an all-day event to a timed event requires both --start and --end."@,
                    ),
                )
            } else {
                Ok(())
            },
        ),
{
    if current_all_day && !updated_all_day && (start.is_none() || end.is_none()) {
        return Err(
            invalid_argument_str(
                "Converting an all-day event to a timed event requires both --start and --end.",
            ),
        );
    }
    Ok(())
}

// ---------------------------------------------------------------------------------------------
// Busy time
// ---------------------------------------------------------------------------------------------

/// Whether an event occupies time: it is neither canceled nor marked free.
pub open spec fn blocks(e: EventInfo) -> bool {
    e.status@ != "canceled"@ && e.availability@ != "free"@
}

/// Whether an event takes up time in the schedule.
pub fn event_blocks_schedule(event: &EventInfo) -> (r: bool)
    ensures
        r == blocks(*event),
{
    !str_eq(event.status.as_str(), "canceled") && !str_eq(event.availability.as_str(), "free")
}

/// Whether a busy event overlaps the half-open range from `range_start` to `range_end`.
pub open spec fn conflicts(e: EventInfo, range_start: Moment, range_end: Moment) -> bool {
    blocks(e) && e.start.timestamp < range_end.timestamp && e.end.timestamp
        > range_start.timestamp
}

/// Whether a busy event overlaps a range.
pub fn event_conflicts_range(event: &EventInfo, range_start: Moment, range_end: Moment) -> (r:
    bool)
    ensures
        r == conflicts(*event, range_start, range_end),
{
    event_blocks_schedule(event) && event.start.timestamp < range_end.timestamp
        && event.end.timestamp > range_start.timestamp
}

/// A busy event conflicts with a range exactly when the two half-open spans overlap: it
/// starts before the range ends and ends after the range starts. An event that starts when
/// the range ends, or ends when it starts, does not conflict; an event that takes up no time
/// (canceled or free) never does.
pub proof fn law_conflict_is_half_open_overlap(e: EventInfo, range_start: Moment, range_end: Moment)
    ensures
        conflicts(e, range_start, range_end) ==> e.status@ != "canceled"@ && e.availability@ != "free"@,
        e.status@ != "canceled"@ && e.availability@ != "free"@ ==> (conflicts(e, range_start, range_end)
            <==> (e.start.timestamp < range_end.timestamp && range_start.timestamp < e.end.timestamp)),
        e.start.timestamp >= range_end.timestamp ==> !conflicts(e, range_start, range_end),
        e.end.timestamp <= range_start.timestamp ==> !conflicts(e, range_start, range_end),
{
}

/// The later of two instants; the second when they are the same instant.
pub open spec fn later(a: Moment, b: Moment) -> Moment {
    if a.timestamp > b.timestamp {
        a
    } else {
        b
    }
}

/// The earlier of two instants; the first when they are the same instant.
pub open spec fn earlier(a: Moment, b: Moment) -> Moment {
    if b.timestamp < a.timestamp {
        b
    } else {
        a
    }
}

/// The part of a window that an event blocks: the whole window for a busy all-day event,
/// the overlap for a busy timed one, nothing when they do not overlap.
pub open spec fn blocked_interval(e: EventInfo, window_start: Moment, window_end: Moment) -> Option<
    (Moment, Moment),
> {
    if !blocks(e) {
        None
    } else if e.end.timestamp <= window_start.timestamp || e.start.timestamp
        >= window_end.timestamp {
        None
    } else if e.all_day {
        Some((window_start, window_end))
    } else {
        Some((later(e.start, window_start), earlier(e.end, window_end)))
    }
}

/// The stretch of a window that an event blocks.
pub fn blocked_interval_for_window(event: &EventInfo, window_start: Moment, window_end: Moment) -> (r:
    Option<(Moment, Moment)>)
    ensures
        r == blocked_interval(*event, window_start, window_end),
{
    if !event_blocks_schedule(event) {
        return None;
    }
    if event.end.timestamp <= window_start.timestamp || event.start.timestamp
        >= window_end.timestamp {
        return None;
    }
    if event.all_day {
        return Some((window_start, window_end));
    }
    let s = if event.start.timestamp > window_start.timestamp {
        event.start
    } else {
        window_start
    };
    let e = if window_end.timestamp < event.end.timestamp {
        window_end
    } else {
        event.end
    };
    Some((s, e))
}

// ---------------------------------------------------------------------------------------------
// Times of updated and stored events
// ---------------------------------------------------------------------------------------------

/// The range the store is given for an event: an all-day event ends on its last day there.
pub fn eventkit_update_range(start: Moment, end: Moment, all_day: bool) -> (r: (Moment, Moment))
    requires
        end.wf(),
        all_day ==> MIN_SECS + 2 * 86400 <= end.timestamp,
    ensures
        r.0 == start,
        !all_day ==> r.1 == end,
        all_day ==> r.1.wf() && r.1.timestamp == end.timestamp - 86400,
{
    if all_day {
        (start, moment_add_secs(end, -86400))
    } else {
        (start, end)
    }
}

/// An all-day end reported as the last second of a day becomes the following midnight.
pub fn normalize_all_day_end(end: Moment, all_day: bool) -> (r: Moment)
    requires
        end.wf(),
        MIN_SECS + 86400 <= end.timestamp < MAX_SECS - 86400,
    ensures
        all_day && end.local().time.secs == 86399 ==> r.wf() && r.timestamp == end.timestamp + 1,
        !(all_day && end.local().time.secs == 86399) ==> r == end,
{
    if all_day && end.time().secs == 86399 {
        moment_add_secs(end, 1)
    } else {
        end
    }
}

/// The last day of an all-day event whose end is exclusive midnight.
pub open spec fn all_day_end_date(current_start: Moment, current_end: Moment) -> Date {
    let end_date = current_end.local().date;
    if current_end.local().time.secs == 0 && end_date.days > current_start.local().date.days {
        Date { days: (end_date.days - 1) as i32 }
    } else {
        end_date
    }
}

/// The last day covered by an event that ends at `current_end`.
pub fn current_all_day_end_date(current_start: Moment, current_end: Moment) -> (r: Date)
    requires
        current_start.wf(),
        current_end.wf(),
    ensures
        r == all_day_end_date(current_start, current_end),
        r.valid(),
{
    let end_date = current_end.date_naive();
    if current_end.time().secs == 0 && end_date.days > current_start.date_naive().days {
        Date { days: end_date.days - 1 }
    } else {
        end_date
    }
}

/// A wall-clock reading placed in the machine's time zone; an error names the reading when
/// the zone skips it.
pub fn localize_datetime(dt: DateTime) -> (r: Result<Moment, AppError>)
    requires
        dt.valid(),
    ensures
        match r {
            Ok(m) => m.wf() && m.local_secs() == dt.secs(),
            Err(e) => e.is((ErrorKind::InvalidDate, naive_text(dt))),
        },
{
    match localize(dt) {
        Some(m) => Ok(m),
        None => Err(invalid_date(format_naive(dt))),
    }
}

/// Midnight at the start of a date, in the machine's time zone.
pub fn localize_date_start(date: Date) -> (r: Result<Moment, AppError>)
    requires
        date.valid(),
    ensures
        match r {
            Ok(m) => m.wf() && m.local_secs() == date.midnight().secs(),
            Err(e) => e.is((ErrorKind::InvalidDate, naive_text(date.midnight()))),
        },
{
    localize_datetime(date.at_midnight())
}

/// The dates an all-day update spans, before they are placed in the time zone: the given
/// values must be dates (midnight), and the range must not end before it starts.
pub open spec fn all_day_dates(
    current_start: Moment,
    current_end: Moment,
    start: Option<DateTime>,
    end: Option<DateTime>,
) -> Result<(Date, Date), Failure> {
    if (start matches Some(s) && s.time.secs != 0) || (end matches Some(e) && e.time.secs != 0) {
        Err(
            (
                ErrorKind::InvalidArgument,
                "all-day events require date-only values for --start/--end"@,
            ),
        )
    } else {
        let start_date = match start {
            Some(s) => s.date,
            None => current_start.local().date,
        };
        let end_date = match end {
            Some(e) => e.date,
            None => all_day_end_date(current_start, current_end),
        };
        if end_date.days < start_date.days {
            Err((ErrorKind::InvalidDate, "end date must be on or after start date"@))
        } else {
            Ok((start_date, end_date))
        }
    }
}

/// `m` is the instant chosen for a bound: the given reading placed in the time zone, or the
/// current bound when none is given.
pub open spec fn chosen_bound(m: Moment, given: Option<DateTime>, current: Moment) -> bool {
    match given {
        Some(dt) => m.wf() && m.local_secs() == dt.secs(),
        None => m == current,
    }
}

/// The given reading exists and the time zone skips it, as the error reports.
pub open spec fn unplaceable(e: AppError, given: Option<DateTime>) -> bool {
    given matches Some(dt) && e.is((ErrorKind::InvalidDate, naive_text(dt)))
}

/// `a` and `b` are the start and end an update yields: for all-day events midnight of the
/// first day and midnight after the last day (from `all_day_dates`); for timed events the
/// chosen bounds, with the end after the start.
pub open spec fn range_update(
    current_start: Moment,
    current_end: Moment,
    start: Option<DateTime>,
    end: Option<DateTime>,
    all_day: bool,
    a: Moment,
    b: Moment,
) -> bool {
    if all_day {
        all_day_dates(current_start, current_end, start, end) matches Ok((sd, ed)) && a.wf() && b.wf()
            && a.local_secs() == sd.midnight().secs() && b.local_secs() == (Date {
            days: (ed.days + 1) as i32,
        }).midnight().secs()
    } else {
        chosen_bound(a, start, current_start) && chosen_bound(b, end, current_end) && b.timestamp
            > a.timestamp
    }
}

/// What reading an update's bounds can give: for all-day events the failure of the dates, or
/// the range, or the day the time zone cannot place; for timed events the range, a reading the
/// time zone skips, or bounds out of order.
pub open spec fn time_range_outcome(
    current_start: Moment,
    current_end: Moment,
    start: Option<DateTime>,
    end: Option<DateTime>,
    all_day: bool,
    r: Result<(Moment, Moment), AppError>,
) -> bool {
    &&& all_day ==> match all_day_dates(current_start, current_end, start, end) {
        Err(f) => r matches Err(e) && e.is(f),
        Ok((sd, ed)) => match r {
            Ok((a, b)) => range_update(current_start, current_end, start, end, true, a, b),
            Err(e) => e.is((ErrorKind::InvalidDate, naive_text(sd.midnight()))) || e.is(
                (ErrorKind::InvalidDate, naive_text((Date { days: (ed.days + 1) as i32 }).midnight())),
            ),
        },
    }
    &&& !all_day ==> match r {
        Ok((a, b)) => range_update(current_start, current_end, start, end, false, a, b),
        Err(e) => unplaceable(e, start) || unplaceable(e, end) || (e.is(
            (ErrorKind::InvalidDate, "end time must be after start time"@),
        ) && exists|a: Moment, b: Moment|
            chosen_bound(a, start, current_start) && chosen_bound(b, end, current_end)
                && b.timestamp <= a.timestamp),
    }
}

/// The start and end of an event after an update: date-only bounds for all-day events
/// (the end becomes exclusive midnight after the last day), instants for timed ones.
pub fn validate_updated_time_range(
    current_start: Moment,
    current_end: Moment,
    start: Option<DateTime>,
    end: Option<DateTime>,
    all_day: bool,
) -> (r: Result<(Moment, Moment), AppError>)
    requires
        current_start.wf(),
        current_end.wf(),
        start matches Some(s) ==> s.valid(),
        end matches Some(e) ==> e.valid() && (all_day ==> e.date.days < MAX_CE),
        all_day && end is None ==> current_end.local().date.days < MAX_CE,
    ensures
        time_range_outcome(current_start, current_end, start, end, all_day, r),
{
    if all_day {
        let start_bad = match start {
            Some(s) => s.time.secs != 0,
            None => false,
        };
        let end_bad = match end {
            Some(e) => e.time.secs != 0,
            None => false,
        };
        if start_bad || end_bad {
            return Err(
                invalid_argument_str("all-day events require date-only values for --start/--end"),
            );
        }
        let start_date = match start {
            Some(s) => s.date,
            None => current_start.date_naive(),
        };
        let end_date = match end {
            Some(e) => e.date,
            None => current_all_day_end_date(current_start, current_end),
        };
        if end_date.days < start_date.days {
            return Err(invalid_date_str("end date must be on or after start date"));
        }
        let updated_start = match localize_date_start(start_date) {
            Ok(m) => m,
            Err(e) => return Err(e),
        };
        let next = Date { days: end_date.days + 1 };
        let updated_end = match localize_date_start(next) {
            Ok(m) => m,
            Err(e) => return Err(e),
        };
        return Ok((updated_start, updated_end));
    }
    let updated_start = match start {
        Some(s) => match localize_datetime(s) {
            Ok(m) => m,
            Err(e) => return Err(e),
        },
        None => current_start,
    };
    let updated_end = match end {
        Some(e) => match localize_datetime(e) {
            Ok(m) => m,
            Err(err) => return Err(err),
        },
        None => current_end,
    };
    if updated_end.timestamp <= updated_start.timestamp {
        let err = invalid_date_str("end time must be after start time");
        assert(chosen_bound(updated_start, start, current_start) && chosen_bound(
            updated_end,
            end,
            current_end,
        ) && updated_end.timestamp <= updated_start.timestamp);
        return Err(err);
    }
    Ok((updated_start, updated_end))
}

// ---------------------------------------------------------------------------------------------
// Calendars and search
// ---------------------------------------------------------------------------------------------

/// How an ambiguous calendar is listed: `title [source] (id)`.
pub open spec fn calendar_entry(c: CalendarInfo) -> Seq<char> {
    c.title@ + " ["@ + c.source@ + "] ("@ + c.id@ + ")"@
}

/// The calendars with a given title, in order.
pub open spec fn titled(cals: Seq<CalendarInfo>, name: Seq<char>) -> Seq<CalendarInfo> {
    cals.filter(|c: CalendarInfo| c.title@ == name)
}

/// How a calendar given by ID or title is resolved to an ID: an ID match wins; otherwise the
/// title must name exactly one calendar.
pub open spec fn calendar_lookup(name: Seq<char>, cals: Seq<CalendarInfo>) -> Result<
    Seq<char>,
    Failure,
> {
    if exists|i: int| 0 <= i < cals.len() && #[trigger] cals[i].id@ == name {
        Ok(name)
    } else {
        let m = titled(cals, name);
        if m.len() == 0 {
            Err((ErrorKind::CalendarNotFound, name))
        } else if m.len() == 1 {
            Ok(m[0].id@)
        } else {
            Err(
                (
                    ErrorKind::InvalidArgument,
                    "Calendar name '"@ + name
                        + "' is ambiguous. Use a calendar ID instead. Matches: "@ + join(
                        m.map_values(|c: CalendarInfo| calendar_entry(c)),
                        "; "@,
                    ),
                ),
            )
        }
    }
}

fn entry_of(c: &CalendarInfo) -> (r: Vec<char>)
    ensures
        r@ == calendar_entry(*c),
{
    let mut out = chars_of(c.title.as_str());
    push_str(&mut out, " [");
    push_chars(&mut out, &chars_of(c.source.as_str()));
    push_str(&mut out, "] (");
    push_chars(&mut out, &chars_of(c.id.as_str()));
    push_str(&mut out, ")");
    out
}

/// Resolves a calendar name or ID to the calendar's ID.
pub fn resolve_calendar_identifier(spec: &str, calendars: &[CalendarInfo]) -> (r: Result<
    String,
    AppError,
>)
    ensures
        agrees_text(r, calendar_lookup(spec@, calendars@)),
{
    let mut i: usize = 0;
    while i < calendars.len()
        invariant
            i <= calendars@.len(),
            forall|j: int| 0 <= j < i ==> #[trigger] calendars@[j].id@ != spec@,
        decreases calendars@.len() - i,
    {
        if str_eq(calendars[i].id.as_str(), spec) {
            return Ok(calendars[i].id.clone());
        }
        i += 1;
    }
    let ghost cals = calendars@;
    let ghost pred = |c: CalendarInfo| c.title@ == spec@;
    let mut entries: Vec<Vec<char>> = Vec::new();
    let mut first: Option<usize> = None;
    let mut k: usize = 0;
    while k < calendars.len()
        invariant
            k <= cals.len(),
            cals == calendars@,
            pred == (|c: CalendarInfo| c.title@ == spec@),
            entries@.map_values(|p: Vec<char>| p@) == titled(cals.subrange(0, k as int), spec@).map_values(
                |c: CalendarInfo| calendar_entry(c),
            ),
            entries@.len() == titled(cals.subrange(0, k as int), spec@).len(),
            match first {
                Some(f) => f < k && entries@.len() >= 1 && cals[f as int] == titled(
                    cals.subrange(0, k as int),
                    spec@,
                )[0],
                None => entries@.len() == 0,
            },
        decreases cals.len() - k,
    {
        proof {
            assert(cals.subrange(0, k as int + 1) =~= cals.subrange(0, k as int).push(cals[k as int]));
            cals.subrange(0, k as int).lemma_filter_push(cals[k as int], pred);
        }
        if str_eq(calendars[k].title.as_str(), spec) {
            let ent = entry_of(&calendars[k]);
            let ghost ent_view = ent@;
            let ghost before = entries@;
            entries.push(ent);
            if first.is_none() {
                first = Some(k);
            }
            proof {
                let t0 = titled(cals.subrange(0, k as int), spec@);
                let t1 = titled(cals.subrange(0, k as int + 1), spec@);
                assert(t1 == t0.push(cals[k as int]));
                assert(t1.map_values(|c: CalendarInfo| calendar_entry(c)) =~= t0.map_values(
                    |c: CalendarInfo| calendar_entry(c),
                ).push(calendar_entry(cals[k as int])));
                assert(entries@.map_values(|p: Vec<char>| p@) =~= before.map_values(
                    |p: Vec<char>| p@,
                ).push(ent_view));
                assert(entries@.map_values(|p: Vec<char>| p@) =~= titled(
                    cals.subrange(0, k as int + 1),
                    spec@,
                ).map_values(|c: CalendarInfo| calendar_entry(c)));
            }
        } else {
            proof {
                assert(entries@.map_values(|p: Vec<char>| p@) =~= titled(
                    cals.subrange(0, k as int + 1),
                    spec@,
                ).map_values(|c: CalendarInfo| calendar_entry(c)));
            }
        }
        k += 1;
    }
    proof {
        assert(cals.subrange(0, cals.len() as int) =~= cals);
    }
    if entries.len() == 0 {
        return Err(AppError::CalendarNotFound(string_from_chars(&chars_of(spec))));
    }
    if entries.len() == 1 {
        match first {
            Some(f) => return Ok(calendars[f].id.clone()),
            None => {},
        }
    }
    let mut m = chars_of("Calendar name '");
    push_str(&mut m, spec);
    push_str(&mut m, "' is ambiguous. Use a calendar ID instead. Matches: ");
    let listed = join_chars(&entries, "; ");
    push_chars(&mut m, &listed);
    Err(invalid_argument(m))
}

/// Whether the lowercased text of a field contains the (lowercased) query.
pub open spec fn field_matches(v: Seq<char>, query: Seq<char>) -> bool {
    contains_text(lowercase(v), query)
}

/// Whether an optional field is present and matches.
pub open spec fn opt_field_matches(v: Option<String>, query: Seq<char>) -> bool {
    v matches Some(s) && field_matches(s@, query)
}

/// Whether an event matches a lowercased query: by exact (case-insensitive) title, or by a
/// piece of its title, calendar name, calendar ID, location, URL or notes.
pub open spec fn matches_query(e: EventInfo, query: Seq<char>, exact: bool) -> bool {
    if exact {
        lowercase(e.title@) == query
    } else {
        field_matches(e.title@, query) || field_matches(e.calendar@, query) || field_matches(
            e.calendar_id@,
            query,
        ) || opt_field_matches(e.location, query) || opt_field_matches(e.url, query)
            || opt_field_matches(e.notes, query)
    }
}

fn text_matches(v: &String, query: &[char]) -> (r: bool)
    ensures
        r == field_matches(v@, query@),
{
    let low = to_lowercase(&chars_of(v.as_str()));
    contains_chars(&low, query)
}

fn opt_text_matches(v: &Option<String>, query: &[char]) -> (r: bool)
    ensures
        r == opt_field_matches(*v, query@),
{
    match v {
        Some(s) => text_matches(s, query),
        None => false,
    }
}

/// Whether an event matches a lowercased search query.
pub fn event_matches_query(event: &EventInfo, query_lower: &str, exact: bool) -> (r: bool)
    ensures
        r == matches_query(*event, query_lower@, exact),
{
    let q = chars_of(query_lower);
    if exact {
        let low = to_lowercase(&chars_of(event.title.as_str()));
        return chars_eq(&low, &q);
    }
    text_matches(&event.title, &q) || text_matches(&event.calendar, &q) || text_matches(
        &event.calendar_id,
        &q,
    ) || opt_text_matches(&event.location, &q) || opt_text_matches(&event.url, &q)
        || opt_text_matches(&event.notes, &q)
}

/// What a search looks at: a non-exact query matches an event exactly when the lowercased
/// title, calendar name, calendar ID, location, URL or notes contain it; an exact query matches
/// exactly when the lowercased title is the query.
pub proof fn law_query_searches_every_field(e: EventInfo, q: Seq<char>)
    ensures
        contains_text(lowercase(e.title@), q) ==> matches_query(e, q, false),
        contains_text(lowercase(e.calendar@), q) ==> matches_query(e, q, false),
        contains_text(lowercase(e.calendar_id@), q) ==> matches_query(e, q, false),
        (e.location matches Some(l) && contains_text(lowercase(l@), q)) ==> matches_query(e, q, false),
        (e.url matches Some(u) && contains_text(lowercase(u@), q)) ==> matches_query(e, q, false),
        (e.notes matches Some(n) && contains_text(lowercase(n@), q)) ==> matches_query(e, q, false),
        matches_query(e, q, false) ==> contains_text(lowercase(e.title@), q) || contains_text(
            lowercase(e.calendar@),
            q,
        ) || contains_text(lowercase(e.calendar_id@), q) || (e.location matches Some(l)
            && contains_text(lowercase(l@), q)) || (e.url matches Some(u) && contains_text(
            lowercase(u@),
            q,
        )) || (e.notes matches Some(n) && contains_text(lowercase(n@), q)),
        matches_query(e, q, true) <==> lowercase(e.title@) == q,
{
}

/// A search keeps the events that are not canceled and match the query, in order.
pub open spec fn search_hit(e: EventInfo, query: Seq<char>, exact: bool) -> bool {
    e.status@ != "canceled"@ && matches_query(e, query, exact)
}

/// A search never returns a canceled event, and returns every other event that matches.
pub proof fn law_search_skips_canceled(e: EventInfo, q: Seq<char>, exact: bool)
    ensures
        e.status@ == "canceled"@ ==> !search_hit(e, q, exact),
        e.status@ != "canceled"@ && matches_query(e, q, exact) ==> search_hit(e, q, exact),
{
}

/// The search hits among `events`.
pub fn filter_search_matches(events: Vec<EventInfo>, query_lower: &str, exact: bool) -> (r: Vec<
    EventInfo,
>)
    ensures
        r@ == events@.filter(|e: EventInfo| search_hit(e, query_lower@, exact)),
{
    let ghost orig = events@;
    let ghost pred = |e: EventInfo| search_hit(e, query_lower@, exact);
    let mut out: Vec<EventInfo> = Vec::new();
    for e in it: events.into_iter()
        invariant
            it.seq() == orig,
            pred == (|e: EventInfo| search_hit(e, query_lower@, exact)),
            out@ == orig.take(it.index() as int).filter(pred),
    {
        proof {
            assert(orig.take(it.index() as int + 1) =~= orig.take(it.index() as int).push(e));
            orig.take(it.index() as int).lemma_filter_push(e, pred);
        }
        if !str_eq(e.status.as_str(), "canceled") && event_matches_query(&e, query_lower, exact) {
            out.push(e);
        }
    }
    proof {
        assert(orig.take(orig.len() as int) =~= orig);
    }
    out
}

/// The search hits among `events` for a query as the user typed it: case is ignored, the
/// query being lowercased as the fields are.
pub fn search_matches(events: Vec<EventInfo>, query: &str, exact: bool) -> (r: Vec<EventInfo>)
    ensures
        r@ == events@.filter(|e: EventInfo| search_hit(e, lowercase(query@), exact)),
{
    let low = to_lowercase(&chars_of(query));
    let query_lower = string_from_chars(&low);
    filter_search_matches(events, query_lower.as_str(), exact)
}

/// A search ignores the case of its query: two queries that lowercase alike find the same
/// events.
pub proof fn law_search_ignores_case(events: Seq<EventInfo>, q1: Seq<char>, q2: Seq<char>, exact: bool)
    requires
        lowercase(q1) == lowercase(q2),
    ensures
        events.filter(|e: EventInfo| search_hit(e, lowercase(q1), exact)) == events.filter(
            |e: EventInfo| search_hit(e, lowercase(q2), exact),
        ),
{
    assert((|e: EventInfo| search_hit(e, lowercase(q1), exact)) =~= (|e: EventInfo|
        search_hit(e, lowercase(q2), exact)));
}

// ---------------------------------------------------------------------------------------------
// Free time
// ---------------------------------------------------------------------------------------------

/// The stretches a window loses to the given events, in the events' order.
pub open spec fn blocked_list(events: Seq<EventInfo>, window_start: Moment, window_end: Moment) -> Seq<
    (Moment, Moment),
>
    decreases events.len(),
{
    if events.len() == 0 {
        Seq::empty()
    } else {
        let rest = blocked_list(events.drop_last(), window_start, window_end);
        match blocked_interval(events.last(), window_start, window_end) {
            Some(iv) => rest.push(iv),
            None => rest,
        }
    }
}

/// Inserts a stretch into a list ordered by start, after every stretch that starts no later.
pub open spec fn insert_by_start(s: Seq<(Moment, Moment)>, x: (Moment, Moment)) -> Seq<
    (Moment, Moment),
>
    decreases s.len(),
{
    if s.len() == 0 {
        seq![x]
    } else if s.last().0.timestamp <= x.0.timestamp {
        s.push(x)
    } else {
        insert_by_start(s.drop_last(), x).push(s.last())
    }
}

/// Stretches ordered by start; stretches with the same start keep their order.
pub open spec fn sort_by_start(s: Seq<(Moment, Moment)>) -> Seq<(Moment, Moment)>
    decreases s.len(),
{
    if s.len() == 0 {
        s
    } else {
        insert_by_start(sort_by_start(s.drop_last()), s.last())
    }
}

/// Whether the gap from `from` to `to` is positive and lasts at least `min_mins` minutes.
pub open spec fn fits(from: Moment, to: Moment, min_mins: u32) -> bool {
    to.timestamp > from.timestamp && to.timestamp - from.timestamp >= min_mins * 60
}

/// The free slot from `from` to `to`, with its length in whole minutes.
pub open spec fn gap_slot(from: Moment, to: Moment) -> FreeSlot {
    FreeSlot {
        start: from,
        end: to,
        duration_mins: ((to.timestamp - from.timestamp) / 60) as u32,
    }
}

/// Walks ordered busy stretches from `start`: each long enough gap before a stretch is a slot,
/// and the cursor moves to the later of itself and the stretch's end.
pub open spec fn sweep(blocked: Seq<(Moment, Moment)>, start: Moment, min_mins: u32) -> (
    Seq<FreeSlot>,
    Moment,
)
    decreases blocked.len(),
{
    if blocked.len() == 0 {
        (Seq::empty(), start)
    } else {
        let (slots, cursor) = sweep(blocked.drop_last(), start, min_mins);
        let b = blocked.last();
        let slots2 = if fits(cursor, b.0, min_mins) {
            slots.push(gap_slot(cursor, b.0))
        } else {
            slots
        };
        (slots2, later(cursor, b.1))
    }
}

/// The free slots of one window: the gaps between its busy stretches and the rest of the
/// window after the last of them.
pub open spec fn window_slots(
    events: Seq<EventInfo>,
    window_start: Moment,
    window_end: Moment,
    min_mins: u32,
) -> Seq<FreeSlot> {
    let (slots, cursor) = sweep(
        sort_by_start(blocked_list(events, window_start, window_end)),
        window_start,
        min_mins,
    );
    if fits(cursor, window_end, min_mins) {
        slots.push(gap_slot(cursor, window_end))
    } else {
        slots
    }
}

fn insert_sorted(v: Vec<(Moment, Moment)>, x: (Moment, Moment)) -> (r: Vec<(Moment, Moment)>)
    ensures
        r@ == insert_by_start(v@, x),
    decreases v@.len(),
{
    let mut v = v;
    match v.pop() {
        None => {
            let mut r: Vec<(Moment, Moment)> = Vec::new();
            r.push(x);
            r
        },
        Some(last) => {
            if last.0.timestamp <= x.0.timestamp {
                v.push(last);
                v.push(x);
                v
            } else {
                let mut r = insert_sorted(v, x);
                r.push(last);
                r
            }
        },
    }
}

fn sort_intervals(v: &Vec<(Moment, Moment)>) -> (r: Vec<(Moment, Moment)>)
    ensures
        r@ == sort_by_start(v@),
{
    let mut out: Vec<(Moment, Moment)> = Vec::new();
    let mut i: usize = 0;
    while i < v.len()
        invariant
            i <= v@.len(),
            out@ == sort_by_start(v@.take(i as int)),
        decreases v@.len() - i,
    {
        proof {
            assert(v@.take(i as int + 1).drop_last() =~= v@.take(i as int));
        }
        out = insert_sorted(out, v[i]);
        i += 1;
    }
    proof {
        assert(v@.take(v@.len() as int) =~= v@);
    }
    out
}

fn gap_fits(from: Moment, to: Moment, min_mins: u32) -> (r: bool)
    ensures
        r == fits(from, to, min_mins),
{
    let d = to.timestamp as i128 - from.timestamp as i128;
    d > 0 && d >= min_mins as i128 * 60
}

fn slot_between(from: Moment, to: Moment) -> (r: FreeSlot)
    requires
        to.timestamp > from.timestamp,
    ensures
        r == gap_slot(from, to),
{
    let d = to.timestamp as i128 - from.timestamp as i128;
    let mins = d / 60;
    FreeSlot { start: from, end: to, duration_mins: mins as u32 }
}

/// The free slots of one window, given the events of the period.
pub fn window_free_slots(
    events: &[EventInfo],
    window_start: Moment,
    window_end: Moment,
    min_duration_mins: u32,
) -> (r: Vec<FreeSlot>)
    ensures
        r@ == window_slots(events@, window_start, window_end, min_duration_mins),
{
    let mut blocked: Vec<(Moment, Moment)> = Vec::new();
    let mut i: usize = 0;
    while i < events.len()
        invariant
            i <= events@.len(),
            blocked@ == blocked_list(events@.take(i as int), window_start, window_end),
        decreases events@.len() - i,
    {
        proof {
            assert(events@.take(i as int + 1).drop_last() =~= events@.take(i as int));
        }
        match blocked_interval_for_window(&events[i], window_start, window_end) {
            Some(iv) => blocked.push(iv),
            None => {},
        }
        i += 1;
    }
    proof {
        assert(events@.take(events@.len() as int) =~= events@);
    }
    let sorted = sort_intervals(&blocked);
    let mut slots: Vec<FreeSlot> = Vec::new();
    let mut cursor = window_start;
    let mut j: usize = 0;
    while j < sorted.len()
        invariant
            j <= sorted@.len(),
            (slots@, cursor) == sweep(sorted@.take(j as int), window_start, min_duration_mins),
        decreases sorted@.len() - j,
    {
        proof {
            assert(sorted@.take(j as int + 1).drop_last() =~= sorted@.take(j as int));
        }
        let (block_start, block_end) = sorted[j];
        if gap_fits(cursor, block_start, min_duration_mins) {
            slots.push(slot_between(cursor, block_start));
        }
        if cursor.timestamp > block_end.timestamp {
        } else {
            cursor = block_end;
        }
        j += 1;
    }
    proof {
        assert(sorted@.take(sorted@.len() as int) =~= sorted@);
    }
    if gap_fits(cursor, window_end, min_duration_mins) {
        slots.push(slot_between(cursor, window_end));
    }
    slots
}

/// A window bound: the local reading placed in the time zone, or, where the zone skips the
/// reading, the fallback instant `now`.
pub open spec fn window_bound(m: Moment, reading: DateTime, now: Moment) -> bool {
    (m.wf() && m.local_secs() == reading.secs()) || m == now
}

/// The free slots of consecutive windows, in order.
pub open spec fn all_window_slots(
    events: Seq<EventInfo>,
    windows: Seq<(Moment, Moment)>,
    min_mins: u32,
) -> Seq<FreeSlot>
    decreases windows.len(),
{
    if windows.len() == 0 {
        Seq::empty()
    } else {
        all_window_slots(events, windows.drop_last(), min_mins) + window_slots(
            events,
            windows.last().0,
            windows.last().1,
            min_mins,
        )
    }
}

/// The daily windows from `from` through `to`, each from `day_start` to `day_end` on its day.
pub open spec fn daily_windows(
    windows: Seq<(Moment, Moment)>,
    from: Date,
    to: Date,
    day_start: Time,
    day_end: Time,
    now: Moment,
) -> bool {
    &&& windows.len() == (if to.days >= from.days {
        to.days - from.days + 1
    } else {
        0
    })
    &&& forall|k: int|
        0 <= k < windows.len() ==> window_bound(
            #[trigger] windows[k].0,
            DateTime { date: Date { days: (from.days + k) as i32 }, time: day_start },
            now,
        ) && window_bound(
            windows[k].1,
            DateTime { date: Date { days: (from.days + k) as i32 }, time: day_end },
            now,
        )
}

/// The instant of a window bound: the reading placed in the machine's time zone, or `now`
/// where the zone skips the reading. Which of the two comes back depends on the time zone.
fn window_moment(reading: DateTime, now: Moment) -> (m: Moment)
    requires
        reading.valid(),
    ensures
        window_bound(m, reading, now),
{
    match localize(reading) {
        Some(m) => m,
        None => now,
    }
}

/// The free-slot spans of the days from `from` through `to`: each day's window runs from
/// `after` (default 09:00) to `before` (default 17:00) on that day.
pub open spec fn free_slot_days(
    windows: Seq<(Moment, Moment)>,
    from: Date,
    to: Date,
    after_time: Option<Time>,
    before_time: Option<Time>,
    now: Moment,
) -> bool {
    daily_windows(
        windows,
        from,
        to,
        match after_time {
            Some(t) => t,
            None => Time { secs: 32400u32 },
        },
        match before_time {
            Some(t) => t,
            None => Time { secs: 61200u32 },
        },
        now,
    )
}

/// Free slots of at least `min_duration_mins` minutes on each day from `from` through `to`,
/// between `after` (default 09:00) and `before` (default 17:00), around the busy events, with
/// `now` standing for a window bound that the time zone skips.
#[verifier::spinoff_prover]
pub fn free_slots_at(
    events: &[EventInfo],
    from: Date,
    to: Date,
    after_time: Option<Time>,
    before_time: Option<Time>,
    min_duration_mins: u32,
    now: Moment,
) -> (r: Vec<FreeSlot>)
    requires
        from.valid(),
        to.valid(),
        from.days <= to.days ==> to.days < MAX_CE,
        after_time matches Some(t) ==> t.valid(),
        before_time matches Some(t) ==> t.valid(),
    ensures
        exists|windows: Seq<(Moment, Moment)>|
            free_slot_days(windows, from, to, after_time, before_time, now) && r@
                == all_window_slots(events@, windows, min_duration_mins),
{
    let day_start = match after_time {
        Some(t) => t,
        None => Time { secs: 9 * 3600 },
    };
    let day_end = match before_time {
        Some(t) => t,
        None => Time { secs: 17 * 3600 },
    };
    let mut slots: Vec<FreeSlot> = Vec::new();
    let mut current = from;
    let ghost mut windows: Seq<(Moment, Moment)> = Seq::empty();
    while current.days <= to.days
        invariant
            from.valid(),
            to.valid(),
            from.days <= to.days ==> to.days < MAX_CE,
            day_start.valid(),
            day_end.valid(),
            from.days <= current.days,
            from.days <= to.days ==> current.days <= to.days + 1,
            from.days > to.days ==> current == from,
            windows.len() == current.days - from.days,
            forall|k: int|
                0 <= k < windows.len() ==> window_bound(
                    #[trigger] windows[k].0,
                    DateTime { date: Date { days: (from.days + k) as i32 }, time: day_start },
                    now,
                ) && window_bound(
                    windows[k].1,
                    DateTime { date: Date { days: (from.days + k) as i32 }, time: day_end },
                    now,
                ),
            slots@ == all_window_slots(events@, windows, min_duration_mins),
        decreases to.days - current.days + 1,
    {
        let ws = window_moment(DateTime { date: current, time: day_start }, now);
        let we = window_moment(DateTime { date: current, time: day_end }, now);
        let mut day_slots = window_free_slots(events, ws, we, min_duration_mins);
        let ghost prev = windows;
        let ghost before_slots = slots@;
        slots.append(&mut day_slots);
        proof {
            windows = windows.push((ws, we));
            assert(windows.drop_last() =~= prev);
            assert forall|k: int| 0 <= k < windows.len() implies window_bound(
                #[trigger] windows[k].0,
                DateTime { date: Date { days: (from.days + k) as i32 }, time: day_start },
                now,
            ) && window_bound(
                windows[k].1,
                DateTime { date: Date { days: (from.days + k) as i32 }, time: day_end },
                now,
            ) by {
                if k < prev.len() {
                    assert(windows[k] == prev[k]);
                } else {
                    assert(windows[k] == (ws, we));
                    assert((from.days + k) as i32 == current.days);
                }
            }
        }
        current = Date { days: current.days + 1 };
    }
    proof {
        if from.days <= to.days {
            assert(current.days == to.days + 1);
        }
        assert(windows.len() == (if to.days >= from.days {
            to.days - from.days + 1
        } else {
            0
        }));
        assert(daily_windows(windows, from, to, day_start, day_end, now));
        assert(free_slot_days(windows, from, to, after_time, before_time, now));
    }
    slots
}

/// Free slots of at least `min_duration_mins` minutes on each day from `from` through `to`,
/// between `after` (default 09:00) and `before` (default 17:00), around the busy events. The
/// clock is read once, for a window bound that the machine's time zone skips; which bounds
/// are skipped depends on the time zone, so the contract says which instant stands in for
/// them, not when.
pub fn calculate_free_slots(
    events: &[EventInfo],
    from: Date,
    to: Date,
    after_time: Option<Time>,
    before_time: Option<Time>,
    min_duration_mins: u32,
) -> (r: Vec<FreeSlot>)
    requires
        from.valid(),
        to.valid(),
        from.days <= to.days ==> to.days < MAX_CE,
        after_time matches Some(t) ==> t.valid(),
        before_time matches Some(t) ==> t.valid(),
    ensures
        exists|now: Moment, windows: Seq<(Moment, Moment)>|
            -86400 < now.offset < 86400 && MIN_SECS <= now.timestamp <= MAX_SECS && free_slot_days(
                windows,
                from,
                to,
                after_time,
                before_time,
                now,
            ) && r@ == all_window_slots(events@, windows, min_duration_mins),
{
    let now = clock_now();
    free_slots_at(events, from, to, after_time, before_time, min_duration_mins, now)
}

// ---------------------------------------------------------------------------------------------
// Reading events from the store
// ---------------------------------------------------------------------------------------------

/// Whether an event's calendar is the one asked for (by title or ID), or none was asked for.
pub open spec fn in_calendar(cal_name: Seq<char>, cal_id: Seq<char>, wanted: Option<Seq<char>>) -> bool {
    match wanted {
        Some(w) => cal_name == w || cal_id == w,
        None => true,
    }
}

/// Whether an event of the calendar `cal_name` (ID `cal_id`) is listed.
pub fn calendar_selected(cal_name: &str, cal_id: &str, wanted: Option<&str>) -> (r: bool)
    ensures
        r == in_calendar(
            cal_name@,
            cal_id@,
            match wanted {
                Some(w) => Some(w@),
                None => None,
            },
        ),
{
    match wanted {
        Some(w) => str_eq(cal_name, w) || str_eq(cal_id, w),
        None => true,
    }
}

/// The instants a query for the days from `from` through `to` covers: midnight of the first
/// day to the last second of the last, in the machine's time zone. A day the zone cannot place
/// is reported by its date.
pub fn day_bounds(from: Date, to: Date) -> (r: Result<(Moment, Moment), AppError>)
    requires
        from.valid(),
        to.valid(),
    ensures
        match r {
            Ok((a, b)) => a.wf() && a.local_secs() == from.midnight().secs() && b.wf()
                && b.local_secs() == (DateTime { date: to, time: Time { secs: 86399 } }).secs(),
            Err(e) => e.is((ErrorKind::InvalidDate, crate::time::ymd_text(from))) || e.is(
                (ErrorKind::InvalidDate, crate::time::ymd_text(to)),
            ),
        },
{
    let a = match localize(from.at_midnight()) {
        Some(m) => m,
        None => return Err(invalid_date(crate::time::format_ymd(from))),
    };
    let b = match localize(DateTime { date: to, time: Time { secs: 86399 } }) {
        Some(m) => m,
        None => return Err(invalid_date(crate::time::format_ymd(to))),
    };
    Ok((a, b))
}

/// The busy events that overlap a range, in order.
pub fn conflicting_events(events: Vec<EventInfo>, range_start: Moment, range_end: Moment) -> (r: Vec<
    EventInfo,
>)
    ensures
        r@ == events@.filter(|e: EventInfo| conflicts(e, range_start, range_end)),
{
    let ghost orig = events@;
    let ghost pred = |e: EventInfo| conflicts(e, range_start, range_end);
    let mut out: Vec<EventInfo> = Vec::new();
    for e in it: events.into_iter()
        invariant
            it.seq() == orig,
            pred == (|e: EventInfo| conflicts(e, range_start, range_end)),
            out@ == orig.take(it.index() as int).filter(pred),
    {
        proof {
            assert(orig.take(it.index() as int + 1) =~= orig.take(it.index() as int).push(e));
            orig.take(it.index() as int).lemma_filter_push(e, pred);
        }
        if event_conflicts_range(&e, range_start, range_end) {
            out.push(e);
        }
    }
    proof {
        assert(orig.take(orig.len() as int) =~= orig);
    }
    out
}

/// A strictly increasing list.
pub open spec fn strictly_increasing(s: Seq<i64>) -> bool {
    forall|i: int, j: int| 0 <= i < j < s.len() ==> s[i] < s[j]
}

/// The alert offsets of an event: the non-negative candidates, in increasing order, each once.
pub fn alarm_minutes(candidates: &[i64]) -> (r: Vec<i64>)
    ensures
        strictly_increasing(r@),
        forall|x: i64| r@.contains(x) <==> (x >= 0 && candidates@.contains(x)),
{
    let mut out: Vec<i64> = Vec::new();
    let mut i: usize = 0;
    while i < candidates.len()
        invariant
            i <= candidates@.len(),
            strictly_increasing(out@),
            forall|x: i64| out@.contains(x) <==> (x >= 0 && candidates@.take(i as int).contains(x)),
        decreases candidates@.len() - i,
    {
        let x = candidates[i];
        let ghost before = out@;
        proof {
            assert(candidates@.take(i as int + 1) =~= candidates@.take(i as int).push(x));
            assert forall|y: i64| candidates@.take(i as int + 1).contains(y) <==> (candidates@.take(
                i as int,
            ).contains(y) || y == x) by {
                if candidates@.take(i as int + 1).contains(y) {
                    let k = choose|k: int| 0 <= k < i + 1 && #[trigger] candidates@.take(i as int + 1)[k] == y;
                    if k < i {
                        assert(candidates@.take(i as int)[k] == y);
                    }
                }
                if candidates@.take(i as int).contains(y) {
                    let k = choose|k: int| 0 <= k < i && #[trigger] candidates@.take(i as int)[k] == y;
                    assert(candidates@.take(i as int + 1)[k] == y);
                }
                if y == x {
                    assert(candidates@.take(i as int + 1)[i as int] == y);
                }
            }
        }
        if x >= 0 {
            let mut k: usize = 0;
            while k < out.len() && out[k] < x
                invariant
                    k <= out@.len(),
                    out@ == before,
                    forall|m: int| 0 <= m < k ==> out@[m] < x,
                decreases out@.len() - k,
            {
                k += 1;
            }
            if k < out.len() && out[k] == x {
                proof {
                    assert(out@.contains(x));
                }
            } else {
                out.insert(k, x);
                proof {
                    assert(out@ == before.insert(k as int, x));
                    assert forall|a: int, b: int| 0 <= a < b < out@.len() implies out@[a] < out@[b] by {
                        if b < k {
                        } else if b == k {
                            assert(out@[a] == before[a]);
                        } else if a < k {
                            assert(out@[b] == before[b - 1]);
                            assert(out@[a] == before[a]);
                            if b - 1 > a {
                                assert(before[a] < before[b - 1]);
                            }
                            if k < before.len() {
                                assert(before[k as int] >= x);
                                if b - 1 > k {
                                    assert(before[k as int] < before[b - 1]);
                                }
                            }
                        } else if a == k {
                            assert(out@[b] == before[b - 1]);
                            assert(before[k as int] >= x);
                            assert(before[k as int] != x);
                            if b - 1 > k {
                                assert(before[k as int] < before[b - 1]);
                            }
                        } else {
                            assert(out@[a] == before[a - 1]);
                            assert(out@[b] == before[b - 1]);
                        }
                    }
                    assert forall|y: i64| out@.contains(y) <==> (before.contains(y) || y == x) by {
                        if out@.contains(y) {
                            let m = choose|m: int| 0 <= m < out@.len() && #[trigger] out@[m] == y;
                            if m < k {
                                assert(before[m] == y);
                            } else if m > k {
                                assert(before[m - 1] == y);
                            }
                        }
                        if before.contains(y) {
                            let m = choose|m: int| 0 <= m < before.len() && #[trigger] before[m] == y;
                            if m < k {
                                assert(out@[m] == y);
                            } else {
                                assert(out@[m + 1] == y);
                            }
                        }
                        if y == x {
                            assert(out@[k as int] == x);
                        }
                    }
                }
            }
        }
        proof {
            assert forall|y: i64| out@.contains(y) <==> (y >= 0 && candidates@.take(i as int + 1).contains(y)) by {
                if x >= 0 && !before.contains(x) {
                    assert(out@.contains(y) <==> (before.contains(y) || y == x));
                } else {
                    assert(out@ == before);
                }
            }
        }
        i += 1;
    }
    proof {
        assert(candidates@.take(candidates@.len() as int) =~= candidates@);
    }
    out
}

/// An event's status as the store reports it.
#[derive(Clone, Copy, Debug, PartialEq, Eq, Structural)]
pub enum EventStatus {
    Confirmed,
    Tentative,
    Canceled,
    Other,
}

/// An event's availability as the store reports it.
#[derive(Clone, Copy, Debug, PartialEq, Eq, Structural)]
pub enum Availability {
    Busy,
    Free,
    Tentative,
    Unavailable,
    Other,
}

/// The name of a status.
pub fn status_name(status: EventStatus) -> (r: &'static str)
    ensures
        r@ == match status {
            EventStatus::Confirmed => "confirmed"@,
            EventStatus::Tentative => "tentative"@,
            EventStatus::Canceled => "canceled"@,
            EventStatus::Other => "none"@,
        },
{
    match status {
        EventStatus::Confirmed => "confirmed",
        EventStatus::Tentative => "tentative",
        EventStatus::Canceled => "canceled",
        EventStatus::Other => "none",
    }
}

/// The name of an availability.
pub fn availability_name(a: Availability) -> (r: &'static str)
    ensures
        r@ == match a {
            Availability::Busy => "busy"@,
            Availability::Free => "free"@,
            Availability::Tentative => "tentative"@,
            Availability::Unavailable => "unavailable"@,
            Availability::Other => "not supported"@,
        },
{
    match a {
        Availability::Busy => "busy",
        Availability::Free => "free",
        Availability::Tentative => "tentative",
        Availability::Unavailable => "unavailable",
        Availability::Other => "not supported",
    }
}

/// How a recurrence ends: after a number of occurrences (0 when not by count), or on a date.
#[derive(Clone, Copy, Debug, PartialEq, Eq, Structural)]
pub struct RecurrenceEnd {
    pub occurrences: u64,
    pub until: Option<Date>,
}

/// The unit a recurrence is described in.
pub open spec fn unit_name(f: Option<Frequency>) -> Seq<char> {
    match f {
        Some(Frequency::Daily) => "day"@,
        Some(Frequency::Weekly) => "week"@,
        Some(Frequency::Monthly) => "month"@,
        Some(Frequency::Yearly) => "year"@,
        None => "interval"@,
    }
}

/// How a recurrence is summarized on an event: `Every week`, `Every 2 weeks`, then its end.
pub open spec fn recurrence_text(f: Option<Frequency>, interval: i64, end: Option<RecurrenceEnd>) -> Seq<char> {
    (if interval <= 1 {
        "Every "@ + unit_name(f)
    } else {
        "Every "@ + dec(interval as nat) + " "@ + unit_name(f) + "s"@
    }) + match end {
        Some(e) => if e.occurrences > 0 {
            " for "@ + dec(e.occurrences as nat) + " occurrences"@
        } else {
            match e.until {
                Some(d) => " until "@ + crate::time::ymd_text(d),
                None => Seq::empty(),
            }
        },
        None => Seq::empty(),
    }
}

/// The summary of a recurrence (`None` frequency stands for one the store does not name).
pub fn recurrence_summary_text(f: Option<Frequency>, interval: i64, end: Option<RecurrenceEnd>) -> (r: String)
    requires
        end matches Some(e) ==> (e.until matches Some(d) ==> d.valid()),
    ensures
        r@ == recurrence_text(f, interval, end),
{
    let unit = match f {
        Some(Frequency::Daily) => "day",
        Some(Frequency::Weekly) => "week",
        Some(Frequency::Monthly) => "month",
        Some(Frequency::Yearly) => "year",
        None => "interval",
    };
    let mut out = chars_of("Every ");
    if interval <= 1 {
        push_str(&mut out, unit);
    } else {
        push_chars(&mut out, &crate::text::dec_chars(interval as u64));
        push_str(&mut out, " ");
        push_str(&mut out, unit);
        push_str(&mut out, "s");
    }
    if let Some(e) = end {
        if e.occurrences > 0 {
            push_str(&mut out, " for ");
            push_chars(&mut out, &crate::text::dec_chars(e.occurrences));
            push_str(&mut out, " occurrences");
        } else if let Some(d) = e.until {
            push_str(&mut out, " until ");
            push_chars(&mut out, &crate::time::format_ymd(d));
        }
    }
    string_from_chars(&out)
}

/// The rule a recurrence is recorded as: its frequency name (`custom` for others), an
/// interval of at least one, and its end by count or by date.
pub fn recurrence_rule_info(f: Option<Frequency>, interval: i64, end: Option<RecurrenceEnd>) -> (r:
    RecurrenceRuleInfo)
    ensures
        r.frequency@ == match f {
            Some(Frequency::Daily) => "daily"@,
            Some(Frequency::Weekly) => "weekly"@,
            Some(Frequency::Monthly) => "monthly"@,
            Some(Frequency::Yearly) => "yearly"@,
            None => "custom"@,
        },
        r.interval == (if interval < 1 {
            1
        } else {
            interval
        }) as u32,
        r.count == match end {
            Some(e) => if e.occurrences > 0 {
                Some(e.occurrences as u32)
            } else {
                None
            },
            None => None,
        },
        r.until == match end {
            Some(e) => if e.occurrences > 0 {
                None
            } else {
                e.until
            },
            None => None,
        },
{
    let name = match f {
        Some(Frequency::Daily) => "daily",
        Some(Frequency::Weekly) => "weekly",
        Some(Frequency::Monthly) => "monthly",
        Some(Frequency::Yearly) => "yearly",
        None => "custom",
    };
    let iv: i64 = if interval < 1 {
        1
    } else {
        interval
    };
    let (count, until) = match end {
        Some(e) => if e.occurrences > 0 {
            (Some(e.occurrences as u32), None)
        } else {
            (None, e.until)
        },
        None => (None, None),
    };
    RecurrenceRuleInfo {
        frequency: string_from_chars(&chars_of(name)),
        interval: iv as u32,
        count,
        until,
    }
}

/// A timed event must end after it starts.
pub fn check_event_times(start: Moment, end: Moment, all_day: bool) -> (r: Result<(), AppError>)
    ensures
        agrees(
            r,
            if !all_day && end.timestamp <= start.timestamp {
                Err((ErrorKind::InvalidDate, "end time must be after start time"@))
            } else {
                Ok(())
            },
        ),
{
    if !all_day && end.timestamp <= start.timestamp {
        return Err(invalid_date_str("end time must be after start time"));
    }
    Ok(())
}

/// How a recorded rule ends in the store: after its count, or at the last second of its
/// last day (placed in the time zone).
#[derive(Clone, Copy, Debug, PartialEq, Eq, Structural)]
pub enum RuleEnd {
    Count(u32),
    Until(Moment),
}

/// The end of a recorded rule.
pub fn recurrence_end_for_rule(rule: &RecurrenceRuleInfo) -> (r: Result<Option<RuleEnd>, AppError>)
    requires
        rule.until matches Some(d) ==> d.valid(),
    ensures
        rule.count matches Some(c) ==> r == Ok::<Option<RuleEnd>, AppError>(Some(RuleEnd::Count(c))),
        rule.count is None && rule.until is None ==> r == Ok::<Option<RuleEnd>, AppError>(None),
        rule.count is None && rule.until is Some ==> match r {
            Ok(Some(RuleEnd::Until(m))) => m.wf() && m.local_secs() == (DateTime {
                date: rule.until->0,
                time: Time { secs: 86399 },
            }).secs(),
            Ok(_) => false,
            Err(e) => e.is(
                (
                    ErrorKind::InvalidDate,
                    naive_text(DateTime { date: rule.until->0, time: Time { secs: 86399 } }),
                ),
            ),
        },
{
    if let Some(c) = rule.count {
        return Ok(Some(RuleEnd::Count(c)));
    }
    match rule.until {
        None => Ok(None),
        Some(d) => match localize_datetime(DateTime { date: d, time: Time { secs: 86399 } }) {
            Ok(m) => Ok(Some(RuleEnd::Until(m))),
            Err(e) => Err(e),
        },
    }
}

/// The scope recorded for undoing a created event: the whole series when it repeats.
pub fn created_scope(recurring: bool) -> (r: Option<RecurrenceScope>)
    ensures
        recurring ==> r == Some(RecurrenceScope::Future),
        !recurring ==> r is None,
{
    if recurring {
        Some(RecurrenceScope::Future)
    } else {
        None
    }
}

/// The all-day flag after an update: the new one, or the current one when none is given.
pub open spec fn flag_after(all_day: Option<bool>, current: bool) -> bool {
    match all_day {
        Some(v) => v,
        None => current,
    }
}

/// The dates an update sets in the store, when it changes them: the new range (with an
/// all-day end moved back to the last day); `None` when neither the times nor the all-day
/// flag change.
pub fn update_dates(
    current_all_day: bool,
    current_start: Moment,
    current_end: Moment,
    start: Option<DateTime>,
    end: Option<DateTime>,
    all_day: Option<bool>,
) -> (r: Result<Option<(Moment, Moment)>, AppError>)
    requires
        current_start.wf(),
        current_end.wf(),
        start matches Some(s) ==> s.valid() && MIN_CE + 3 <= s.date.days,
        end matches Some(e) ==> e.valid() && MIN_CE + 3 <= e.date.days && e.date.days < MAX_CE,
        MIN_CE + 3 <= current_end.local().date.days,
        current_end.local().date.days < MAX_CE,
    ensures
        (current_all_day && !flag_after(all_day, current_all_day) && (start is None || end is None)) ==> (r matches Err(e) && e.is(
            (
                ErrorKind::InvalidArgument,
                "Converting an all-day event to a timed event requires both --start and --end."@,
            ),
        )),
        !(current_all_day && !flag_after(all_day, current_all_day) && (start is None || end is None)) ==> exists|t: Result<(Moment, Moment), AppError>|
            #[trigger] time_range_outcome(
                current_start,
                current_end,
                start,
                end,
                flag_after(all_day, current_all_day),
                t,
            ) && match t {
                Err(e) => r == Err::<Option<(Moment, Moment)>, AppError>(e),
                Ok((a, b)) => if start is Some || end is Some || all_day is Some {
                    r matches Ok(Some((x, y))) && x == a && (if flag_after(all_day, current_all_day) {
                        y.wf() && y.timestamp == b.timestamp - 86400
                    } else {
                        y == b
                    })
                } else {
                    r == Ok::<Option<(Moment, Moment)>, AppError>(None)
                },
            },
{
    let updated_all_day = match all_day {
        Some(x) => x,
        None => current_all_day,
    };
    match validate_all_day_transition(current_all_day, updated_all_day, start, end) {
        Err(e) => return Err(e),
        Ok(()) => {},
    }
    let range = validate_updated_time_range(current_start, current_end, start, end, updated_all_day);
    proof {
        assert(updated_all_day == flag_after(all_day, current_all_day));
        assert(time_range_outcome(current_start, current_end, start, end, flag_after(all_day, current_all_day), range));
    }
    let (s, e) = match range {
        Err(err) => return Err(err),
        Ok(p) => p,
    };
    if start.is_some() || end.is_some() || all_day.is_some() {
        let out = eventkit_update_range(s, e, updated_all_day);
        Ok(Some(out))
    } else {
        Ok(None)
    }
}

} // verus!
