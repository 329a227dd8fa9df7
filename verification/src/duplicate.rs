//! When a copy of an event (a duplicate, or an event made from a template) takes place.
use vstd::prelude::*;
use crate::dateparse::{all_day_date_spec, datetime_spec, parse_all_day_date_at, parse_datetime_at};
use crate::error::{invalid_date_str, AppError, ErrorKind};
use crate::store::{localize_datetime, EventDraft};
use crate::text::{chars_of, string_from_chars};
use crate::time::{
    moment_add_secs, naive_text, Date, DateTime, Moment, MAX_CE, MAX_SECS, MIN_CE, MIN_SECS,
};

verus! {

/// `m` is the wall-clock reading `dt` placed in the time zone.
pub open spec fn placed(m: Moment, dt: DateTime) -> bool {
    m.wf() && m.local_secs() == dt.secs()
}

/// The day after `d`.
pub open spec fn next_day(d: Date) -> Date {
    Date { days: (d.days + 1) as i32 }
}

/// Days an all-day draft spans, from its first day to the day it ends on.
pub open spec fn span_days(draft: EventDraft) -> int {
    draft.end.local().date.days - draft.start.local().date.days
}

/// The start of an all-day copy: midnight of the given date, or the draft's start.
pub open spec fn all_day_start(m: Moment, start: Option<Seq<char>>, draft: EventDraft, today: Date) -> bool {
    match start {
        Some(v) => match all_day_date_spec(v, today) {
            Some(d) => placed(m, d.midnight()),
            None => false,
        },
        None => m == draft.start,
    }
}

/// The end of an all-day copy: midnight after the given last date, or the start moved by the
/// draft's span of days.
pub open spec fn all_day_end(m: Moment, end: Option<Seq<char>>, s: Moment, draft: EventDraft, today: Date) -> bool {
    match end {
        Some(v) => match all_day_date_spec(v, today) {
            Some(d) => placed(m, next_day(d).midnight()),
            None => false,
        },
        None => m.wf() && m.timestamp == s.timestamp + span_days(draft) * 86400,
    }
}

/// The start of a timed copy: the given reading placed in the time zone, or the draft's start.
pub open spec fn timed_start(m: Moment, start: Option<Seq<char>>, draft: EventDraft, now: Moment) -> bool {
    match start {
        Some(v) => match datetime_spec(v, now) {
            Some(dt) => placed(m, dt),
            None => false,
        },
        None => m == draft.start,
    }
}

/// The end of a timed copy: the given reading, or the new start plus the draft's length when
/// only the start moves, or the draft's end.
pub open spec fn timed_end(
    m: Moment,
    end: Option<Seq<char>>,
    start_given: bool,
    s: Moment,
    draft: EventDraft,
    now: Moment,
) -> bool {
    match end {
        Some(v) => match datetime_spec(v, now) {
            Some(dt) => placed(m, dt),
            None => false,
        },
        None => if start_given {
            m.wf() && m.timestamp == s.timestamp + (draft.end.timestamp - draft.start.timestamp)
        } else {
            m == draft.end
        },
    }
}

/// The text of an optional argument.
pub open spec fn opt_text(o: Option<&str>) -> Option<Seq<char>> {
    match o {
        Some(s) => Some(s@),
        None => None,
    }
}

/// The values an instantiation starts from stay clear of the ends of the representable range.
pub open spec fn instantiation_in_bounds(
    draft: EventDraft,
    start: Option<Seq<char>>,
    end: Option<Seq<char>>,
    now: Moment,
) -> bool {
    let today = now.local().date;
    &&& now.wf()
    &&& draft.start.wf()
    &&& draft.end.wf()
    &&& draft.all_day ==> match end {
        Some(v) => match all_day_date_spec(v, today) {
            Some(d) => d.days < MAX_CE,
            None => true,
        },
        None => match start {
            Some(v) => match all_day_date_spec(v, today) {
                Some(d) => MIN_CE + 3 <= d.days + span_days(draft) <= MAX_CE - 3,
                None => true,
            },
            None => MIN_CE + 3 <= draft.start.local().date.days + span_days(draft) <= MAX_CE - 3,
        },
    }
    &&& !draft.all_day ==> match (start, end) {
        (Some(v), None) => match datetime_spec(v, now) {
            Some(dt) => MIN_SECS + 2 * 86400 <= dt.secs() + (draft.end.timestamp
                - draft.start.timestamp) <= MAX_SECS - 2 * 86400,
            None => true,
        },
        _ => true,
    }
}

/// `s` and `e` are a start and end that instantiating `draft` with the given texts yields.
pub open spec fn instantiated(
    draft: EventDraft,
    start: Option<Seq<char>>,
    end: Option<Seq<char>>,
    now: Moment,
    s: Moment,
    e: Moment,
) -> bool {
    if draft.all_day {
        all_day_start(s, start, draft, now.local().date) && all_day_end(
            e,
            end,
            s,
            draft,
            now.local().date,
        ) && e.timestamp > s.timestamp
    } else {
        timed_start(s, start, draft, now) && timed_end(e, end, start is Some, s, draft, now)
            && e.timestamp > s.timestamp
    }
}

/// `err` is an error that instantiating `draft` with the given texts can end in: a text that
/// does not read as a date (or date and time), a reading the time zone skips, or an end that
/// is not after the start.
pub open spec fn instantiation_failed(
    draft: EventDraft,
    start: Option<Seq<char>>,
    end: Option<Seq<char>>,
    now: Moment,
    err: AppError,
) -> bool {
    if draft.all_day {
        let today = now.local().date;
        (start matches Some(v) && all_day_date_spec(v, today) is None && err.is(
            (ErrorKind::InvalidDate, v),
        )) || (start matches Some(v) && all_day_date_spec(v, today) matches Some(d) && err.is(
            (ErrorKind::InvalidDate, naive_text(d.midnight())),
        )) || exists|s: Moment|
            all_day_start(s, start, draft, today) && ((end matches Some(v) && all_day_date_spec(
                v,
                today,
            ) is None && err.is((ErrorKind::InvalidDate, v))) || (end matches Some(v)
                && all_day_date_spec(v, today) matches Some(d) && err.is(
                (ErrorKind::InvalidDate, naive_text(next_day(d).midnight())),
            )) || (err.is((ErrorKind::InvalidDate, "end date must be on or after start date"@))
                && exists|e: Moment| all_day_end(e, end, s, draft, today) && e.timestamp <= s.timestamp))
    } else {
        (start matches Some(v) && datetime_spec(v, now) is None && err.is((ErrorKind::InvalidDate, v)))
            || (start matches Some(v) && datetime_spec(v, now) matches Some(dt) && err.is(
            (ErrorKind::InvalidDate, naive_text(dt)),
        )) || exists|s: Moment|
            timed_start(s, start, draft, now) && ((end matches Some(v) && datetime_spec(v, now) is None
                && err.is((ErrorKind::InvalidDate, v))) || (end matches Some(v) && datetime_spec(
                v,
                now,
            ) matches Some(dt) && err.is((ErrorKind::InvalidDate, naive_text(dt)))) || (err.is(
                (ErrorKind::InvalidDate, "end time must be after start time"@),
            ) && exists|e: Moment|
                timed_end(e, end, start is Some, s, draft, now) && e.timestamp <= s.timestamp))
    }
}

proof fn lemma_local_bounds(m: Moment)
    requires
        m.wf(),
    ensures
        (m.local().date.days - 719163) * 86400 - 86400 < m.timestamp,
        m.timestamp < (m.local().date.days - 719163) * 86400 + 2 * 86400,
{
    let l = m.local_secs();
    assert(86400 * (l / 86400) <= l < 86400 * (l / 86400) + 86400) by (nonlinear_arith);
    assert(m.local().date.days == l / 86400 + 719163);
}

fn invalid_text(v: &str) -> (r: AppError)
    ensures
        r.is((ErrorKind::InvalidDate, v@)),
{
    AppError::InvalidDate(string_from_chars(&chars_of(v)))
}

/// The start and end of a copy of `draft`, moved to the given start and end when they are
/// given. `now` is the instant that natural-language input is read against.
pub fn resolve_instantiation_times(
    draft: &EventDraft,
    start: Option<&str>,
    end: Option<&str>,
    now: Moment,
) -> (r: Result<(Moment, Moment), AppError>)
    requires
        instantiation_in_bounds(*draft, opt_text(start), opt_text(end), now),
    ensures
        match r {
            Ok((s, e)) => instantiated(*draft, opt_text(start), opt_text(end), now, s, e),
            Err(err) => instantiation_failed(*draft, opt_text(start), opt_text(end), now, err),
        },
        start is Some && (if draft.all_day {
            all_day_date_spec(start->0@, now.local().date) is None
        } else {
            datetime_spec(start->0@, now) is None
        }) ==> (r matches Err(err) && err.is((ErrorKind::InvalidDate, start->0@))),
{
    let today = now.date_naive();
    if draft.all_day {
        let span: i64 = draft.end.date_naive().days as i64 - draft.start.date_naive().days as i64;
        let start_dt = match start {
            Some(value) => match parse_all_day_date_at(value, today) {
                Some(d) => match localize_datetime(d.at_midnight()) {
                    Ok(m) => m,
                    Err(e) => return Err(e),
                },
                None => return Err(invalid_text(value)),
            },
            None => draft.start,
        };
        let end_dt = match end {
            Some(value) => match parse_all_day_date_at(value, today) {
                Some(d) => {
                    let next = Date { days: d.days + 1 };
                    match localize_datetime(next.at_midnight()) {
                        Ok(m) => m,
                        Err(e) => {
                            assert(all_day_start(start_dt, opt_text(start), *draft, today));
                            return Err(e);
                        },
                    }
                },
                None => {
                    assert(all_day_start(start_dt, opt_text(start), *draft, today));
                    return Err(invalid_text(value));
                },
            },
            None => {
                proof {
                    lemma_local_bounds(start_dt);
                    if start is Some {
                        let d = all_day_date_spec(start->0@, today)->0;
                        assert(start_dt.local().date.days == d.days) by {
                            assert(start_dt.local_secs() == (d.days - 719163) * 86400);
                            assert(((d.days - 719163) * 86400) / 86400 == d.days - 719163) by (nonlinear_arith);
                        }
                    }
                    assert(MIN_SECS + 86400 <= start_dt.timestamp + span * 86400 <= MAX_SECS - 86400) by (nonlinear_arith)
                        requires
                            (start_dt.local().date.days - 719163) * 86400 - 86400 < start_dt.timestamp,
                            start_dt.timestamp < (start_dt.local().date.days - 719163) * 86400 + 2 * 86400,
                            MIN_CE + 3 <= start_dt.local().date.days + span <= MAX_CE - 3,
                    ;
                }
                moment_add_secs(start_dt, span * 86400)
            },
        };
        if end_dt.timestamp <= start_dt.timestamp {
            assert(all_day_start(start_dt, opt_text(start), *draft, today) && all_day_end(
                end_dt,
                opt_text(end),
                start_dt,
                *draft,
                today,
            ) && end_dt.timestamp <= start_dt.timestamp);
            return Err(invalid_date_str("end date must be on or after start date"));
        }
        Ok((start_dt, end_dt))
    } else {
        let start_dt = match start {
            Some(value) => match parse_datetime_at(value, now) {
                Some(dt) => match localize_datetime(dt) {
                    Ok(m) => m,
                    Err(e) => return Err(e),
                },
                None => return Err(invalid_text(value)),
            },
            None => draft.start,
        };
        let end_dt = match end {
            Some(value) => match parse_datetime_at(value, now) {
                Some(dt) => match localize_datetime(dt) {
                    Ok(m) => m,
                    Err(e) => {
                        assert(timed_start(start_dt, opt_text(start), *draft, now));
                        return Err(e);
                    },
                },
                None => {
                    assert(timed_start(start_dt, opt_text(start), *draft, now));
                    return Err(invalid_text(value));
                },
            },
            None => if start.is_some() {
                moment_add_secs(start_dt, draft.end.timestamp - draft.start.timestamp)
            } else {
                draft.end
            },
        };
        if end_dt.timestamp <= start_dt.timestamp {
            assert(timed_start(start_dt, opt_text(start), *draft, now) && timed_end(
                end_dt,
                opt_text(end),
                start is Some,
                start_dt,
                *draft,
                now,
            ) && end_dt.timestamp <= start_dt.timestamp);
            return Err(invalid_date_str("end time must be after start time"));
        }
        Ok((start_dt, end_dt))
    }
}

/// Whether the values an instantiation starts from stay clear of the ends of the
/// representable range.
pub fn instantiation_bounds_hold(draft: &EventDraft, start: Option<&str>, end: Option<&str>, now: Moment) -> (r:
    bool)
    ensures
        r == instantiation_in_bounds(*draft, opt_text(start), opt_text(end), now),
{
    if !now.is_wf() || !draft.start.is_wf() || !draft.end.is_wf() {
        return false;
    }
    let today = now.date_naive();
    if draft.all_day {
        match end {
            Some(v) => match parse_all_day_date_at(v, today) {
                Some(d) => d.days < MAX_CE,
                None => true,
            },
            None => {
                let span: i64 = draft.end.date_naive().days as i64 - draft.start.date_naive().days as i64;
                let first: i64 = match start {
                    Some(v) => match parse_all_day_date_at(v, today) {
                        Some(d) => d.days as i64,
                        None => return true,
                    },
                    None => draft.start.date_naive().days as i64,
                };
                MIN_CE as i64 + 3 <= first + span && first + span <= MAX_CE as i64 - 3
            },
        }
    } else {
        match (start, end) {
            (Some(v), None) => match parse_datetime_at(v, now) {
                Some(dt) => {
                    let length: i64 = draft.end.timestamp - draft.start.timestamp;
                    let moved: i64 = dt.total_secs() + length;
                    MIN_SECS + 2 * 86400 <= moved && moved <= MAX_SECS - 2 * 86400
                },
                None => true,
            },
            _ => true,
        }
    }
}

/// When a copy takes place, or `None` when its inputs lie too close to the ends of the
/// representable range for the rules to apply.
pub fn instantiate(draft: &EventDraft, start: Option<&str>, end: Option<&str>, now: Moment) -> (r: Option<
    Result<(Moment, Moment), AppError>,
>)
    ensures
        r is None <==> !instantiation_in_bounds(*draft, opt_text(start), opt_text(end), now),
        r matches Some(res) ==> match res {
            Ok((s, e)) => instantiated(*draft, opt_text(start), opt_text(end), now, s, e),
            Err(err) => instantiation_failed(*draft, opt_text(start), opt_text(end), now, err),
        },
{
    if !instantiation_bounds_hold(draft, start, end, now) {
        return None;
    }
    Some(resolve_instantiation_times(draft, start, end, now))
}

} // verus!
