//! The date range a search covers.
use vstd::prelude::*;
use crate::dateparse::{date_spec, parse_date_at};
use crate::error::{agrees, AppError, ErrorKind, Failure};
use crate::events::{opt_view, validate_date_range};
use crate::text::{chars_of, string_from_chars};
use crate::time::{Date, MAX_CE, MIN_CE};

verus! {

/// Days a search reaches back when only its end, or nothing, is given.
pub const SEARCH_PAST_DAYS: i32 = 30;

/// Days a search reaches forward when only its start, or nothing, is given.
pub const SEARCH_FUTURE_DAYS: i32 = 90;

/// A date read from text, or the error that names the text.
pub open spec fn date_or_error(s: Seq<char>, today: Date) -> Result<Date, Failure> {
    match date_spec(s, today) {
        Some(d) => Ok(d),
        None => Err((ErrorKind::InvalidDate, s)),
    }
}

/// The range a search covers: `--from` through `--to`; a missing end is the start plus
/// ninety days, a missing start is the end minus thirty days, and with neither the range is
/// thirty days back to ninety days ahead of today. The range must not end before it starts.
pub open spec fn search_range(from: Option<Seq<char>>, to: Option<Seq<char>>, today: Date) -> Result<
    (Date, Date),
    Failure,
> {
    let from_date: Result<Date, Failure> = match (from, to) {
        (Some(s), _) => date_or_error(s, today),
        (None, Some(s)) => match date_or_error(s, today) {
            Ok(d) => Ok(Date { days: (d.days - 30) as i32 }),
            Err(f) => Err(f),
        },
        (None, None) => Ok(Date { days: (today.days - 30) as i32 }),
    };
    match from_date {
        Err(f) => Err(f),
        Ok(fd) => {
            let to_date: Result<Date, Failure> = match (from, to) {
                (_, Some(s)) => date_or_error(s, today),
                (Some(_), None) => Ok(Date { days: (fd.days + 90) as i32 }),
                (None, None) => Ok(Date { days: (today.days + 90) as i32 }),
            };
            match to_date {
                Err(f) => Err(f),
                Ok(td) => if td.days < fd.days {
                    Err((ErrorKind::InvalidDate, "to date must be on or after from date"@))
                } else {
                    Ok((fd, td))
                },
            }
        },
    }
}

/// The dates a search range is computed from stay far enough from the ends of the calendar
/// for the thirty and ninety day offsets.
pub open spec fn search_range_in_bounds(
    from: Option<Seq<char>>,
    to: Option<Seq<char>>,
    today: Date,
) -> bool {
    &&& today.valid()
    &&& (from is None ==> MIN_CE + 30 <= today.days && today.days + 90 <= MAX_CE)
    &&& (match (from, to) {
        (Some(s), None) => match date_spec(s, today) {
            Some(d) => d.days + 90 <= MAX_CE,
            None => true,
        },
        (None, Some(s)) => match date_spec(s, today) {
            Some(d) => MIN_CE + 30 <= d.days,
            None => true,
        },
        _ => true,
    })
}

fn read_date(s: &str, today: Date) -> (r: Result<Date, AppError>)
    requires
        today.valid(),
    ensures
        agrees(r, date_or_error(s@, today)),
        r matches Ok(d) ==> d.valid(),
{
    match parse_date_at(s, today) {
        Some(d) => Ok(d),
        None => Err(AppError::InvalidDate(string_from_chars(&chars_of(s)))),
    }
}

/// The range a search covers, relative to `today`.
pub fn resolve_search_range(from: Option<&str>, to: Option<&str>, today: Date) -> (r: Result<
    (Date, Date),
    AppError,
>)
    requires
        search_range_in_bounds(
            match from {
                Some(s) => Some(s@),
                None => None,
            },
            match to {
                Some(s) => Some(s@),
                None => None,
            },
            today,
        ),
    ensures
        agrees(
            r,
            search_range(
                match from {
                    Some(s) => Some(s@),
                    None => None,
                },
                match to {
                    Some(s) => Some(s@),
                    None => None,
                },
                today,
            ),
        ),
{
    let from_date = match (from, to) {
        (Some(s), _) => match read_date(s, today) {
            Ok(d) => d,
            Err(e) => return Err(e),
        },
        (None, Some(s)) => match read_date(s, today) {
            Ok(d) => Date { days: d.days - SEARCH_PAST_DAYS },
            Err(e) => return Err(e),
        },
        (None, None) => Date { days: today.days - SEARCH_PAST_DAYS },
    };
    let to_date = match (from, to) {
        (_, Some(s)) => match read_date(s, today) {
            Ok(d) => d,
            Err(e) => return Err(e),
        },
        (Some(_), None) => Date { days: from_date.days + SEARCH_FUTURE_DAYS },
        (None, None) => Date { days: today.days + SEARCH_FUTURE_DAYS },
    };
    match validate_date_range(from_date, to_date) {
        Err(e) => Err(e),
        Ok(()) => Ok((from_date, to_date)),
    }
}

/// Whether a search range stays clear of the ends of the calendar where its defaults add or
/// take days.
pub fn search_range_bounds_hold(from: Option<&str>, to: Option<&str>, today: Date) -> (r: bool)
    ensures
        r == search_range_in_bounds(opt_view(from), opt_view(to), today),
{
    if !(MIN_CE <= today.days && today.days <= MAX_CE) {
        return false;
    }
    if from.is_none() && !(MIN_CE + 30 <= today.days && today.days + 90 <= MAX_CE) {
        return false;
    }
    match (from, to) {
        (Some(s), None) => match parse_date_at(s, today) {
            Some(d) => d.days + 90 <= MAX_CE,
            None => true,
        },
        (None, Some(s)) => match parse_date_at(s, today) {
            Some(d) => MIN_CE + 30 <= d.days,
            None => true,
        },
        _ => true,
    }
}

} // verus!
