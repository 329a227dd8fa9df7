//! Options of the free-time search: its time window and how slot lengths are shown.
use vstd::prelude::*;
use crate::error::{agrees, invalid_argument_str, invalid_date, AppError, ErrorKind, Failure};
use crate::events::validate_date_range;
use crate::text::{
    chars_of, dec, dec_chars, find, find_char, parse_u32, push_chars, push_str, slice_of,
    spec_parse_u32,
};
use crate::time::{from_hms, hms, Date, Time};

verus! {

/// What `parse_hhmm` decides: `H:M` with decimal hour and minute of a valid time.
pub open spec fn hhmm_check(s: Seq<char>) -> Result<Time, Failure> {
    match find_char(s, ':') {
        None => Err((ErrorKind::InvalidDate, s + " (expects HH:MM)"@)),
        Some(i) => match (
            spec_parse_u32(s.subrange(0, i)),
            spec_parse_u32(s.subrange(i + 1, s.len() as int)),
        ) {
            (Some(h), Some(m)) => match hms(h as int, m as int, 0) {
                Some(t) => Ok(t),
                None => Err((ErrorKind::InvalidDate, s + " (invalid time)"@)),
            },
            _ => Err((ErrorKind::InvalidDate, s + " (expects HH:MM)"@)),
        },
    }
}

fn with_suffix(s: &str, suffix: &str) -> (r: AppError)
    ensures
        r.is((ErrorKind::InvalidDate, s@ + suffix@)),
{
    let mut m = chars_of(s);
    push_str(&mut m, suffix);
    invalid_date(m)
}

/// Reads `HH:MM` for `--after` and `--before`.
pub fn parse_hhmm(s: &str) -> (r: Result<Time, AppError>)
    ensures
        agrees(r, hhmm_check(s@)),
        r matches Ok(t) ==> t.valid(),
{
    let v = chars_of(s);
    let i = match find(&v, ':') {
        Some(i) => i,
        None => return Err(with_suffix(s, " (expects HH:MM)")),
    };
    let hs = slice_of(&v, 0, i);
    let ms = slice_of(&v, i + 1, v.len());
    let h = match parse_u32(&hs) {
        Some(h) => h,
        None => return Err(with_suffix(s, " (expects HH:MM)")),
    };
    let m = match parse_u32(&ms) {
        Some(m) => m,
        None => return Err(with_suffix(s, " (expects HH:MM)")),
    };
    match from_hms(h, m, 0) {
        Some(t) => Ok(t),
        None => Err(with_suffix(s, " (invalid time)")),
    }
}

/// Reads `HH:MM` for `--after` and `--before`.
pub fn parse_hhmm_validate(s: &str) -> (r: Result<Time, AppError>)
    ensures
        agrees(r, hhmm_check(s@)),
        r matches Ok(t) ==> t.valid(),
{
    parse_hhmm(s)
}

/// The free-time range must not end before it starts.
pub fn validate_range(from: Date, to: Date) -> (r: Result<(), AppError>)
    ensures
        agrees(
            r,
            if to.days < from.days {
                Err((ErrorKind::InvalidDate, "to date must be on or after from date"@))
            } else {
                Ok(())
            },
        ),
{
    validate_date_range(from, to)
}

/// When both bounds are given, `--after` must come before `--before`.
pub open spec fn window_check(after: Option<Time>, before: Option<Time>) -> Result<(), Failure> {
    match (after, before) {
        (Some(a), Some(b)) => if a.secs >= b.secs {
            Err((ErrorKind::InvalidArgument, "--after must be earlier than --before"@))
        } else {
            Ok(())
        },
        _ => Ok(()),
    }
}

/// Checks the daily time window of the free-time search.
pub fn validate_time_window(after: Option<Time>, before: Option<Time>) -> (r: Result<(), AppError>)
    ensures
        agrees(r, window_check(after, before)),
{
    if let (Some(a), Some(b)) = (after, before) {
        if a.secs >= b.secs {
            return Err(invalid_argument_str("--after must be earlier than --before"));
        }
    }
    Ok(())
}

/// A length in minutes as `45m`, `2h` or `1h 30m`.
pub open spec fn minutes_text(mins: nat) -> Seq<char> {
    if mins < 60 {
        dec(mins) + "m"@
    } else if mins % 60 == 0 {
        dec(mins / 60) + "h"@
    } else {
        dec(mins / 60) + "h "@ + dec(mins % 60) + "m"@
    }
}

/// How the length of a free slot is shown.
pub fn format_slot_duration(mins: u32) -> (r: String)
    ensures
        r@ == minutes_text(mins as nat),
{
    let mut out: Vec<char>;
    if mins < 60 {
        out = dec_chars(mins as u64);
        push_str(&mut out, "m");
    } else if mins % 60 == 0 {
        out = dec_chars((mins / 60) as u64);
        push_str(&mut out, "h");
    } else {
        out = dec_chars((mins / 60) as u64);
        push_str(&mut out, "h ");
        let rest = dec_chars((mins % 60) as u64);
        push_chars(&mut out, &rest);
        push_str(&mut out, "m");
    }
    crate::text::string_from_chars(&out)
}

} // verus!
