//! The health report: calendar access, time zone, default calendar and which calendars can
//! be written.
use vstd::prelude::*;
use crate::error::{message_spec, AppError};
use crate::store::CalendarInfo;
use crate::text::{chars_of, dec, dec_chars, push_chars, push_str, string_from_chars};

verus! {

/// A calendar and whether new events can be saved to it.
#[derive(Clone, Debug)]
pub struct CalendarDiag {
    pub id: String,
    pub title: String,
    pub source: String,
    pub writable: bool,
}

/// Bold, dim, green, red and reset, or nothing without color.
pub open spec fn doctor_styles(color: bool) -> (Seq<char>, Seq<char>, Seq<char>, Seq<char>, Seq<char>) {
    if color {
        ("\x1b[1m"@, "\x1b[2m"@, "\x1b[32m"@, "\x1b[31m"@, "\x1b[0m"@)
    } else {
        (Seq::empty(), Seq::empty(), Seq::empty(), Seq::empty(), Seq::empty())
    }
}

/// One calendar's line: its write status, title, source and ID.
pub open spec fn diag_line(d: CalendarDiag, color: bool) -> Seq<char> {
    let (bold, dim, green, red, reset) = doctor_styles(color);
    let status = if d.writable {
        green + "rw"@ + reset
    } else {
        dim + "ro"@ + reset
    };
    "  ["@ + status + "] "@ + bold + d.title@ + reset + "  "@ + dim + "("@ + d.source@ + ")  "@
        + d.id@ + reset
}

/// The lines of the report on a terminal. Without access only access and time zone are shown.
pub open spec fn doctor_text(
    access: Result<(), AppError>,
    timezone: Seq<char>,
    default_calendar: Option<CalendarInfo>,
    calendars: Seq<CalendarDiag>,
    color: bool,
) -> Seq<Seq<char>> {
    let (bold, dim, green, red, reset) = doctor_styles(color);
    let access_line = match access {
        Ok(()) => green + "✓"@ + reset + " Calendar access: "@ + bold + "granted"@ + reset,
        Err(e) => red + "✗"@ + reset + " Calendar access: "@ + bold + message_spec(e) + reset,
    };
    let tz_line = green + "✓"@ + reset + " Timezone: "@ + bold + timezone + reset;
    match access {
        Err(_) => seq![access_line, tz_line],
        Ok(()) => {
            let default_line = match default_calendar {
                Some(c) => green + "✓"@ + reset + " Default calendar: "@ + bold + c.title@ + reset
                    + "  "@ + dim + "("@ + c.source@ + ")  "@ + c.id@ + reset,
                None => red + "✗"@ + reset + " Default calendar: "@ + bold + "not set"@ + reset,
            };
            seq![
                access_line,
                tz_line,
                default_line,
                Seq::empty(),
                bold + "Calendars ("@ + dec(calendars.len()) + "):"@ + reset,
            ] + calendars.map_values(|d: CalendarDiag| diag_line(d, color))
        },
    }
}

fn line_of(v: Vec<char>) -> (r: String)
    ensures
        r@ == v@,
{
    string_from_chars(&v)
}

fn diag_line_of(d: &CalendarDiag, bold: &str, dim: &str, green: &str, reset: &str) -> (r: String)
    ensures
        r@ == "  ["@ + (if d.writable {
            green@ + "rw"@ + reset@
        } else {
            dim@ + "ro"@ + reset@
        }) + "] "@ + bold@ + d.title@ + reset@ + "  "@ + dim@ + "("@ + d.source@ + ")  "@ + d.id@
            + reset@,
{
    let mut out = chars_of("  [");
    if d.writable {
        push_str(&mut out, green);
        push_str(&mut out, "rw");
    } else {
        push_str(&mut out, dim);
        push_str(&mut out, "ro");
    }
    push_str(&mut out, reset);
    push_str(&mut out, "] ");
    push_str(&mut out, bold);
    push_chars(&mut out, &chars_of(d.title.as_str()));
    push_str(&mut out, reset);
    push_str(&mut out, "  ");
    push_str(&mut out, dim);
    push_str(&mut out, "(");
    push_chars(&mut out, &chars_of(d.source.as_str()));
    push_str(&mut out, ")  ");
    push_chars(&mut out, &chars_of(d.id.as_str()));
    push_str(&mut out, reset);
    line_of(out)
}

/// The report's lines on a terminal.
pub fn doctor_lines(
    access: &Result<(), AppError>,
    timezone: &str,
    default_calendar: &Option<CalendarInfo>,
    calendars: &Vec<CalendarDiag>,
    no_color: bool,
) -> (r: Vec<String>)
    ensures
        r@.map_values(|s: String| s@) == doctor_text(
            *access,
            timezone@,
            *default_calendar,
            calendars@,
            !no_color,
        ),
{
    let color = !no_color;
    let (bold, dim, green, red, reset) = if color {
        ("\x1b[1m", "\x1b[2m", "\x1b[32m", "\x1b[31m", "\x1b[0m")
    } else {
        ("", "", "", "", "")
    };
    proof {
        if !color {
            reveal_strlit("");
        }
    }
    let mut lines: Vec<String> = Vec::new();
    let mut a: Vec<char> = Vec::new();
    match access {
        Ok(()) => {
            push_str(&mut a, green);
            push_str(&mut a, "✓");
            push_str(&mut a, reset);
            push_str(&mut a, " Calendar access: ");
            push_str(&mut a, bold);
            push_str(&mut a, "granted");
            push_str(&mut a, reset);
        },
        Err(e) => {
            push_str(&mut a, red);
            push_str(&mut a, "✗");
            push_str(&mut a, reset);
            push_str(&mut a, " Calendar access: ");
            push_str(&mut a, bold);
            push_chars(&mut a, &chars_of(e.message().as_str()));
            push_str(&mut a, reset);
        },
    }
    lines.push(line_of(a));
    let mut t = chars_of(green);
    push_str(&mut t, "✓");
    push_str(&mut t, reset);
    push_str(&mut t, " Timezone: ");
    push_str(&mut t, bold);
    push_chars(&mut t, &chars_of(timezone));
    push_str(&mut t, reset);
    lines.push(line_of(t));
    if access.is_err() {
        proof {
            assert(lines@.map_values(|s: String| s@) =~= doctor_text(
                *access,
                timezone@,
                *default_calendar,
                calendars@,
                color,
            ));
        }
        return lines;
    }
    let mut d: Vec<char> = Vec::new();
    match default_calendar {
        Some(c) => {
            push_str(&mut d, green);
            push_str(&mut d, "✓");
            push_str(&mut d, reset);
            push_str(&mut d, " Default calendar: ");
            push_str(&mut d, bold);
            push_chars(&mut d, &chars_of(c.title.as_str()));
            push_str(&mut d, reset);
            push_str(&mut d, "  ");
            push_str(&mut d, dim);
            push_str(&mut d, "(");
            push_chars(&mut d, &chars_of(c.source.as_str()));
            push_str(&mut d, ")  ");
            push_chars(&mut d, &chars_of(c.id.as_str()));
            push_str(&mut d, reset);
        },
        None => {
            push_str(&mut d, red);
            push_str(&mut d, "✗");
            push_str(&mut d, reset);
            push_str(&mut d, " Default calendar: ");
            push_str(&mut d, bold);
            push_str(&mut d, "not set");
            push_str(&mut d, reset);
        },
    }
    lines.push(line_of(d));
    lines.push(String::new());
    let mut h = chars_of(bold);
    push_str(&mut h, "Calendars (");
    push_chars(&mut h, &dec_chars(calendars.len() as u64));
    push_str(&mut h, "):");
    push_str(&mut h, reset);
    lines.push(line_of(h));
    let ghost head = lines@.map_values(|s: String| s@);
    let mut i: usize = 0;
    while i < calendars.len()
        invariant
            i <= calendars@.len(),
            bold@ == doctor_styles(color).0,
            dim@ == doctor_styles(color).1,
            green@ == doctor_styles(color).2,
            reset@ == doctor_styles(color).4,
            lines@.map_values(|s: String| s@) == head + calendars@.take(i as int).map_values(
                |c: CalendarDiag| diag_line(c, color),
            ),
        decreases calendars@.len() - i,
    {
        let ghost before = lines@;
        let line = diag_line_of(&calendars[i], bold, dim, green, reset);
        lines.push(line);
        i += 1;
        proof {
            assert(lines@.map_values(|s: String| s@) =~= before.map_values(|s: String| s@).push(line@));
            assert(calendars@.take(i as int).map_values(|c: CalendarDiag| diag_line(c, color))
                =~= calendars@.take(i as int - 1).map_values(|c: CalendarDiag| diag_line(c, color)).push(
                diag_line(calendars@[i as int - 1], color),
            ));
        }
    }
    proof {
        assert(calendars@.take(calendars@.len() as int) =~= calendars@);
        assert(lines@.map_values(|s: String| s@) =~= doctor_text(
            *access,
            timezone@,
            *default_calendar,
            calendars@,
            color,
        ));
    }
    lines
}

} // verus!
