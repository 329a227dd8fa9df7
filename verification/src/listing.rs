//! How an event listing looks on a terminal: a header, then one numbered row per event with
//! its date, time, title, calendar and length, highlighted by whether it is past, happening
//! now, all-day or upcoming.
use vstd::prelude::*;
use crate::events::{
    display_state, display_width, event_display_state, event_duration_text, format_event_duration,
    padded, pad_right, text_width, DisplayOpts, EventDisplayState,
};
use crate::store::EventInfo;
use crate::events::{duration_text, whole_minutes};
use crate::text::{
    chars_of, dec, dec_chars, digit_char, find, find_char, int_text, push_chars, push_str, slice_of,
    string_from_chars, zero_pad,
};
use crate::time::{
    format_hm, format_ymd, hm_text, lemma_civil_range, two_digits, year_text, ymd_text, civil, Date, Moment,
    Time, MAX_CE, MIN_CE,
};

verus! {

/// The terminal styles a listing uses: bold, dim, reset, green and cyan (all empty without
/// color).
pub open spec fn styles(color: bool) -> (Seq<char>, Seq<char>, Seq<char>, Seq<char>, Seq<char>) {
    if color {
        ("\x1b[1m"@, "\x1b[2m"@, "\x1b[0m"@, "\x1b[32m"@, "\x1b[36m"@)
    } else {
        (Seq::empty(), Seq::empty(), Seq::empty(), Seq::empty(), Seq::empty())
    }
}

/// `v` limited to the range from `lo` to `hi`.
pub open spec fn clamp(v: int, lo: int, hi: int) -> int {
    if v < lo {
        lo
    } else if v > hi {
        hi
    } else {
        v
    }
}

/// The widest title, if any.
pub open spec fn max_title(s: Seq<EventInfo>) -> Option<nat>
    decreases s.len(),
{
    if s.len() == 0 {
        None
    } else {
        let w = display_width(s.last().title@) as nat;
        match max_title(s.drop_last()) {
            Some(m) => Some(if m >= w { m } else { w }),
            None => Some(w),
        }
    }
}

/// The widest calendar name, if any.
pub open spec fn max_calendar(s: Seq<EventInfo>) -> Option<nat>
    decreases s.len(),
{
    if s.len() == 0 {
        None
    } else {
        let w = display_width(s.last().calendar@) as nat;
        match max_calendar(s.drop_last()) {
            Some(m) => Some(if m >= w { m } else { w }),
            None => Some(w),
        }
    }
}

/// The first line of a text (`str::lines`): up to the first line feed, without a carriage
/// return before it.
pub open spec fn first_line(s: Seq<char>) -> Seq<char> {
    match find_char(s, '\n') {
        Some(i) => {
            let l = s.take(i);
            if l.len() > 0 && l.last() == '\r' {
                l.drop_last()
            } else {
                l
            }
        },
        None => s,
    }
}

/// The widest first line of notes among the events that have notes, if any.
pub open spec fn max_notes(s: Seq<EventInfo>) -> Option<nat>
    decreases s.len(),
{
    if s.len() == 0 {
        None
    } else {
        let rest = max_notes(s.drop_last());
        match s.last().notes {
            Some(n) => {
                let w = display_width(first_line(n@)) as nat;
                match rest {
                    Some(m) => Some(if m >= w { m } else { w }),
                    None => Some(w),
                }
            },
            None => rest,
        }
    }
}

/// An optional width, or a default.
pub open spec fn or_default(o: Option<nat>, d: nat) -> int {
    match o {
        Some(v) => v as int,
        None => d as int,
    }
}

/// Column widths of a listing: title, calendar and notes (notes only when verbose).
pub open spec fn listing_widths(s: Seq<EventInfo>, verbose: bool) -> (int, int, int) {
    (
        clamp(or_default(max_title(s), 5), 5, 50),
        clamp(or_default(max_calendar(s), 8), 8, 30),
        if verbose {
            clamp(or_default(max_notes(s), 5), 5, 40)
        } else {
            0
        },
    )
}

/// Left-justified in a field of `w` characters (format's `{:<w}`).
pub open spec fn ljust(s: Seq<char>, w: int) -> Seq<char> {
    if s.len() >= w {
        s
    } else {
        s + Seq::new((w - s.len()) as nat, |i: int| ' ')
    }
}

/// Right-justified in a field of `w` characters (format's `{:>w}`).
pub open spec fn rjust(s: Seq<char>, w: int) -> Seq<char> {
    if s.len() >= w {
        s
    } else {
        Seq::new((w - s.len()) as nat, |i: int| ' ') + s
    }
}

/// The header line of a listing.
pub open spec fn header_text(verbose: bool, color: bool, title_w: int, cal_w: int, notes_w: int) -> Seq<char> {
    let (bold, dim, reset, green, cyan) = styles(color);
    if verbose {
        dim + "  "@ + rjust("#"@, 3) + "  "@ + ljust("DATE"@, 10) + "  "@ + ljust("TIME"@, 15)
            + "  "@ + ljust("TITLE"@, title_w) + "  "@ + ljust("CALENDAR"@, cal_w) + "  "@ + ljust(
            "DURATION"@,
            8,
        ) + "  "@ + ljust("NOTES"@, notes_w) + "  ID"@ + reset
    } else {
        dim + "  "@ + rjust("#"@, 3) + "  "@ + ljust("DATE"@, 10) + "  "@ + ljust("TIME"@, 15)
            + "  "@ + ljust("TITLE"@, title_w) + "  "@ + ljust("CALENDAR"@, cal_w) + "  DURATION"@
            + reset
    }
}

/// The time column of an event.
pub open spec fn time_text(e: EventInfo, color: bool) -> Seq<char> {
    if e.all_day {
        if color {
            "┄┄┄ all day ┄┄┄"@
        } else {
            "all day"@
        }
    } else {
        hm_text(e.start.local().time) + " "@ + (if color {
            "–"@
        } else {
            "-"@
        }) + " "@ + hm_text(e.end.local().time)
    }
}

/// The row of one event.
pub open spec fn row_text(
    e: EventInfo,
    row: nat,
    verbose: bool,
    color: bool,
    title_w: int,
    cal_w: int,
    notes_w: int,
    now: Moment,
) -> Seq<char> {
    let (bold, dim, reset, green, cyan) = styles(color);
    let num = rjust(dec(row), 3);
    let date_p = ymd_text(e.start.local().date);
    let time_p = padded(time_text(e, color), 15);
    let title_p = padded(e.title@, title_w as nat);
    let cal_p = padded(e.calendar@, cal_w as nat);
    let duration = event_duration_text(e);
    let suffix = if verbose {
        "  "@ + padded(
            match e.notes {
                Some(n) => first_line(n@),
                None => Seq::empty(),
            },
            notes_w as nat,
        ) + "  "@ + e.id@
    } else {
        Seq::empty()
    };
    let dur_p = if verbose {
        padded(duration, 8)
    } else {
        duration
    };
    match display_state(e, now) {
        EventDisplayState::Past => dim + "  "@ + num + "  "@ + date_p + "  "@ + time_p + "  "@
            + title_p + "  "@ + cal_p + "  "@ + dur_p + suffix + reset,
        EventDisplayState::Now => "  "@ + num + "  "@ + date_p + "  "@ + green + bold + time_p
            + reset + "  "@ + bold + title_p + reset + "  "@ + dim + cal_p + reset + "  "@ + dim
            + dur_p + suffix + reset,
        EventDisplayState::AllDay => "  "@ + num + "  "@ + date_p + "  "@ + cyan + time_p + reset
            + "  "@ + bold + title_p + reset + "  "@ + dim + cal_p + reset + "  "@ + dim + dur_p
            + suffix + reset,
        EventDisplayState::Upcoming => "  "@ + num + "  "@ + date_p + "  "@ + time_p + "  "@
            + bold + title_p + reset + "  "@ + dim + cal_p + reset + "  "@ + dim + dur_p + suffix
            + reset,
    }
}

/// The lines of a listing: a note when there is nothing to show; otherwise the header (unless
/// turned off) and one row per event, numbered from one.
pub open spec fn listing_text(s: Seq<EventInfo>, verbose: bool, color: bool, no_header: bool, now: Moment) -> Seq<
    Seq<char>,
> {
    if s.len() == 0 {
        seq!["No events found."@]
    } else {
        let (tw, cw, nw) = listing_widths(s, verbose);
        (if no_header {
            Seq::empty()
        } else {
            seq![header_text(verbose, color, tw, cw, nw)]
        }) + Seq::new(s.len(), |i: int| row_text(s[i], (i + 1) as nat, verbose, color, tw, cw, nw, now))
    }
}

fn push_ljust(out: &mut Vec<char>, s: &str, w: usize)
    ensures
        final(out)@ == old(out)@ + ljust(s@, w as int),
{
    let v = chars_of(s);
    push_chars(out, &v);
    if v.len() < w {
        let ghost base = out@;
        let k = w - v.len();
        let mut i: usize = 0;
        while i < k
            invariant
                i <= k,
                out@ == base + Seq::new(i as nat, |j: int| ' '),
            decreases k - i,
        {
            out.push(' ');
            i += 1;
            assert(out@ =~= base + Seq::new(i as nat, |j: int| ' '));
        }
        proof {
            assert(old(out)@ + ljust(s@, w as int) =~= base + Seq::new(k as nat, |j: int| ' '));
        }
    }
}

pub(crate) fn push_rjust(out: &mut Vec<char>, v: &Vec<char>, w: usize)
    ensures
        final(out)@ == old(out)@ + rjust(v@, w as int),
{
    if v.len() < w {
        let ghost base = out@;
        let k = w - v.len();
        let mut i: usize = 0;
        while i < k
            invariant
                i <= k,
                out@ == base + Seq::new(i as nat, |j: int| ' '),
            decreases k - i,
        {
            out.push(' ');
            i += 1;
            assert(out@ =~= base + Seq::new(i as nat, |j: int| ' '));
        }
        push_chars(out, v);
        proof {
            assert(old(out)@ + rjust(v@, w as int) =~= base + Seq::new(k as nat, |j: int| ' ') + v@);
        }
    } else {
        push_chars(out, v);
    }
}

/// The first line of a text.
pub fn first_line_of(s: &str) -> (r: Vec<char>)
    ensures
        r@ == first_line(s@),
{
    let v = chars_of(s);
    match find(&v, '\n') {
        Some(i) => {
            if i > 0 && v[i - 1] == '\r' {
                let r = slice_of(&v, 0, i - 1);
                proof {
                    assert(s@.take(i as int).drop_last() =~= r@);
                }
                r
            } else {
                let r = slice_of(&v, 0, i);
                proof {
                    assert(s@.take(i as int) =~= r@);
                }
                r
            }
        },
        None => v,
    }
}

fn widths_of(events: &[EventInfo], verbose: bool) -> (r: (usize, usize, usize))
    ensures
        r.0 as int == listing_widths(events@, verbose).0,
        r.1 as int == listing_widths(events@, verbose).1,
        r.2 as int == listing_widths(events@, verbose).2,
{
    let mut title: Option<usize> = None;
    let mut cal: Option<usize> = None;
    let mut notes: Option<usize> = None;
    let mut i: usize = 0;
    while i < events.len()
        invariant
            i <= events@.len(),
            match title {
                Some(v) => max_title(events@.take(i as int)) == Some(v as nat),
                None => max_title(events@.take(i as int)) is None,
            },
            match cal {
                Some(v) => max_calendar(events@.take(i as int)) == Some(v as nat),
                None => max_calendar(events@.take(i as int)) is None,
            },
            match notes {
                Some(v) => max_notes(events@.take(i as int)) == Some(v as nat),
                None => max_notes(events@.take(i as int)) is None,
            },
        decreases events@.len() - i,
    {
        proof {
            assert(events@.take(i as int + 1).drop_last() =~= events@.take(i as int));
            assert(events@.take(i as int + 1).last() == events@[i as int]);
        }
        let e = &events[i];
        let tw = text_width(e.title.as_str());
        title = match title {
            Some(m) => Some(if m >= tw { m } else { tw }),
            None => Some(tw),
        };
        let cw = text_width(e.calendar.as_str());
        cal = match cal {
            Some(m) => Some(if m >= cw { m } else { cw }),
            None => Some(cw),
        };
        match &e.notes {
            Some(n) => {
                let line = string_from_chars(&first_line_of(n.as_str()));
                let nw = text_width(line.as_str());
                notes = match notes {
                    Some(m) => Some(if m >= nw { m } else { nw }),
                    None => Some(nw),
                };
            },
            None => {},
        }
        i += 1;
    }
    proof {
        assert(events@.take(events@.len() as int) =~= events@);
    }
    let t0: usize = match title {
        Some(v) => v,
        None => 5,
    };
    let t = if t0 < 5 {
        5
    } else if t0 > 50 {
        50
    } else {
        t0
    };
    let c0: usize = match cal {
        Some(v) => v,
        None => 8,
    };
    let c = if c0 < 8 {
        8
    } else if c0 > 30 {
        30
    } else {
        c0
    };
    let n = if verbose {
        let n0: usize = match notes {
            Some(v) => v,
            None => 5,
        };
        if n0 < 5 {
            5
        } else if n0 > 40 {
            40
        } else {
            n0
        }
    } else {
        0
    };
    (t, c, n)
}

fn header_line(verbose: bool, color: bool, title_w: usize, cal_w: usize, notes_w: usize) -> (r: String)
    ensures
        r@ == header_text(verbose, color, title_w as int, cal_w as int, notes_w as int),
{
    let mut out: Vec<char> = Vec::new();
    if color {
        push_str(&mut out, "\x1b[2m");
    }
    push_str(&mut out, "  ");
    push_rjust(&mut out, &chars_of("#"), 3);
    push_str(&mut out, "  ");
    push_ljust(&mut out, "DATE", 10);
    push_str(&mut out, "  ");
    push_ljust(&mut out, "TIME", 15);
    push_str(&mut out, "  ");
    push_ljust(&mut out, "TITLE", title_w);
    push_str(&mut out, "  ");
    push_ljust(&mut out, "CALENDAR", cal_w);
    if verbose {
        push_str(&mut out, "  ");
        push_ljust(&mut out, "DURATION", 8);
        push_str(&mut out, "  ");
        push_ljust(&mut out, "NOTES", notes_w);
        push_str(&mut out, "  ID");
    } else {
        push_str(&mut out, "  DURATION");
    }
    if color {
        push_str(&mut out, "\x1b[0m");
    }
    proof {
        assert(out@ =~= header_text(verbose, color, title_w as int, cal_w as int, notes_w as int));
    }
    string_from_chars(&out)
}

fn time_column(e: &EventInfo, color: bool) -> (r: String)
    requires
        e.wf(),
    ensures
        r@ == time_text(*e, color),
{
    if e.all_day {
        if color {
            string_from_chars(&chars_of("┄┄┄ all day ┄┄┄"))
        } else {
            string_from_chars(&chars_of("all day"))
        }
    } else {
        let mut out = format_hm(e.start.time());
        push_str(&mut out, " ");
        if color {
            push_str(&mut out, "–");
        } else {
            push_str(&mut out, "-");
        }
        push_str(&mut out, " ");
        push_chars(&mut out, &format_hm(e.end.time()));
        string_from_chars(&out)
    }
}

fn event_row(
    e: &EventInfo,
    row: usize,
    verbose: bool,
    color: bool,
    title_w: usize,
    cal_w: usize,
    notes_w: usize,
    now: Moment,
) -> (r: String)
    requires
        e.wf(),
    ensures
        r@ == row_text(*e, row as nat, verbose, color, title_w as int, cal_w as int, notes_w as int, now),
{
    let (bold, dim, reset, green, cyan) = if color {
        ("\x1b[1m", "\x1b[2m", "\x1b[0m", "\x1b[32m", "\x1b[36m")
    } else {
        ("", "", "", "", "")
    };
    proof {
        if !color {
            reveal_strlit("");
        }
    }
    let num_digits = dec_chars(row as u64);
    let date_p = format_ymd(e.start.date_naive());
    let time_s = time_column(e, color);
    let time_p = pad_right(time_s.as_str(), 15);
    let title_p = pad_right(e.title.as_str(), title_w);
    let cal_p = pad_right(e.calendar.as_str(), cal_w);
    let duration = format_event_duration(e);
    let mut suffix: Vec<char> = Vec::new();
    if verbose {
        let note_line = match &e.notes {
            Some(n) => string_from_chars(&first_line_of(n.as_str())),
            None => string_from_chars(&Vec::new()),
        };
        push_str(&mut suffix, "  ");
        let np = pad_right(note_line.as_str(), notes_w);
        push_chars(&mut suffix, &chars_of(np.as_str()));
        push_str(&mut suffix, "  ");
        push_chars(&mut suffix, &chars_of(e.id.as_str()));
    }
    let dur_p = if verbose {
        pad_right(duration.as_str(), 8)
    } else {
        duration
    };
    let mut out: Vec<char> = Vec::new();
    let state = event_display_state(e, now);
    match state {
        EventDisplayState::Past => {
            push_str(&mut out, dim);
            push_str(&mut out, "  ");
            push_rjust(&mut out, &num_digits, 3);
            push_str(&mut out, "  ");
            push_chars(&mut out, &date_p);
            push_str(&mut out, "  ");
            push_chars(&mut out, &chars_of(time_p.as_str()));
            push_str(&mut out, "  ");
            push_chars(&mut out, &chars_of(title_p.as_str()));
            push_str(&mut out, "  ");
            push_chars(&mut out, &chars_of(cal_p.as_str()));
            push_str(&mut out, "  ");
            push_chars(&mut out, &chars_of(dur_p.as_str()));
            push_chars(&mut out, &suffix);
            push_str(&mut out, reset);
        },
        EventDisplayState::Now => {
            push_str(&mut out, "  ");
            push_rjust(&mut out, &num_digits, 3);
            push_str(&mut out, "  ");
            push_chars(&mut out, &date_p);
            push_str(&mut out, "  ");
            push_str(&mut out, green);
            push_str(&mut out, bold);
            push_chars(&mut out, &chars_of(time_p.as_str()));
            push_str(&mut out, reset);
            push_str(&mut out, "  ");
            push_str(&mut out, bold);
            push_chars(&mut out, &chars_of(title_p.as_str()));
            push_str(&mut out, reset);
            push_str(&mut out, "  ");
            push_str(&mut out, dim);
            push_chars(&mut out, &chars_of(cal_p.as_str()));
            push_str(&mut out, reset);
            push_str(&mut out, "  ");
            push_str(&mut out, dim);
            push_chars(&mut out, &chars_of(dur_p.as_str()));
            push_chars(&mut out, &suffix);
            push_str(&mut out, reset);
        },
        EventDisplayState::AllDay => {
            push_str(&mut out, "  ");
            push_rjust(&mut out, &num_digits, 3);
            push_str(&mut out, "  ");
            push_chars(&mut out, &date_p);
            push_str(&mut out, "  ");
            push_str(&mut out, cyan);
            push_chars(&mut out, &chars_of(time_p.as_str()));
            push_str(&mut out, reset);
            push_str(&mut out, "  ");
            push_str(&mut out, bold);
            push_chars(&mut out, &chars_of(title_p.as_str()));
            push_str(&mut out, reset);
            push_str(&mut out, "  ");
            push_str(&mut out, dim);
            push_chars(&mut out, &chars_of(cal_p.as_str()));
            push_str(&mut out, reset);
            push_str(&mut out, "  ");
            push_str(&mut out, dim);
            push_chars(&mut out, &chars_of(dur_p.as_str()));
            push_chars(&mut out, &suffix);
            push_str(&mut out, reset);
        },
        EventDisplayState::Upcoming => {
            push_str(&mut out, "  ");
            push_rjust(&mut out, &num_digits, 3);
            push_str(&mut out, "  ");
            push_chars(&mut out, &date_p);
            push_str(&mut out, "  ");
            push_chars(&mut out, &chars_of(time_p.as_str()));
            push_str(&mut out, "  ");
            push_str(&mut out, bold);
            push_chars(&mut out, &chars_of(title_p.as_str()));
            push_str(&mut out, reset);
            push_str(&mut out, "  ");
            push_str(&mut out, dim);
            push_chars(&mut out, &chars_of(cal_p.as_str()));
            push_str(&mut out, reset);
            push_str(&mut out, "  ");
            push_str(&mut out, dim);
            push_chars(&mut out, &chars_of(dur_p.as_str()));
            push_chars(&mut out, &suffix);
            push_str(&mut out, reset);
        },
    }
    proof {
        assert(out@ =~= row_text(*e, row as nat, verbose, color, title_w as int, cal_w as int, notes_w as int, now));
    }
    string_from_chars(&out)
}

/// The lines of a listing of events as shown on a terminal.
pub fn event_lines(events: &[EventInfo], opts: &DisplayOpts, now: Moment) -> (r: Vec<String>)
    requires
        forall|i: int| 0 <= i < events@.len() ==> #[trigger] events@[i].wf(),
    ensures
        r@.map_values(|s: String| s@) == listing_text(events@, opts.verbose, !opts.no_color, opts.no_header, now),
{
    let mut lines: Vec<String> = Vec::new();
    if events.len() == 0 {
        lines.push(string_from_chars(&chars_of("No events found.")));
        proof {
            assert(lines@.map_values(|s: String| s@) =~= listing_text(events@, opts.verbose, !opts.no_color, opts.no_header, now));
        }
        return lines;
    }
    let color = !opts.no_color;
    let (tw, cw, nw) = widths_of(events, opts.verbose);
    let ghost head: Seq<Seq<char>> = if opts.no_header {
        Seq::empty()
    } else {
        seq![header_text(opts.verbose, color, tw as int, cw as int, nw as int)]
    };
    if !opts.no_header {
        lines.push(header_line(opts.verbose, color, tw, cw, nw));
    }
    proof {
        assert(lines@.map_values(|s: String| s@) =~= head);
    }
    let mut i: usize = 0;
    while i < events.len()
        invariant
            i <= events@.len(),
            forall|k: int| 0 <= k < events@.len() ==> #[trigger] events@[k].wf(),
            lines@.map_values(|s: String| s@) == head + Seq::new(
                i as nat,
                |k: int| row_text(events@[k], (k + 1) as nat, opts.verbose, color, tw as int, cw as int, nw as int, now),
            ),
        decreases events@.len() - i,
    {
        let row = event_row(&events[i], i + 1, opts.verbose, color, tw, cw, nw, now);
        let ghost row_v = row@;
        let ghost before = lines@;
        lines.push(row);
        proof {
            assert(lines@.map_values(|s: String| s@) =~= before.map_values(|s: String| s@).push(row_v));
            assert(lines@.map_values(|s: String| s@) =~= head + Seq::new(
                (i + 1) as nat,
                |k: int| row_text(events@[k], (k + 1) as nat, opts.verbose, color, tw as int, cw as int, nw as int, now),
            ));
        }
        i += 1;
    }
    lines
}

// ---------------------------------------------------------------------------------------------
// Listings without color hold no terminal control sequences
// ---------------------------------------------------------------------------------------------

/// A text without the escape character that starts a terminal control sequence.
pub open spec fn no_escape(s: Seq<char>) -> bool {
    forall|i: int| 0 <= i < s.len() ==> s[i] != '\x1b'
}

/// An event whose own texts (title, calendar, ID and notes) hold no escape character.
pub open spec fn plain_event(e: EventInfo) -> bool {
    &&& no_escape(e.title@)
    &&& no_escape(e.calendar@)
    &&& no_escape(e.id@)
    &&& (e.notes matches Some(n) ==> no_escape(n@))
}

proof fn lemma_add(a: Seq<char>, b: Seq<char>)
    requires
        no_escape(a),
        no_escape(b),
    ensures
        no_escape(a + b),
{
    assert forall|i: int| 0 <= i < (a + b).len() implies (a + b)[i] != '\x1b' by {
        if i < a.len() {
            assert((a + b)[i] == a[i]);
        } else {
            assert((a + b)[i] == b[i - a.len()]);
        }
    }
}

proof fn lemma_add3(a: Seq<char>, b: Seq<char>, c: Seq<char>)
    requires
        no_escape(a),
        no_escape(b),
        no_escape(c),
    ensures
        no_escape(a + b + c),
{
    lemma_add(a, b);
    lemma_add(a + b, c);
}

proof fn lemma_digit(k: int)
    requires
        0 <= k <= 9,
    ensures
        no_escape(seq![digit_char(k)]),
{
    assert(digit_char(k) as int == k + 48);
}

proof fn lemma_dec(n: nat)
    ensures
        no_escape(dec(n)),
    decreases n,
{
    if n < 10 {
        lemma_digit(n as int);
    } else {
        lemma_dec(n / 10);
        lemma_digit((n % 10) as int);
        assert(dec(n) =~= dec(n / 10) + seq![digit_char((n % 10) as int)]);
        lemma_add(dec(n / 10), seq![digit_char((n % 10) as int)]);
    }
}

proof fn lemma_int_text(n: int)
    ensures
        no_escape(int_text(n)),
{
    if n < 0 {
        lemma_dec((-n) as nat);
        lemma_add(seq!['-'], dec((-n) as nat));
    } else {
        lemma_dec(n as nat);
    }
}

proof fn lemma_two_digits(n: int)
    requires
        0 <= n < 100,
    ensures
        no_escape(two_digits(n)),
{
    lemma_digit(n / 10);
    lemma_digit(n % 10);
    assert(two_digits(n) =~= seq![digit_char(n / 10)] + seq![digit_char(n % 10)]);
    lemma_add(seq![digit_char(n / 10)], seq![digit_char(n % 10)]);
}

proof fn lemma_year_text(y: int)
    ensures
        no_escape(year_text(y)),
{
    let n: nat = if y < 0 { (-y) as nat } else { y as nat };
    lemma_dec(n);
    let z = zero_pad(dec(n), 4);
    assert(no_escape(z)) by {
        if dec(n).len() < 4 {
            let pad = Seq::new((4 - dec(n).len()) as nat, |i: int| '0');
            assert(no_escape(pad));
            lemma_add(pad, dec(n));
        }
    }
    if y < 0 || y > 9999 {
        lemma_add(seq![if y < 0 { '-' } else { '+' }], z);
    }
}

proof fn lemma_ymd_text(d: Date)
    requires
        MIN_CE <= d.days <= MAX_CE,
    ensures
        no_escape(ymd_text(d)),
{
    lemma_civil_range(d.days as int);
    let c = civil(d.days as int);
    lemma_year_text(c.0);
    lemma_two_digits(c.1);
    lemma_two_digits(c.2);
    lemma_add3(year_text(c.0), seq!['-'], two_digits(c.1));
    lemma_add3(year_text(c.0) + seq!['-'] + two_digits(c.1), seq!['-'], two_digits(c.2));
}

proof fn lemma_hm_text(t: Time)
    requires
        t.secs < 86400,
    ensures
        no_escape(hm_text(t)),
{
    lemma_two_digits(t.hour());
    lemma_two_digits(t.minute());
    lemma_add3(two_digits(t.hour()), seq![':'], two_digits(t.minute()));
}

proof fn lemma_local(m: Moment)
    requires
        m.wf(),
    ensures
        MIN_CE <= m.local().date.days <= MAX_CE,
        m.local().time.secs < 86400,
{
}

proof fn lemma_padded(s: Seq<char>, w: nat)
    requires
        no_escape(s),
    ensures
        no_escape(padded(s, w)),
{
    if display_width(s) < w {
        let pad = Seq::new((w - display_width(s)) as nat, |i: int| ' ');
        assert(no_escape(pad));
        lemma_add(s, pad);
    }
}

proof fn lemma_ljust(s: Seq<char>, w: int)
    requires
        no_escape(s),
    ensures
        no_escape(ljust(s, w)),
{
    if s.len() < w {
        let pad = Seq::new((w - s.len()) as nat, |i: int| ' ');
        assert(no_escape(pad));
        lemma_add(s, pad);
    }
}

proof fn lemma_rjust(s: Seq<char>, w: int)
    requires
        no_escape(s),
    ensures
        no_escape(rjust(s, w)),
{
    if s.len() < w {
        let pad = Seq::new((w - s.len()) as nat, |i: int| ' ');
        assert(no_escape(pad));
        lemma_add(pad, s);
    }
}

proof fn lemma_literal(s: Seq<char>)
    requires
        forall|i: int| 0 <= i < s.len() ==> (s[i] as int) >= 32,
    ensures
        no_escape(s),
{
}

proof fn lemma_find_in_range(s: Seq<char>, c: char)
    ensures
        find_char(s, c) matches Some(i) ==> 0 <= i < s.len(),
    decreases s.len(),
{
    if s.len() > 0 && s[0] != c {
        lemma_find_in_range(s.drop_first(), c);
    }
}

proof fn lemma_first_line(s: Seq<char>)
    requires
        no_escape(s),
    ensures
        no_escape(first_line(s)),
{
    lemma_find_in_range(s, '\n');
    match find_char(s, '\n') {
        Some(i) => {
            let l = s.take(i);
            assert(no_escape(l));
            if l.len() > 0 && l.last() == '\r' {
                assert(no_escape(l.drop_last()));
            }
        },
        None => {},
    }
}

proof fn lemma_duration_text(mins: int)
    ensures
        no_escape(duration_text(mins)),
{
    reveal_strlit("m");
    reveal_strlit("h");
    reveal_strlit("h ");
    lemma_literal("m"@);
    lemma_literal("h"@);
    lemma_literal("h "@);
    if mins < 60 {
        lemma_int_text(mins);
        lemma_add(int_text(mins), "m"@);
    } else if mins % 60 == 0 {
        lemma_dec((mins / 60) as nat);
        lemma_add(dec((mins / 60) as nat), "h"@);
    } else {
        lemma_dec((mins / 60) as nat);
        lemma_dec((mins % 60) as nat);
        lemma_add3(dec((mins / 60) as nat), "h "@, dec((mins % 60) as nat));
        lemma_add(dec((mins / 60) as nat) + "h "@ + dec((mins % 60) as nat), "m"@);
    }
}

proof fn lemma_event_duration_text(e: EventInfo)
    ensures
        no_escape(event_duration_text(e)),
{
    if e.all_day {
        reveal_strlit("d");
        lemma_literal("d"@);
        let days = e.end.local().date.days - e.start.local().date.days;
        let shown = if days < 1 { 1 } else { days };
        lemma_int_text(shown);
        lemma_add(int_text(shown), "d"@);
    } else {
        lemma_duration_text(whole_minutes(e.end.timestamp - e.start.timestamp));
    }
}

proof fn lemma_time_text(e: EventInfo)
    requires
        e.wf(),
    ensures
        no_escape(time_text(e, false)),
{
    if e.all_day {
        reveal_strlit("all day");
        lemma_literal("all day"@);
    } else {
        reveal_strlit(" ");
        reveal_strlit("-");
        lemma_literal(" "@);
        lemma_literal("-"@);
        lemma_local(e.start);
        lemma_local(e.end);
        lemma_hm_text(e.start.local().time);
        lemma_hm_text(e.end.local().time);
        lemma_add3(hm_text(e.start.local().time), " "@, "-"@);
        lemma_add3(hm_text(e.start.local().time) + " "@ + "-"@, " "@, hm_text(e.end.local().time));
    }
}

proof fn lemma_header(verbose: bool, title_w: int, cal_w: int, notes_w: int)
    ensures
        no_escape(header_text(verbose, false, title_w, cal_w, notes_w)),
{
    reveal_strlit("  ");
    reveal_strlit("#");
    reveal_strlit("DATE");
    reveal_strlit("TIME");
    reveal_strlit("TITLE");
    reveal_strlit("CALENDAR");
    reveal_strlit("DURATION");
    reveal_strlit("NOTES");
    reveal_strlit("  ID");
    reveal_strlit("  DURATION");
    let sp = "  "@;
    lemma_literal(sp);
    lemma_literal("#"@);
    lemma_literal("DATE"@);
    lemma_literal("TIME"@);
    lemma_literal("TITLE"@);
    lemma_literal("CALENDAR"@);
    lemma_literal("DURATION"@);
    lemma_literal("NOTES"@);
    lemma_literal("  ID"@);
    lemma_literal("  DURATION"@);
    lemma_rjust("#"@, 3);
    lemma_ljust("DATE"@, 10);
    lemma_ljust("TIME"@, 15);
    lemma_ljust("TITLE"@, title_w);
    lemma_ljust("CALENDAR"@, cal_w);
    lemma_ljust("DURATION"@, 8);
    lemma_ljust("NOTES"@, notes_w);
    let e: Seq<char> = Seq::empty();
    assert(no_escape(e));
    let p1 = e + sp + rjust("#"@, 3);
    lemma_add3(e, sp, rjust("#"@, 3));
    let p2 = p1 + sp + ljust("DATE"@, 10);
    lemma_add3(p1, sp, ljust("DATE"@, 10));
    let p3 = p2 + sp + ljust("TIME"@, 15);
    lemma_add3(p2, sp, ljust("TIME"@, 15));
    let p4 = p3 + sp + ljust("TITLE"@, title_w);
    lemma_add3(p3, sp, ljust("TITLE"@, title_w));
    let p5 = p4 + sp + ljust("CALENDAR"@, cal_w);
    lemma_add3(p4, sp, ljust("CALENDAR"@, cal_w));
    if verbose {
        let p6 = p5 + sp + ljust("DURATION"@, 8);
        lemma_add3(p5, sp, ljust("DURATION"@, 8));
        let p7 = p6 + sp + ljust("NOTES"@, notes_w);
        lemma_add3(p6, sp, ljust("NOTES"@, notes_w));
        lemma_add3(p7, "  ID"@, e);
    } else {
        lemma_add3(p5, "  DURATION"@, e);
    }
}

proof fn lemma_row(e: EventInfo, row: nat, verbose: bool, title_w: int, cal_w: int, notes_w: int, now: Moment)
    requires
        e.wf(),
        plain_event(e),
    ensures
        no_escape(row_text(e, row, verbose, false, title_w, cal_w, notes_w, now)),
{
    reveal_strlit("  ");
    let sp = "  "@;
    lemma_literal(sp);
    let em: Seq<char> = Seq::empty();
    assert(no_escape(em));
    lemma_dec(row);
    lemma_rjust(dec(row), 3);
    let num = rjust(dec(row), 3);
    lemma_local(e.start);
    lemma_ymd_text(e.start.local().date);
    let date_p = ymd_text(e.start.local().date);
    lemma_time_text(e);
    lemma_padded(time_text(e, false), 15);
    let time_p = padded(time_text(e, false), 15);
    lemma_padded(e.title@, title_w as nat);
    let title_p = padded(e.title@, title_w as nat);
    lemma_padded(e.calendar@, cal_w as nat);
    let cal_p = padded(e.calendar@, cal_w as nat);
    lemma_event_duration_text(e);
    let duration = event_duration_text(e);
    lemma_padded(duration, 8);
    let dur_p = if verbose { padded(duration, 8) } else { duration };
    let notes = match e.notes {
        Some(n) => first_line(n@),
        None => Seq::empty(),
    };
    if let Some(n) = e.notes {
        lemma_first_line(n@);
    }
    lemma_padded(notes, notes_w as nat);
    let suffix = if verbose {
        sp + padded(notes, notes_w as nat) + sp + e.id@
    } else {
        Seq::empty()
    };
    assert(no_escape(suffix)) by {
        if verbose {
            lemma_add3(sp, padded(notes, notes_w as nat), sp);
            lemma_add(sp + padded(notes, notes_w as nat) + sp, e.id@);
        }
    }
    let q1 = em + sp + num;
    lemma_add3(em, sp, num);
    let q2 = q1 + sp + date_p;
    lemma_add3(q1, sp, date_p);
    let q3 = q2 + sp + em;
    lemma_add3(q2, sp, em);
    let q4 = q3 + em + time_p;
    lemma_add3(q3, em, time_p);
    let q5 = q4 + em + sp;
    lemma_add3(q4, em, sp);
    let q6 = q5 + em + title_p;
    lemma_add3(q5, em, title_p);
    let q7 = q6 + em + sp;
    lemma_add3(q6, em, sp);
    let q8 = q7 + em + cal_p;
    lemma_add3(q7, em, cal_p);
    let q9 = q8 + em + sp;
    lemma_add3(q8, em, sp);
    let q10 = q9 + em + dur_p;
    lemma_add3(q9, em, dur_p);
    lemma_add3(q10, suffix, em);
    let r1 = em + sp + num;
    let r2 = r1 + sp + date_p;
    let r3 = r2 + sp + time_p;
    lemma_add3(r2, sp, time_p);
    let r4 = r3 + sp + title_p;
    lemma_add3(r3, sp, title_p);
    let r5 = r4 + sp + cal_p;
    lemma_add3(r4, sp, cal_p);
    let r6 = r5 + sp + dur_p;
    lemma_add3(r5, sp, dur_p);
    lemma_add3(r6, suffix, em);
    let u1 = sp + num;
    lemma_add(sp, num);
    let u2 = u1 + sp + date_p;
    lemma_add3(u1, sp, date_p);
    let u3 = u2 + sp + em;
    lemma_add3(u2, sp, em);
    let u4 = u3 + em + time_p;
    lemma_add3(u3, em, time_p);
    let u5 = u4 + em + sp;
    lemma_add3(u4, em, sp);
    let u6 = u5 + em + title_p;
    lemma_add3(u5, em, title_p);
    let u7 = u6 + em + sp;
    lemma_add3(u6, em, sp);
    let u8 = u7 + em + cal_p;
    lemma_add3(u7, em, cal_p);
    let u9 = u8 + em + sp;
    lemma_add3(u8, em, sp);
    let u10 = u9 + em + dur_p;
    lemma_add3(u9, em, dur_p);
    lemma_add3(u10, suffix, em);
    let v3 = u2 + sp + time_p;
    lemma_add3(u2, sp, time_p);
    let v4 = v3 + sp + em;
    lemma_add3(v3, sp, em);
    let v5 = v4 + title_p + em;
    lemma_add3(v4, title_p, em);
    let v6 = v5 + sp + em;
    lemma_add3(v5, sp, em);
    let v7 = v6 + cal_p + em;
    lemma_add3(v6, cal_p, em);
    let v8 = v7 + sp + em;
    lemma_add3(v7, sp, em);
    let v9 = v8 + dur_p + suffix;
    lemma_add3(v8, dur_p, suffix);
    lemma_add(v9, em);
}

/// A listing shown without color holds no escape character, and so no terminal control
/// sequence, when the events' own texts hold none.
pub proof fn law_plain_listing_has_no_escape(s: Seq<EventInfo>, verbose: bool, no_header: bool, now: Moment)
    requires
        forall|i: int| 0 <= i < s.len() ==> #[trigger] s[i].wf() && plain_event(s[i]),
    ensures
        forall|k: int|
            0 <= k < listing_text(s, verbose, false, no_header, now).len() ==> no_escape(
                #[trigger] listing_text(s, verbose, false, no_header, now)[k],
            ),
{
    let lines = listing_text(s, verbose, false, no_header, now);
    if s.len() == 0 {
        reveal_strlit("No events found.");
        lemma_literal("No events found."@);
        assert(lines =~= seq!["No events found."@]);
    } else {
        let (tw, cw, nw) = listing_widths(s, verbose);
        lemma_header(verbose, tw, cw, nw);
        let head: Seq<Seq<char>> = if no_header {
            Seq::empty()
        } else {
            seq![header_text(verbose, false, tw, cw, nw)]
        };
        let rows = Seq::new(s.len(), |i: int| row_text(s[i], (i + 1) as nat, verbose, false, tw, cw, nw, now));
        assert(lines == head + rows);
        assert forall|k: int| 0 <= k < lines.len() implies no_escape(#[trigger] lines[k]) by {
            if k < head.len() {
                assert(lines[k] == head[k]);
            } else {
                let i = k - head.len();
                assert(lines[k] == rows[i]);
                assert(s[i].wf() && plain_event(s[i]));
                lemma_row(s[i], (i + 1) as nat, verbose, tw, cw, nw, now);
            }
        }
    }
}

/// Turning the header off drops the header line and nothing else: with events to show, the
/// listing without header is the one with header less its first line; with none, both are the
/// single note that nothing was found.
pub proof fn law_no_header_drops_only_the_header(s: Seq<EventInfo>, verbose: bool, color: bool, now: Moment)
    ensures
        s.len() > 0 ==> listing_text(s, verbose, color, true, now) == listing_text(s, verbose, color, false, now).drop_first(),
        s.len() > 0 ==> listing_text(s, verbose, color, false, now).len() == listing_text(s, verbose, color, true, now).len() + 1,
        s.len() == 0 ==> listing_text(s, verbose, color, true, now) == seq!["No events found."@]
            && listing_text(s, verbose, color, false, now) == seq!["No events found."@],
{
    if s.len() > 0 {
        let (tw, cw, nw) = listing_widths(s, verbose);
        let rows = Seq::new(s.len(), |i: int| row_text(s[i], (i + 1) as nat, verbose, color, tw, cw, nw, now));
        assert(listing_text(s, verbose, color, true, now) =~= rows);
        assert(listing_text(s, verbose, color, false, now) =~= seq![header_text(verbose, color, tw, cw, nw)] + rows);
        assert((seq![header_text(verbose, color, tw, cw, nw)] + rows).drop_first() =~= rows);
    }
}

} // verus!
