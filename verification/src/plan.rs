//! What the commands compute from their arguments before and after they reach the calendar:
//! date windows, event ranges, new bounds of an update, how a change is undone, and the lines
//! of the free-slot and calendar listings and of a conflict warning.
use vstd::prelude::*;
use crate::dateparse::{
    all_day_date_spec, datetime_spec, date_spec, parse_all_day_date_at, parse_date_at,
    parse_datetime_at,
};
use crate::delete::single_occurrence_reason;
use crate::error::{agrees, invalid_date_str, AppError, ErrorKind, Failure};
use crate::state::UndoAction;
use crate::events::{display_width, padded, pad_right, text_width};
use crate::free::{format_slot_duration, minutes_text};
use crate::listing::{push_rjust, rjust};
use crate::store::{created_scope, CalendarInfo, EventDraft, EventInfo, FreeSlot, RecurrenceScope};
use crate::text::{chars_of, dec, dec_chars, push_chars, push_str, string_from_chars};
use crate::time::{format_hm, format_ymd, hm_text, ymd_text, Date, DateTime, Moment, MAX_CE};

verus! {

/// An optional date argument: absent, read as a date, or the error naming the text.
pub open spec fn date_arg_spec(s: Option<Seq<char>>, today: Date) -> Result<Option<Date>, Failure> {
    match s {
        Some(v) => match date_spec(v, today) {
            Some(d) => Ok(Some(d)),
            None => Err((ErrorKind::InvalidDate, v)),
        },
        None => Ok(None),
    }
}

/// The view of an optional text.
pub open spec fn opt_text(o: Option<&str>) -> Option<Seq<char>> {
    match o {
        Some(s) => Some(s@),
        None => None,
    }
}

fn text_error(v: &str) -> (r: AppError)
    ensures
        r.is((ErrorKind::InvalidDate, v@)),
{
    AppError::InvalidDate(string_from_chars(&chars_of(v)))
}

/// Reads an optional date argument (`YYYY-MM-DD` or natural language) relative to `today`.
pub fn date_arg(s: Option<&str>, today: Date) -> (r: Result<Option<Date>, AppError>)
    requires
        today.valid(),
    ensures
        agrees(r, date_arg_spec(opt_text(s), today)),
        r matches Ok(Some(d)) ==> d.valid(),
{
    match s {
        Some(v) => match parse_date_at(v, today) {
            Some(d) => Ok(Some(d)),
            None => Err(text_error(v)),
        },
        None => Ok(None),
    }
}

/// The days a listing covers: from `from` (default today) through `to` (default `span` days
/// after the start); the end must not come before the start.
pub fn event_window(from: Option<Date>, to: Option<Date>, today: Date, span: i32) -> (r: Result<
    (Date, Date),
    AppError,
>)
    requires
        today.valid(),
        0 <= span,
        from matches Some(d) ==> d.valid(),
        to matches Some(d) ==> d.valid(),
        to is None ==> (match from {
            Some(d) => d.days,
            None => today.days,
        }) + span <= MAX_CE,
    ensures
        ({
            let fd = match from {
                Some(d) => d,
                None => today,
            };
            let td = match to {
                Some(d) => d,
                None => Date { days: (fd.days + span) as i32 },
            };
            agrees(
                r,
                if td.days < fd.days {
                    Err((ErrorKind::InvalidDate, "to date must be on or after from date"@))
                } else {
                    Ok((fd, td))
                },
            )
        }),
{
    let fd = match from {
        Some(d) => d,
        None => today,
    };
    let td = match to {
        Some(d) => d,
        None => Date { days: fd.days + span },
    };
    if td.days < fd.days {
        return Err(invalid_date_str("to date must be on or after from date"));
    }
    Ok((fd, td))
}

/// The days `upcoming` covers: today through `days` days later.
pub fn upcoming_window(today: Date, days: u32) -> (r: (Date, Date))
    requires
        today.valid(),
        today.days + days <= MAX_CE,
    ensures
        r.0 == today,
        r.1.days == today.days + days,
{
    (today, Date { days: today.days + days as i32 })
}

/// The range an event takes: for an all-day event midnight of the first day to midnight after
/// the last (which must not come before the first), otherwise two instants in order.
pub open spec fn event_range_spec(start: Seq<char>, end: Seq<char>, all_day: bool, now: Moment) -> Result<
    (DateTime, DateTime),
    Failure,
> {
    let today = now.local().date;
    if all_day {
        match all_day_date_spec(start, today) {
            None => Err((ErrorKind::InvalidDate, start)),
            Some(s) => match all_day_date_spec(end, today) {
                None => Err((ErrorKind::InvalidDate, end)),
                Some(e) => if e.days < s.days {
                    Err((ErrorKind::InvalidDate, "end date must be on or after start date"@))
                } else if e.days + 1 > MAX_CE {
                    Err((ErrorKind::InvalidDate, end))
                } else {
                    Ok((s.midnight(), Date { days: (e.days + 1) as i32 }.midnight()))
                },
            },
        }
    } else {
        match datetime_spec(start, now) {
            None => Err((ErrorKind::InvalidDate, start)),
            Some(s) => match datetime_spec(end, now) {
                None => Err((ErrorKind::InvalidDate, end)),
                Some(e) => if e.secs() <= s.secs() {
                    Err((ErrorKind::InvalidDate, "end time must be after start time"@))
                } else {
                    Ok((s, e))
                },
            },
        }
    }
}

/// Reads the start and end of a new event or a conflict query.
pub fn event_range(start: &str, end: &str, all_day: bool, now: Moment) -> (r: Result<
    (DateTime, DateTime),
    AppError,
>)
    requires
        now.wf(),
    ensures
        agrees(r, event_range_spec(start@, end@, all_day, now)),
{
    let today = now.date_naive();
    if all_day {
        let s = match parse_all_day_date_at(start, today) {
            Some(d) => d,
            None => return Err(text_error(start)),
        };
        let e = match parse_all_day_date_at(end, today) {
            Some(d) => d,
            None => return Err(text_error(end)),
        };
        if e.days < s.days {
            return Err(invalid_date_str("end date must be on or after start date"));
        }
        match e.add_days(1) {
            None => Err(text_error(end)),
            Some(next) => Ok((s.at_midnight(), next.at_midnight())),
        }
    } else {
        let s = match parse_datetime_at(start, now) {
            Some(d) => d,
            None => return Err(text_error(start)),
        };
        let e = match parse_datetime_at(end, now) {
            Some(d) => d,
            None => return Err(text_error(end)),
        };
        if e.total_secs() <= s.total_secs() {
            return Err(invalid_date_str("end time must be after start time"));
        }
        Ok((s, e))
    }
}

/// One new bound of an update: a date (at midnight) when the event becomes all-day, otherwise
/// a date and time.
pub open spec fn update_bound_spec(v: Seq<char>, all_day: Option<bool>, now: Moment) -> Result<
    DateTime,
    Failure,
> {
    if all_day == Some(true) {
        match all_day_date_spec(v, now.local().date) {
            Some(d) => Ok(d.midnight()),
            None => Err((ErrorKind::InvalidDate, v)),
        }
    } else {
        match datetime_spec(v, now) {
            Some(dt) => Ok(dt),
            None => Err((ErrorKind::InvalidDate, v)),
        }
    }
}

fn update_bound(v: &str, all_day: Option<bool>, now: Moment) -> (r: Result<DateTime, AppError>)
    requires
        now.wf(),
    ensures
        agrees(r, update_bound_spec(v@, all_day, now)),
        r matches Ok(dt) ==> dt.valid(),
{
    if all_day == Some(true) {
        match parse_all_day_date_at(v, now.date_naive()) {
            Some(d) => Ok(d.at_midnight()),
            None => Err(text_error(v)),
        }
    } else {
        match parse_datetime_at(v, now) {
            Some(dt) => Ok(dt),
            None => Err(text_error(v)),
        }
    }
}

/// Reads the new start and end of an update (the start first).
pub fn update_bounds(start: Option<&str>, end: Option<&str>, all_day: Option<bool>, now: Moment) -> (r:
    Result<(Option<DateTime>, Option<DateTime>), AppError>)
    requires
        now.wf(),
    ensures
        match (start, end) {
            (Some(s), _) if update_bound_spec(s@, all_day, now) is Err => r matches Err(e) && e.is(
                update_bound_spec(s@, all_day, now)->Err_0,
            ),
            (_, Some(e)) if update_bound_spec(e@, all_day, now) is Err && (start matches Some(s)
                ==> update_bound_spec(s@, all_day, now) is Ok) => r matches Err(err) && err.is(
                update_bound_spec(e@, all_day, now)->Err_0,
            ),
            _ => r matches Ok((so, eo)) && (match start {
                Some(s) => so == Some(update_bound_spec(s@, all_day, now)->Ok_0),
                None => so is None,
            }) && (match end {
                Some(e) => eo == Some(update_bound_spec(e@, all_day, now)->Ok_0),
                None => eo is None,
            }),
        },
        r matches Ok((so, eo)) ==> (so matches Some(d) ==> d.valid()) && (eo matches Some(d)
            ==> d.valid()),
{
    let so = match start {
        Some(s) => match update_bound(s, all_day, now) {
            Ok(d) => Some(d),
            Err(e) => return Err(e),
        },
        None => None,
    };
    let eo = match end {
        Some(e) => match update_bound(e, all_day, now) {
            Ok(d) => Some(d),
            Err(err) => return Err(err),
        },
        None => None,
    };
    Ok((so, eo))
}

fn owned(s: &String) -> (r: String)
    ensures
        r@ == s@,
{
    string_from_chars(&chars_of(s.as_str()))
}

/// How a created event is undone: deleted again (all future occurrences of a recurring one).
pub fn created_undo_action(event: &EventInfo) -> (r: UndoAction)
    ensures
        match r {
            UndoAction::DeleteCreated { event_id, selected_start, scope } => event_id@ == event.id@
                && selected_start == event.start && scope == (if event.recurring {
                Some(RecurrenceScope::Future)
            } else {
                None
            }),
            _ => false,
        },
{
    UndoAction::DeleteCreated {
        event_id: owned(&event.id),
        selected_start: event.start,
        scope: created_scope(event.recurring),
    }
}

/// How an update is undone: a single occurrence of a recurring event cannot be restored;
/// otherwise the updated event is put back to the draft taken before the update.
pub fn update_undo_action(
    was_recurring: bool,
    scope: Option<RecurrenceScope>,
    updated: &EventInfo,
    draft: EventDraft,
) -> (r: UndoAction)
    ensures
        was_recurring && scope == Some(RecurrenceScope::This) ==> (r matches UndoAction::Unavailable {
            reason,
        } && reason@ == single_occurrence_reason()),
        !(was_recurring && scope == Some(RecurrenceScope::This)) ==> match r {
            UndoAction::ReplaceWithDraft { current_event_id, current_start, current_scope, draft: d } =>
                current_event_id@ == updated.id@ && current_start == updated.start && current_scope == (
                if updated.recurring {
                    Some(RecurrenceScope::Future)
                } else {
                    None
                }) && d == draft,
            _ => false,
        },
{
    if was_recurring && scope == Some(RecurrenceScope::This) {
        UndoAction::Unavailable {
            reason: string_from_chars(
                &chars_of("single recurring occurrences cannot be restored safely"),
            ),
        }
    } else {
        UndoAction::ReplaceWithDraft {
            current_event_id: owned(&updated.id),
            current_start: updated.start,
            current_scope: created_scope(updated.recurring),
            draft,
        }
    }
}

/// Bold, dim and reset, or nothing without color.
pub open spec fn plain_styles(color: bool) -> (Seq<char>, Seq<char>, Seq<char>) {
    if color {
        ("\x1b[1m"@, "\x1b[2m"@, "\x1b[0m"@)
    } else {
        (Seq::empty(), Seq::empty(), Seq::empty())
    }
}

/// One free slot's line: its number, day, hours and length.
pub open spec fn slot_line(row: nat, s: FreeSlot, color: bool) -> Seq<char> {
    let (bold, dim, reset) = plain_styles(color);
    "  "@ + rjust(dec(row), 3) + "  "@ + ymd_text(s.start.local().date) + "  "@ + bold + hm_text(
        s.start.local().time,
    ) + " - "@ + hm_text(s.end.local().time) + reset + "  "@ + dim + minutes_text(
        s.duration_mins as nat,
    ) + reset
}

/// The free slots as shown on a terminal.
pub open spec fn slots_text(slots: Seq<FreeSlot>, color: bool, no_header: bool) -> Seq<Seq<char>> {
    let (bold, dim, reset) = plain_styles(color);
    if slots.len() == 0 {
        seq!["No free slots found."@]
    } else {
        (if no_header {
            Seq::empty()
        } else {
            seq![dim + "    #  DATE        START  END    DURATION"@ + reset]
        }) + Seq::new(slots.len(), |i: int| slot_line((i + 1) as nat, slots[i], color))
    }
}

fn push_line(lines: &mut Vec<String>, v: &Vec<char>)
    ensures
        final(lines)@.map_values(|s: String| s@) == old(lines)@.map_values(|s: String| s@).push(v@),
{
    let ghost before = lines@;
    lines.push(string_from_chars(v));
    proof {
        assert(lines@.map_values(|s: String| s@) =~= before.map_values(|s: String| s@).push(v@));
    }
}

/// The lines of the free-slot listing.
pub fn slot_lines(slots: &[FreeSlot], no_color: bool, no_header: bool) -> (r: Vec<String>)
    requires
        forall|i: int| 0 <= i < slots@.len() ==> #[trigger] slots@[i].start.wf() && slots@[i].end.wf(),
    ensures
        r@.map_values(|s: String| s@) == slots_text(slots@, !no_color, no_header),
{
    let color = !no_color;
    let (bold, dim, reset) = if color {
        ("\x1b[1m", "\x1b[2m", "\x1b[0m")
    } else {
        ("", "", "")
    };
    proof {
        if !color {
            reveal_strlit("");
        }
    }
    let mut lines: Vec<String> = Vec::new();
    if slots.len() == 0 {
        push_line(&mut lines, &chars_of("No free slots found."));
        proof {
            assert(lines@.map_values(|s: String| s@) =~= slots_text(slots@, color, no_header));
        }
        return lines;
    }
    if !no_header {
        let mut h = chars_of(dim);
        push_str(&mut h, "    #  DATE        START  END    DURATION");
        push_str(&mut h, reset);
        push_line(&mut lines, &h);
    }
    let ghost head = lines@.map_values(|s: String| s@);
    let mut i: usize = 0;
    while i < slots.len()
        invariant
            i <= slots@.len(),
            forall|k: int| 0 <= k < slots@.len() ==> #[trigger] slots@[k].start.wf() && slots@[k].end.wf(),
            bold@ == plain_styles(color).0,
            dim@ == plain_styles(color).1,
            reset@ == plain_styles(color).2,
            lines@.map_values(|s: String| s@) == head + Seq::new(
                i as nat,
                |k: int| slot_line((k + 1) as nat, slots@[k], color),
            ),
        decreases slots@.len() - i,
    {
        let s = slots[i];
        assert(slots@[i as int].start.wf() && slots@[i as int].end.wf());
        let mut v = chars_of("  ");
        push_rjust(&mut v, &dec_chars((i + 1) as u64), 3);
        push_str(&mut v, "  ");
        push_chars(&mut v, &format_ymd(s.start.date_naive()));
        push_str(&mut v, "  ");
        push_str(&mut v, bold);
        push_chars(&mut v, &format_hm(s.start.time()));
        push_str(&mut v, " - ");
        push_chars(&mut v, &format_hm(s.end.time()));
        push_str(&mut v, reset);
        push_str(&mut v, "  ");
        push_str(&mut v, dim);
        push_chars(&mut v, &chars_of(format_slot_duration(s.duration_mins).as_str()));
        push_str(&mut v, reset);
        push_line(&mut lines, &v);
        i += 1;
        proof {
            assert(lines@.map_values(|s: String| s@) =~= head + Seq::new(
                i as nat,
                |k: int| slot_line((k + 1) as nat, slots@[k], color),
            ));
        }
    }
    proof {
        assert(lines@.map_values(|s: String| s@) =~= slots_text(slots@, color, no_header));
    }
    lines
}

/// The widest of the display widths of some texts, and at least `least`.
pub open spec fn widest(texts: Seq<Seq<char>>, least: nat) -> nat
    decreases texts.len(),
{
    if texts.len() == 0 {
        least
    } else {
        let w = widest(texts.drop_last(), least);
        let x = display_width(texts.last()) as nat;
        if x > w {
            x
        } else {
            w
        }
    }
}

/// One calendar's line: its padded title and source, and its padded ID when verbose.
pub open spec fn calendar_line(c: CalendarInfo, verbose: bool, color: bool, title_w: nat, id_w: nat) -> Seq<char> {
    let (bold, dim, reset) = plain_styles(color);
    let head = "  "@ + bold + padded(c.title@, title_w) + reset + "  "@ + dim + c.source@ + reset;
    if verbose {
        head + "  "@ + dim + padded(c.id@, id_w) + reset
    } else {
        head
    }
}

/// The calendars as listed on a terminal.
pub open spec fn calendars_text(cals: Seq<CalendarInfo>, verbose: bool, color: bool, no_header: bool) -> Seq<
    Seq<char>,
> {
    let (bold, dim, reset) = plain_styles(color);
    let title_w = widest(cals.map_values(|c: CalendarInfo| c.title@), 5);
    let id_w = widest(cals.map_values(|c: CalendarInfo| c.id@), 2);
    if cals.len() == 0 {
        seq!["No calendars found."@]
    } else {
        let header = if verbose {
            dim + "  TITLE"@ + Seq::new((title_w - 5) as nat, |i: int| ' ') + "  SOURCE  ID"@ + Seq::new(
                (id_w - 2) as nat,
                |i: int| ' ',
            ) + reset
        } else {
            dim + "  TITLE"@ + Seq::new((title_w - 5) as nat, |i: int| ' ') + "  SOURCE"@ + reset
        };
        (if no_header {
            Seq::empty()
        } else {
            seq![header]
        }) + Seq::new(cals.len(), |i: int| calendar_line(cals[i], verbose, color, title_w, id_w))
    }
}

fn widest_of(cals: &[CalendarInfo], ids: bool, least: usize) -> (r: usize)
    ensures
        r == widest(
            if ids {
                cals@.map_values(|c: CalendarInfo| c.id@)
            } else {
                cals@.map_values(|c: CalendarInfo| c.title@)
            },
            least as nat,
        ),
{
    let ghost texts = if ids {
        cals@.map_values(|c: CalendarInfo| c.id@)
    } else {
        cals@.map_values(|c: CalendarInfo| c.title@)
    };
    let mut w = least;
    let mut i: usize = 0;
    while i < cals.len()
        invariant
            i <= cals@.len(),
            texts.len() == cals@.len(),
            texts == (if ids {
                cals@.map_values(|c: CalendarInfo| c.id@)
            } else {
                cals@.map_values(|c: CalendarInfo| c.title@)
            }),
            w == widest(texts.take(i as int), least as nat),
        decreases cals@.len() - i,
    {
        let x = if ids {
            text_width(cals[i].id.as_str())
        } else {
            text_width(cals[i].title.as_str())
        };
        proof {
            assert(texts.take(i as int + 1).drop_last() =~= texts.take(i as int));
            assert(texts.take(i as int + 1).last() == texts[i as int]);
        }
        if x > w {
            w = x;
        }
        i += 1;
    }
    proof {
        assert(texts.take(cals@.len() as int) =~= texts);
    }
    w
}

fn push_spaces(v: &mut Vec<char>, n: usize)
    ensures
        final(v)@ == old(v)@ + Seq::new(n as nat, |i: int| ' '),
{
    let ghost base = v@;
    let mut k: usize = 0;
    while k < n
        invariant
            k <= n,
            v@ == base + Seq::new(k as nat, |i: int| ' '),
        decreases n - k,
    {
        v.push(' ');
        k += 1;
        assert(v@ =~= base + Seq::new(k as nat, |i: int| ' '));
    }
}

proof fn lemma_widest_at_least(texts: Seq<Seq<char>>, least: nat)
    ensures
        widest(texts, least) >= least,
        forall|i: int| 0 <= i < texts.len() ==> widest(texts, least) >= display_width(#[trigger] texts[i]),
    decreases texts.len(),
{
    if texts.len() > 0 {
        lemma_widest_at_least(texts.drop_last(), least);
        assert forall|i: int| 0 <= i < texts.len() implies widest(texts, least) >= display_width(
            #[trigger] texts[i],
        ) by {
            if i < texts.len() - 1 {
                assert(texts.drop_last()[i] == texts[i]);
            }
        }
    }
}

/// The lines of the calendar listing.
pub fn calendar_lines(cals: &[CalendarInfo], verbose: bool, no_color: bool, no_header: bool) -> (r: Vec<
    String,
>)
    ensures
        r@.map_values(|s: String| s@) == calendars_text(cals@, verbose, !no_color, no_header),
{
    let color = !no_color;
    let (bold, dim, reset) = if color {
        ("\x1b[1m", "\x1b[2m", "\x1b[0m")
    } else {
        ("", "", "")
    };
    proof {
        if !color {
            reveal_strlit("");
        }
    }
    let mut lines: Vec<String> = Vec::new();
    if cals.len() == 0 {
        push_line(&mut lines, &chars_of("No calendars found."));
        proof {
            assert(lines@.map_values(|s: String| s@) =~= calendars_text(cals@, verbose, color, no_header));
        }
        return lines;
    }
    let title_w = widest_of(cals, false, 5);
    let id_w = widest_of(cals, true, 2);
    proof {
        lemma_widest_at_least(cals@.map_values(|c: CalendarInfo| c.title@), 5);
        lemma_widest_at_least(cals@.map_values(|c: CalendarInfo| c.id@), 2);
    }
    if !no_header {
        let mut h = chars_of(dim);
        push_str(&mut h, "  TITLE");
        push_spaces(&mut h, title_w - 5);
        push_str(&mut h, "  SOURCE");
        if verbose {
            push_str(&mut h, "  ID");
            push_spaces(&mut h, id_w - 2);
            proof {
                reveal_strlit("  SOURCE");
                reveal_strlit("  ID");
                reveal_strlit("  SOURCE  ID");
                assert("  SOURCE"@ + "  ID"@ =~= "  SOURCE  ID"@);
            }
        }
        push_str(&mut h, reset);
        proof {
            let (b, d, rs) = plain_styles(color);
            let header = if verbose {
                d + "  TITLE"@ + Seq::new((title_w - 5) as nat, |i: int| ' ') + "  SOURCE  ID"@ + Seq::new(
                    (id_w - 2) as nat,
                    |i: int| ' ',
                ) + rs
            } else {
                d + "  TITLE"@ + Seq::new((title_w - 5) as nat, |i: int| ' ') + "  SOURCE"@ + rs
            };
            assert(h@ =~= header);
        }
        push_line(&mut lines, &h);
    }
    let ghost head = lines@.map_values(|s: String| s@);
    proof {
        let (b, d, rs) = plain_styles(color);
        let header = if verbose {
            d + "  TITLE"@ + Seq::new((title_w - 5) as nat, |i: int| ' ') + "  SOURCE  ID"@ + Seq::new(
                (id_w - 2) as nat,
                |i: int| ' ',
            ) + rs
        } else {
            d + "  TITLE"@ + Seq::new((title_w - 5) as nat, |i: int| ' ') + "  SOURCE"@ + rs
        };
        assert(head =~= (if no_header {
            Seq::<Seq<char>>::empty()
        } else {
            seq![header]
        }));
    }
    let mut i: usize = 0;
    while i < cals.len()
        invariant
            i <= cals@.len(),
            bold@ == plain_styles(color).0,
            dim@ == plain_styles(color).1,
            reset@ == plain_styles(color).2,
            title_w == widest(cals@.map_values(|c: CalendarInfo| c.title@), 5),
            id_w == widest(cals@.map_values(|c: CalendarInfo| c.id@), 2),
            lines@.map_values(|s: String| s@) == head + Seq::new(
                i as nat,
                |k: int| calendar_line(cals@[k], verbose, color, title_w as nat, id_w as nat),
            ),
        decreases cals@.len() - i,
    {
        let c = &cals[i];
        let mut v = chars_of("  ");
        push_str(&mut v, bold);
        push_chars(&mut v, &chars_of(pad_right(c.title.as_str(), title_w).as_str()));
        push_str(&mut v, reset);
        push_str(&mut v, "  ");
        push_str(&mut v, dim);
        push_chars(&mut v, &chars_of(c.source.as_str()));
        push_str(&mut v, reset);
        if verbose {
            push_str(&mut v, "  ");
            push_str(&mut v, dim);
            push_chars(&mut v, &chars_of(pad_right(c.id.as_str(), id_w).as_str()));
            push_str(&mut v, reset);
        }
        push_line(&mut lines, &v);
        i += 1;
        proof {
            assert(lines@.map_values(|s: String| s@) =~= head + Seq::new(
                i as nat,
                |k: int| calendar_line(cals@[k], verbose, color, title_w as nat, id_w as nat),
            ));
        }
    }
    proof {
        assert(lines@.map_values(|s: String| s@) =~= calendars_text(cals@, verbose, color, no_header));
    }
    lines
}

/// One conflicting event in the warning of `add --check-conflicts`.
pub open spec fn conflict_item(c: EventInfo) -> Seq<char> {
    let sd = c.start.local().date;
    let last = c.end.local().date.days - 1;
    if c.all_day {
        if last > sd.days {
            "  "@ + ymd_text(sd) + " to "@ + ymd_text(Date { days: last as i32 }) + " | "@ + c.title@
        } else {
            "  "@ + ymd_text(sd) + " | "@ + c.title@
        }
    } else {
        "  "@ + hm_text(c.start.local().time) + " - "@ + hm_text(c.end.local().time) + " | "@
            + c.title@
    }
}

/// The warning of `add --check-conflicts` on a terminal: a count, one line per conflicting
/// event, and a blank line.
pub open spec fn conflict_warning_text(conflicts: Seq<EventInfo>) -> Seq<Seq<char>> {
    seq!["Warning: "@ + dec(conflicts.len()) + " conflicting event(s) found:"@] + Seq::new(
        conflicts.len(),
        |i: int| conflict_item(conflicts[i]),
    ) + seq![Seq::<char>::empty()]
}

/// The lines of the conflict warning.
pub fn conflict_warning_lines(conflicts: &[EventInfo]) -> (r: Vec<String>)
    requires
        forall|i: int| 0 <= i < conflicts@.len() ==> #[trigger] conflicts@[i].wf(),
    ensures
        r@.map_values(|s: String| s@) == conflict_warning_text(conflicts@),
{
    let mut lines: Vec<String> = Vec::new();
    let mut h = chars_of("Warning: ");
    push_chars(&mut h, &dec_chars(conflicts.len() as u64));
    push_str(&mut h, " conflicting event(s) found:");
    push_line(&mut lines, &h);
    let ghost head = lines@.map_values(|s: String| s@);
    let mut i: usize = 0;
    while i < conflicts.len()
        invariant
            i <= conflicts@.len(),
            forall|k: int| 0 <= k < conflicts@.len() ==> #[trigger] conflicts@[k].wf(),
            lines@.map_values(|s: String| s@) == head + Seq::new(
                i as nat,
                |k: int| conflict_item(conflicts@[k]),
            ),
        decreases conflicts@.len() - i,
    {
        let c = &conflicts[i];
        assert(conflicts@[i as int].wf());
        let mut v = chars_of("  ");
        if c.all_day {
            let sd = c.start.date_naive();
            let ed = c.end.date_naive();
            if ed.days - 1 > sd.days {
                push_chars(&mut v, &format_ymd(sd));
                push_str(&mut v, " to ");
                push_chars(&mut v, &format_ymd(Date { days: ed.days - 1 }));
            } else {
                push_chars(&mut v, &format_ymd(sd));
            }
        } else {
            push_chars(&mut v, &format_hm(c.start.time()));
            push_str(&mut v, " - ");
            push_chars(&mut v, &format_hm(c.end.time()));
        }
        push_str(&mut v, " | ");
        push_chars(&mut v, &chars_of(c.title.as_str()));
        push_line(&mut lines, &v);
        i += 1;
        proof {
            assert(lines@.map_values(|s: String| s@) =~= head + Seq::new(
                i as nat,
                |k: int| conflict_item(conflicts@[k]),
            ));
        }
    }
    push_line(&mut lines, &Vec::new());
    proof {
        assert(lines@.map_values(|s: String| s@) =~= conflict_warning_text(conflicts@));
    }
    lines
}

} // verus!
