//! Today's agenda: all-day events first (by title, then calendar), then timed events (by
//! start, then title), with a count of what is done and what remains.
use vstd::prelude::*;
use crate::events::{duration_text, minutes_string};
use crate::state::{name_less, text_lt};
use crate::store::EventInfo;
use crate::text::{chars_of, dec, dec_chars, push_chars, push_str, string_from_chars, str_eq};
use crate::events::{lemma_filter_keeps, whole_minutes};
use crate::listing::{first_line, first_line_of, styles};
use crate::time::{format_hm, format_long_date, hm_text, long_date_text, Moment};

verus! {

/// All-day events are ordered by title, then by calendar.
pub open spec fn all_day_before(a: EventInfo, b: EventInfo) -> bool {
    text_lt(a.title@, b.title@) || (a.title@ == b.title@ && text_lt(a.calendar@, b.calendar@))
}

/// Timed events are ordered by start, then by title.
pub open spec fn timed_before(a: EventInfo, b: EventInfo) -> bool {
    a.start.timestamp < b.start.timestamp || (a.start.timestamp == b.start.timestamp && text_lt(
        a.title@,
        b.title@,
    ))
}

/// Inserts an event after every event it does not go before (`timed` picks the order).
pub open spec fn insert_agenda(s: Seq<EventInfo>, x: EventInfo, timed: bool) -> Seq<EventInfo>
    decreases s.len(),
{
    if s.len() == 0 {
        seq![x]
    } else if !(if timed {
        timed_before(x, s.last())
    } else {
        all_day_before(x, s.last())
    }) {
        s.push(x)
    } else {
        insert_agenda(s.drop_last(), x, timed).push(s.last())
    }
}

/// Events in agenda order; events the order does not tell apart keep their order.
pub open spec fn sort_agenda(s: Seq<EventInfo>, timed: bool) -> Seq<EventInfo>
    decreases s.len(),
{
    if s.len() == 0 {
        s
    } else {
        insert_agenda(sort_agenda(s.drop_last(), timed), s.last(), timed)
    }
}

/// The all-day events of a day, in agenda order.
pub open spec fn agenda_all_day(events: Seq<EventInfo>) -> Seq<EventInfo> {
    sort_agenda(events.filter(|e: EventInfo| e.all_day), false)
}

/// The timed events of a day, in agenda order.
pub open spec fn agenda_timed(events: Seq<EventInfo>) -> Seq<EventInfo> {
    sort_agenda(events.filter(|e: EventInfo| !e.all_day), true)
}

fn before_in_agenda(a: &EventInfo, b: &EventInfo, timed: bool) -> (r: bool)
    ensures
        r == (if timed {
            timed_before(*a, *b)
        } else {
            all_day_before(*a, *b)
        }),
{
    if timed {
        a.start.timestamp < b.start.timestamp || (a.start.timestamp == b.start.timestamp
            && name_less(a.title.as_str(), b.title.as_str()))
    } else {
        name_less(a.title.as_str(), b.title.as_str()) || (str_eq(a.title.as_str(), b.title.as_str())
            && name_less(a.calendar.as_str(), b.calendar.as_str()))
    }
}

fn insert_in_agenda(v: Vec<EventInfo>, x: EventInfo, timed: bool) -> (r: Vec<EventInfo>)
    ensures
        r@ == insert_agenda(v@, x, timed),
    decreases v@.len(),
{
    let mut v = v;
    match v.pop() {
        None => {
            let mut r: Vec<EventInfo> = Vec::new();
            r.push(x);
            r
        },
        Some(last) => {
            if !before_in_agenda(&x, &last, timed) {
                v.push(last);
                v.push(x);
                v
            } else {
                let mut r = insert_in_agenda(v, x, timed);
                r.push(last);
                r
            }
        },
    }
}

/// Splits a day's events into all-day and timed events, each in agenda order.
pub fn split_agenda_events(events: Vec<EventInfo>) -> (r: (Vec<EventInfo>, Vec<EventInfo>))
    ensures
        r.0@ == agenda_all_day(events@),
        r.1@ == agenda_timed(events@),
{
    let ghost orig = events@;
    let mut all_day: Vec<EventInfo> = Vec::new();
    let mut timed: Vec<EventInfo> = Vec::new();
    let ghost mut all_day_in: Seq<EventInfo> = Seq::empty();
    let ghost mut timed_in: Seq<EventInfo> = Seq::empty();
    for e in it: events.into_iter()
        invariant
            it.seq() == orig,
            all_day_in == orig.take(it.index() as int).filter(|e: EventInfo| e.all_day),
            timed_in == orig.take(it.index() as int).filter(|e: EventInfo| !e.all_day),
            all_day@ == sort_agenda(all_day_in, false),
            timed@ == sort_agenda(timed_in, true),
    {
        proof {
            assert(orig.take(it.index() as int + 1) =~= orig.take(it.index() as int).push(e));
            orig.take(it.index() as int).lemma_filter_push(e, |e: EventInfo| e.all_day);
            orig.take(it.index() as int).lemma_filter_push(e, |e: EventInfo| !e.all_day);
        }
        if e.all_day {
            proof {
                assert(all_day_in.push(e).drop_last() =~= all_day_in);
                all_day_in = all_day_in.push(e);
            }
            all_day = insert_in_agenda(all_day, e, false);
        } else {
            proof {
                assert(timed_in.push(e).drop_last() =~= timed_in);
                timed_in = timed_in.push(e);
            }
            timed = insert_in_agenda(timed, e, true);
        }
    }
    proof {
        assert(orig.take(orig.len() as int) =~= orig);
    }
    (all_day, timed)
}

/// A day's events in the order the agenda shows them: all-day events, then timed ones.
pub fn ordered_agenda_events(events: Vec<EventInfo>) -> (r: Vec<EventInfo>)
    ensures
        r@ == agenda_all_day(events@) + agenda_timed(events@),
{
    let (mut all_day, mut timed) = split_agenda_events(events);
    all_day.append(&mut timed);
    all_day
}

/// How many timed events have ended by `now`.
pub open spec fn done_count(timed: Seq<EventInfo>, now: Moment) -> nat {
    timed.filter(|e: EventInfo| e.end.timestamp <= now.timestamp).len()
}

/// The agenda's closing counts: all-day events, timed events done, timed events remaining.
pub fn summary_counts(all_day: &[EventInfo], timed: &[EventInfo], now: Moment) -> (r: (
    usize,
    usize,
    usize,
))
    ensures
        r.0 == all_day@.len(),
        r.1 == done_count(timed@, now),
        r.2 == timed@.len() - done_count(timed@, now),
{
    let mut done: usize = 0;
    let mut i: usize = 0;
    while i < timed.len()
        invariant
            i <= timed@.len(),
            done == done_count(timed@.take(i as int), now),
            done <= i,
        decreases timed@.len() - i,
    {
        proof {
            assert(timed@.take(i as int + 1) =~= timed@.take(i as int).push(timed@[i as int]));
            timed@.take(i as int).lemma_filter_push(
                timed@[i as int],
                |e: EventInfo| e.end.timestamp <= now.timestamp,
            );
        }
        if timed[i].end.timestamp <= now.timestamp {
            done = done + 1;
        }
        i += 1;
    }
    proof {
        assert(timed@.take(timed@.len() as int) =~= timed@);
    }
    (all_day.len(), done, timed.len() - done)
}

/// A number of minutes as the agenda shows a gap or time left.
pub fn format_relative(minutes: i64) -> (r: String)
    ensures
        r@ == duration_text(minutes as int),
{
    minutes_string(minutes)
}

/// The line of an all-day event in the agenda.
pub open spec fn all_day_line(e: EventInfo, color: bool) -> Seq<char> {
    let (bold, dim, reset, green, cyan) = styles(color);
    "  "@ + cyan + "┄┄┄ all day ┄┄┄"@ + reset + "  "@ + bold + e.title@ + reset + "  "@ + dim
        + e.calendar@ + reset
}

/// The line under a current or upcoming event that gives its location, when it has one.
pub open spec fn location_lines(e: EventInfo, color: bool) -> Seq<Seq<char>> {
    let (bold, dim, reset, green, cyan) = styles(color);
    match e.location {
        Some(loc) => if loc@.len() > 0 {
            seq!["  "@ + dim + "  📍 "@ + first_line(loc@) + reset]
        } else {
            Seq::empty()
        },
        None => Seq::empty(),
    }
}

/// The lines of a timed event in the agenda: a gap note after the previous event when there
/// is time between them, then the event as done, happening now (with the time left), or
/// coming (with the time until it).
pub open spec fn timed_lines(e: EventInfo, prev_end: Option<Moment>, now: Moment, color: bool) -> Seq<
    Seq<char>,
> {
    let (bold, dim, reset, green, cyan) = styles(color);
    let gap: Seq<Seq<char>> = match prev_end {
        Some(pe) => if e.start.timestamp > pe.timestamp {
            seq![
                "  "@ + dim + "  ── "@ + duration_text(whole_minutes(e.start.timestamp - pe.timestamp))
                    + " gap ──"@ + reset,
            ]
        } else {
            Seq::empty()
        },
        None => Seq::empty(),
    };
    let range = hm_text(e.start.local().time) + " - "@ + hm_text(e.end.local().time);
    let body: Seq<Seq<char>> = if e.end.timestamp <= now.timestamp {
        seq!["  "@ + dim + "✓ "@ + range + "  "@ + e.title@ + reset]
    } else if e.start.timestamp <= now.timestamp {
        seq![
            "  "@ + green + "▶ "@ + bold + range + reset + "  "@ + bold + e.title@ + reset + "  "@
                + dim + e.calendar@ + reset,
            "  "@ + green + "  ← now ("@ + duration_text(whole_minutes(e.end.timestamp - now.timestamp))
                + " left)"@ + reset,
        ] + location_lines(e, color)
    } else {
        seq![
            "  · "@ + range + "  "@ + bold + e.title@ + reset + "  "@ + dim + e.calendar@ + "  in "@
                + duration_text(whole_minutes(e.start.timestamp - now.timestamp)) + reset,
        ] + location_lines(e, color)
    };
    gap + body
}

/// The lines of the timed events, each after the one before it.
pub open spec fn timed_block(s: Seq<EventInfo>, now: Moment, color: bool) -> Seq<Seq<char>>
    decreases s.len(),
{
    if s.len() == 0 {
        Seq::empty()
    } else {
        timed_block(s.drop_last(), now, color) + timed_lines(
            s.last(),
            if s.len() == 1 {
                None
            } else {
                Some(s[s.len() - 2].end)
            },
            now,
            color,
        )
    }
}

/// The agenda's closing count line.
pub open spec fn summary_line(all_day: nat, done: nat, remaining: nat, color: bool) -> Seq<char> {
    let (bold, dim, reset, green, cyan) = styles(color);
    dim + dec(all_day) + " all-day, "@ + dec(done) + " timed done, "@ + dec(remaining)
        + " timed remaining"@ + reset
}

proof fn lemma_insert_agenda_wf(s: Seq<EventInfo>, x: EventInfo, timed: bool)
    requires
        forall|i: int| 0 <= i < s.len() ==> #[trigger] s[i].wf(),
        x.wf(),
    ensures
        forall|i: int| 0 <= i < insert_agenda(s, x, timed).len() ==> #[trigger] insert_agenda(s, x, timed)[i].wf(),
    decreases s.len(),
{
    let ins = insert_agenda(s, x, timed);
    if s.len() == 0 {
        assert(ins =~= seq![x]);
    } else {
        let p = s.drop_last();
        assert forall|i: int| 0 <= i < p.len() implies #[trigger] p[i].wf() by {
            assert(p[i] == s[i]);
        }
        lemma_insert_agenda_wf(p, x, timed);
        assert(s[s.len() - 1].wf());
        assert forall|i: int| 0 <= i < ins.len() implies #[trigger] ins[i].wf() by {
            if !(if timed {
                timed_before(x, s.last())
            } else {
                all_day_before(x, s.last())
            }) {
                assert(ins == s.push(x));
                if i < s.len() {
                    assert(ins[i] == s[i]);
                }
            } else {
                let q = insert_agenda(p, x, timed);
                assert(ins == q.push(s.last()));
                if i < q.len() {
                    assert(ins[i] == q[i]);
                }
            }
        }
    }
}

proof fn lemma_sort_agenda_wf(s: Seq<EventInfo>, timed: bool)
    requires
        forall|i: int| 0 <= i < s.len() ==> #[trigger] s[i].wf(),
    ensures
        forall|i: int| 0 <= i < sort_agenda(s, timed).len() ==> #[trigger] sort_agenda(s, timed)[i].wf(),
    decreases s.len(),
{
    if s.len() > 0 {
        let p = s.drop_last();
        assert forall|i: int| 0 <= i < p.len() implies #[trigger] p[i].wf() by {
            assert(p[i] == s[i]);
        }
        lemma_sort_agenda_wf(p, timed);
        assert(s.last().wf());
        lemma_insert_agenda_wf(sort_agenda(p, timed), s.last(), timed);
    }
}

/// The agenda of a day's (non-canceled) events as shown on a terminal.
pub open spec fn agenda_text(events: Seq<EventInfo>, now: Moment, color: bool) -> Seq<Seq<char>> {
    let (bold, dim, reset, green, cyan) = styles(color);
    if events.len() == 0 {
        seq!["No events today."@]
    } else {
        let all_day = agenda_all_day(events);
        let timed = agenda_timed(events);
        seq![bold + long_date_text(now.local().date) + reset, Seq::empty()] + Seq::new(
            all_day.len(),
            |i: int| all_day_line(all_day[i], color),
        ) + (if all_day.len() > 0 && timed.len() > 0 {
            seq![Seq::empty()]
        } else {
            Seq::empty()
        }) + timed_block(timed, now, color) + seq![
            Seq::empty(),
            summary_line(
                all_day.len(),
                done_count(timed, now),
                (timed.len() - done_count(timed, now)) as nat,
                color,
            ),
        ]
    }
}

fn text(s: &str) -> (r: String)
    ensures
        r@ == s@,
{
    string_from_chars(&chars_of(s))
}

fn push_line(lines: &mut Vec<String>, v: &Vec<char>)
    ensures
        final(lines)@.map_values(|s: String| s@) == old(lines)@.map_values(|s: String| s@).push(v@),
{
    let line = string_from_chars(v);
    let ghost lv = line@;
    lines.push(line);
    proof {
        assert(final(lines)@.map_values(|s: String| s@) =~= old(lines)@.map_values(|s: String| s@).push(lv));
    }
}

fn push_location(lines: &mut Vec<String>, e: &EventInfo, dim: &str, reset: &str, color: bool)
    requires
        dim@ == styles(color).1,
        reset@ == styles(color).2,
    ensures
        final(lines)@.map_values(|s: String| s@) == old(lines)@.map_values(|s: String| s@) + location_lines(*e, color),
{
    match &e.location {
        Some(loc) => {
            if chars_of(loc.as_str()).len() > 0 {
                let mut v = chars_of("  ");
                push_str(&mut v, dim);
                push_str(&mut v, "  📍 ");
                push_chars(&mut v, &first_line_of(loc.as_str()));
                push_str(&mut v, reset);
                push_line(lines, &v);
                return;
            }
        },
        None => {},
    }
    assert(final(lines)@.map_values(|s: String| s@) =~= old(lines)@.map_values(|s: String| s@) + location_lines(*e, color));
}

fn push_timed(
    lines: &mut Vec<String>,
    e: &EventInfo,
    prev_end: Option<Moment>,
    now: Moment,
    color: bool,
    bold: &str,
    dim: &str,
    reset: &str,
    green: &str,
)
    requires
        e.wf(),
        now.wf(),
        prev_end matches Some(pe) ==> pe.wf(),
        bold@ == styles(color).0,
        dim@ == styles(color).1,
        reset@ == styles(color).2,
        green@ == styles(color).3,
    ensures
        final(lines)@.map_values(|s: String| s@) == old(lines)@.map_values(|s: String| s@)
            + timed_lines(*e, prev_end, now, color),
{
    let ghost base = lines@.map_values(|s: String| s@);
    if let Some(pe) = prev_end {
        if e.start.timestamp > pe.timestamp {
            let mut v = chars_of("  ");
            push_str(&mut v, dim);
            push_str(&mut v, "  ── ");
            push_chars(&mut v, &chars_of(format_relative((e.start.timestamp - pe.timestamp) / 60).as_str()));
            push_str(&mut v, " gap ──");
            push_str(&mut v, reset);
            push_line(lines, &v);
        }
    }
    let mut range = format_hm(e.start.time());
    push_str(&mut range, " - ");
    push_chars(&mut range, &format_hm(e.end.time()));
    if e.end.timestamp <= now.timestamp {
        let mut v = chars_of("  ");
        push_str(&mut v, dim);
        push_str(&mut v, "✓ ");
        push_chars(&mut v, &range);
        push_str(&mut v, "  ");
        push_chars(&mut v, &chars_of(e.title.as_str()));
        push_str(&mut v, reset);
        push_line(lines, &v);
    } else if e.start.timestamp <= now.timestamp {
        let mut v = chars_of("  ");
        push_str(&mut v, green);
        push_str(&mut v, "▶ ");
        push_str(&mut v, bold);
        push_chars(&mut v, &range);
        push_str(&mut v, reset);
        push_str(&mut v, "  ");
        push_str(&mut v, bold);
        push_chars(&mut v, &chars_of(e.title.as_str()));
        push_str(&mut v, reset);
        push_str(&mut v, "  ");
        push_str(&mut v, dim);
        push_chars(&mut v, &chars_of(e.calendar.as_str()));
        push_str(&mut v, reset);
        push_line(lines, &v);
        let mut w = chars_of("  ");
        push_str(&mut w, green);
        push_str(&mut w, "  ← now (");
        push_chars(&mut w, &chars_of(format_relative((e.end.timestamp - now.timestamp) / 60).as_str()));
        push_str(&mut w, " left)");
        push_str(&mut w, reset);
        push_line(lines, &w);
        push_location(lines, e, dim, reset, color);
    } else {
        let mut v = chars_of("  · ");
        push_chars(&mut v, &range);
        push_str(&mut v, "  ");
        push_str(&mut v, bold);
        push_chars(&mut v, &chars_of(e.title.as_str()));
        push_str(&mut v, reset);
        push_str(&mut v, "  ");
        push_str(&mut v, dim);
        push_chars(&mut v, &chars_of(e.calendar.as_str()));
        push_str(&mut v, "  in ");
        push_chars(&mut v, &chars_of(format_relative((e.start.timestamp - now.timestamp) / 60).as_str()));
        push_str(&mut v, reset);
        push_line(lines, &v);
        push_location(lines, e, dim, reset, color);
    }
    proof {
        assert(final(lines)@.map_values(|s: String| s@) =~= base + timed_lines(*e, prev_end, now, color));
    }
}

/// The agenda of a day's (non-canceled) events as shown on a terminal.
#[verifier::spinoff_prover]
#[verifier::rlimit(40)]
pub fn agenda_lines(events: Vec<EventInfo>, now: Moment, no_color: bool) -> (r: Vec<String>)
    requires
        now.wf(),
        forall|i: int| 0 <= i < events@.len() ==> #[trigger] events@[i].wf(),
    ensures
        r@.map_values(|s: String| s@) == agenda_text(events@, now, !no_color),
{
    let color = !no_color;
    let (bold, dim, reset, green, cyan) = if color {
        ("\x1b[1m", "\x1b[2m", "\x1b[0m", "\x1b[32m", "\x1b[36m")
    } else {
        ("", "", "", "", "")
    };
    proof {
        if !color {
            reveal_strlit("");
        }
    }
    let ghost evs = events@;
    let mut lines: Vec<String> = Vec::new();
    if events.len() == 0 {
        lines.push(text("No events today."));
        proof {
            assert(lines@.map_values(|s: String| s@) =~= agenda_text(evs, now, color));
        }
        return lines;
    }
    proof {
        lemma_filter_keeps(evs, |e: EventInfo| e.all_day, |e: EventInfo| e.wf());
        lemma_filter_keeps(evs, |e: EventInfo| !e.all_day, |e: EventInfo| e.wf());
        lemma_sort_agenda_wf(evs.filter(|e: EventInfo| !e.all_day), true);
    }
    let (all_day, timed) = split_agenda_events(events);
    let ghost ad = all_day@;
    let ghost tm = timed@;
    let mut head = chars_of(bold);
    push_chars(&mut head, &format_long_date(now.date_naive()));
    push_str(&mut head, reset);
    push_line(&mut lines, &head);
    push_line(&mut lines, &Vec::new());
    let ghost start_lines = lines@.map_values(|s: String| s@);
    let mut i: usize = 0;
    while i < all_day.len()
        invariant
            i <= all_day@.len(),
            all_day@ == ad,
            bold@ == styles(color).0,
            dim@ == styles(color).1,
            reset@ == styles(color).2,
            cyan@ == styles(color).4,
            lines@.map_values(|s: String| s@) == start_lines + Seq::new(i as nat, |k: int| all_day_line(ad[k], color)),
        decreases all_day@.len() - i,
    {
        let e = &all_day[i];
        let mut v = chars_of("  ");
        push_str(&mut v, cyan);
        push_str(&mut v, "┄┄┄ all day ┄┄┄");
        push_str(&mut v, reset);
        push_str(&mut v, "  ");
        push_str(&mut v, bold);
        push_chars(&mut v, &chars_of(e.title.as_str()));
        push_str(&mut v, reset);
        push_str(&mut v, "  ");
        push_str(&mut v, dim);
        push_chars(&mut v, &chars_of(e.calendar.as_str()));
        push_str(&mut v, reset);
        push_line(&mut lines, &v);
        i += 1;
        proof {
            assert(lines@.map_values(|s: String| s@) =~= start_lines + Seq::new(i as nat, |k: int| all_day_line(ad[k], color)));
        }
    }
    if all_day.len() > 0 && timed.len() > 0 {
        push_line(&mut lines, &Vec::new());
    }
    let ghost before_timed = lines@.map_values(|s: String| s@);
    proof {
        assert(tm.take(0) =~= Seq::<EventInfo>::empty());
        assert(before_timed =~= before_timed + timed_block(tm.take(0), now, color));
    }
    let mut done: usize = 0;
    let mut j: usize = 0;
    while j < timed.len()
        invariant
            j <= timed@.len(),
            timed@ == tm,
            now.wf(),
            forall|k: int| 0 <= k < tm.len() ==> #[trigger] tm[k].wf(),
            bold@ == styles(color).0,
            dim@ == styles(color).1,
            reset@ == styles(color).2,
            green@ == styles(color).3,
            lines@.map_values(|s: String| s@) == before_timed + timed_block(tm.take(j as int), now, color),
        decreases timed@.len() - j,
    {
        let e = &timed[j];
        proof {
            assert(tm.take(j as int + 1).drop_last() =~= tm.take(j as int));
            assert(tm.take(j as int + 1).last() == tm[j as int]);
            if j > 0 {
                assert(tm.take(j as int + 1)[j as int - 1] == tm[j as int - 1]);
            }
            assert(tm[j as int].wf());
        }
        proof {
            if j > 0 {
                assert(tm[j as int - 1].wf());
            }
        }
        let prev_end = if j > 0 {
            Some(timed[j - 1].end)
        } else {
            None
        };
        push_timed(&mut lines, e, prev_end, now, color, bold, dim, reset, green);
        proof {
            assert(lines@.map_values(|s: String| s@) =~= before_timed + timed_block(tm.take(j as int + 1), now, color));
        }
        j += 1;
    }
    proof {
        assert(tm.take(timed@.len() as int) =~= tm);
    }
    let (a, d, r) = summary_counts(&all_day, &timed, now);
    push_line(&mut lines, &Vec::new());
    let mut v = chars_of(dim);
    push_chars(&mut v, &dec_chars(a as u64));
    push_str(&mut v, " all-day, ");
    push_chars(&mut v, &dec_chars(d as u64));
    push_str(&mut v, " timed done, ");
    push_chars(&mut v, &dec_chars(r as u64));
    push_str(&mut v, " timed remaining");
    push_str(&mut v, reset);
    push_line(&mut lines, &v);
    proof {
        assert(lines@.map_values(|s: String| s@) =~= agenda_text(evs, now, color));
    }
    lines
}

} // verus!
