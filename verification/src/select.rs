//! Choosing the one event a command acts on: by ID, or by a query whose matches must be one
//! event, or are offered as a numbered menu.
use vstd::prelude::*;
use crate::error::{agrees, invalid_argument, invalid_argument_str, AppError, ErrorKind, Failure};
use crate::events::{all_wf, sort_events, sort_events_by};
use crate::listing::push_rjust;
use crate::store::EventInfo;
use crate::template::{ymd_hm, ymd_hm_text};
use crate::text::{
    chars_of, dec, dec_chars, join, parse_usize, push_chars, push_str, spec_parse_usize,
    string_from_chars, trim, trim_chars, eq_str,
};
use crate::time::{format_hm, format_ymd, hm_text, ymd_text};
use crate::listing::rjust;

verus! {

/// How the event to act on was named.
pub enum EventLookup {
    ById(String),
    ByQuery(String),
}

/// What `resolve_event` decides from an event ID and a query.
pub open spec fn lookup_spec(event_id: Option<Seq<char>>, query: Option<Seq<char>>) -> Result<
    (bool, Seq<char>),
    (ErrorKind, Seq<char>),
> {
    match (event_id, query) {
        (Some(id), None) => if trim(id).len() == 0 {
            Err((ErrorKind::InvalidArgument, "EVENT_ID must not be empty"@))
        } else {
            Ok((true, id))
        },
        (None, Some(q)) => Ok((false, q)),
        (Some(_), Some(_)) => Err(
            (ErrorKind::InvalidArgument, "Use either EVENT_ID or --query, not both."@),
        ),
        (None, None) => Err((ErrorKind::InvalidArgument, "Provide EVENT_ID or --query."@)),
    }
}

/// The view of an optional text.
pub open spec fn opt_text(o: Option<&str>) -> Option<Seq<char>> {
    match o {
        Some(s) => Some(s@),
        None => None,
    }
}

/// Whether a lookup is the one the specification gives (`true` for a lookup by ID).
pub open spec fn lookup_is(l: EventLookup, by_id: bool, text: Seq<char>) -> bool {
    match l {
        EventLookup::ById(s) => by_id && s@ == text,
        EventLookup::ByQuery(s) => !by_id && s@ == text,
    }
}

fn owned(s: &str) -> (r: String)
    ensures
        r@ == s@,
{
    string_from_chars(&chars_of(s))
}

/// Exactly one of an event ID (not blank) and a query must be given.
pub fn event_lookup(event_id: Option<&str>, query: Option<&str>) -> (r: Result<EventLookup, AppError>)
    ensures
        match (r, lookup_spec(opt_text(event_id), opt_text(query))) {
            (Ok(l), Ok((by_id, text))) => lookup_is(l, by_id, text),
            (Err(e), Err(f)) => e.is(f),
            _ => false,
        },
{
    match (event_id, query) {
        (Some(id), None) => {
            let t = trim_chars(&chars_of(id));
            if t.len() == 0 {
                Err(invalid_argument_str("EVENT_ID must not be empty"))
            } else {
                Ok(EventLookup::ById(owned(id)))
            }
        },
        (None, Some(q)) => Ok(EventLookup::ByQuery(owned(q))),
        (Some(_), Some(_)) => Err(invalid_argument_str("Use either EVENT_ID or --query, not both.")),
        (None, None) => Err(invalid_argument_str("Provide EVENT_ID or --query.")),
    }
}

/// What a query's matches lead to.
pub enum MatchOutcome {
    /// The one event that matched.
    Found(EventInfo),
    /// Several matched and the user picks one; the matches ordered by start.
    Choose(Vec<EventInfo>),
}

/// One match as the error of an ambiguous query lists it: `title [calendar] start (id)`.
pub open spec fn preview_item(e: EventInfo) -> Seq<char> {
    e.title@ + " ["@ + e.calendar@ + "] "@ + ymd_hm_text(e.start) + " ("@ + e.id@ + ")"@
}

/// The first (at most five) matches, by start, joined by `; `.
pub open spec fn preview_text(sorted: Seq<EventInfo>) -> Seq<char> {
    let n = if sorted.len() < 5 {
        sorted.len() as int
    } else {
        5
    };
    join(sorted.take(n).map_values(|e: EventInfo| preview_item(e)), "; "@)
}

/// The error of a query that matched several events without interactive picking.
pub open spec fn ambiguous_text(count: nat, sorted: Seq<EventInfo>) -> Seq<char> {
    "Query matched "@ + dec(count)
        + " events. Use -i to pick interactively, or narrow with --exact title/--in-calendar/--from/--to. Matches: "@
        + preview_text(sorted)
}

fn preview_line(e: &EventInfo) -> (r: Vec<char>)
    requires
        e.wf(),
    ensures
        r@ == preview_item(*e),
{
    let mut out = chars_of(e.title.as_str());
    push_str(&mut out, " [");
    push_chars(&mut out, &chars_of(e.calendar.as_str()));
    push_str(&mut out, "] ");
    push_chars(&mut out, &ymd_hm(e.start));
    push_str(&mut out, " (");
    push_chars(&mut out, &chars_of(e.id.as_str()));
    push_str(&mut out, ")");
    out
}

fn preview_of(sorted: &Vec<EventInfo>) -> (r: Vec<char>)
    requires
        all_wf(sorted@),
    ensures
        r@ == preview_text(sorted@),
{
    let n: usize = if sorted.len() < 5 {
        sorted.len()
    } else {
        5
    };
    let ghost items = sorted@.take(n as int).map_values(|e: EventInfo| preview_item(e));
    let mut out: Vec<char> = Vec::new();
    let mut i: usize = 0;
    while i < n
        invariant
            n <= sorted@.len(),
            i <= n,
            all_wf(sorted@),
            items == sorted@.take(n as int).map_values(|e: EventInfo| preview_item(e)),
            out@ == join(items.take(i as int), "; "@),
        decreases n - i,
    {
        if i > 0 {
            push_str(&mut out, "; ");
        }
        assert(sorted@[i as int].wf());
        push_chars(&mut out, &preview_line(&sorted[i]));
        i += 1;
        proof {
            assert(items.take(i as int).drop_last() =~= items.take(i as int - 1));
            assert(items.take(i as int).last() == preview_item(sorted@[i as int - 1]));
            lemma_join_push(items.take(i as int - 1), items[i as int - 1], "; "@);
            assert(items.take(i as int - 1).push(items[i as int - 1]) =~= items.take(i as int));
        }
    }
    proof {
        assert(items.take(n as int) =~= items);
    }
    out
}

proof fn lemma_join_push(parts: Seq<Seq<char>>, x: Seq<char>, sep: Seq<char>)
    ensures
        join(parts.push(x), sep) == if parts.len() == 0 {
            x
        } else {
            join(parts, sep) + sep + x
        },
{
    assert(parts.push(x).drop_last() =~= parts);
}

/// What a query's matches lead to: none is an error naming the query, one is the event,
/// several are a menu when picking interactively and otherwise an error listing them.
pub fn resolve_matches(matches: Vec<EventInfo>, query: &str, interactive: bool) -> (r: Result<
    MatchOutcome,
    AppError,
>)
    requires
        all_wf(matches@),
    ensures
        matches@.len() == 0 ==> (r matches Err(e) && e.is((ErrorKind::EventNotFound, query@))),
        matches@.len() == 1 ==> (r matches Ok(MatchOutcome::Found(ev)) && ev == matches@[0]),
        matches@.len() > 1 && interactive ==> (r matches Ok(MatchOutcome::Choose(v)) && v@
            == sort_events(matches@, "start"@)),
        matches@.len() > 1 && !interactive ==> (r matches Err(e) && e.is(
            (
                ErrorKind::InvalidArgument,
                ambiguous_text(matches@.len(), sort_events(matches@, "start"@)),
            ),
        )),
{
    let count = matches.len();
    if count == 0 {
        return Err(AppError::EventNotFound(owned(query)));
    }
    if count == 1 {
        let mut m = matches;
        let ev = m.remove(0);
        return Ok(MatchOutcome::Found(ev));
    }
    let sorted = sort_events_by(matches, "start");
    proof {
        reveal_strlit("start");
    }
    if interactive {
        return Ok(MatchOutcome::Choose(sorted));
    }
    let mut msg = chars_of("Query matched ");
    push_chars(&mut msg, &dec_chars(count as u64));
    push_str(
        &mut msg,
        " events. Use -i to pick interactively, or narrow with --exact title/--in-calendar/--from/--to. Matches: ",
    );
    push_chars(&mut msg, &preview_of(&sorted));
    Err(invalid_argument(msg))
}

/// Picking needs a terminal on both standard input and standard error.
pub fn pick_terminal_check(stdin_tty: bool, stderr_tty: bool) -> (r: Result<(), AppError>)
    ensures
        agrees(
            r,
            if stdin_tty && stderr_tty {
                Ok(())
            } else {
                Err(
                    (
                        ErrorKind::InvalidArgument,
                        "Interactive selection requires a TTY. Narrow the query or omit -i."@,
                    ),
                )
            },
        ),
{
    if !stdin_tty || !stderr_tty {
        return Err(
            invalid_argument_str("Interactive selection requires a TTY. Narrow the query or omit -i."),
        );
    }
    Ok(())
}

/// One numbered entry of the pick menu (numbers start at 1).
pub open spec fn menu_item(i: nat, e: EventInfo) -> Seq<char> {
    let head = "  "@ + rjust(dec(i + 1), 3) + ")  "@ + ymd_text(e.start.local().date);
    if e.all_day {
        head + "  [All Day]        "@ + e.title@ + "  ("@ + e.calendar@ + ")"@
    } else {
        head + " "@ + hm_text(e.start.local().time) + " - "@ + hm_text(e.end.local().time) + "  "@
            + e.title@ + "  ("@ + e.calendar@ + ")"@
    }
}

/// The pick menu: a heading, a blank line, then one entry per event.
pub open spec fn menu_text(events: Seq<EventInfo>) -> Seq<Seq<char>> {
    seq!["Multiple events found. Pick one:"@, Seq::<char>::empty()] + Seq::new(
        events.len(),
        |i: int| menu_item(i as nat, events[i]),
    )
}

fn menu_line(i: usize, e: &EventInfo) -> (r: String)
    requires
        e.wf(),
        i < usize::MAX,
    ensures
        r@ == menu_item(i as nat, *e),
{
    let mut out = chars_of("  ");
    push_rjust(&mut out, &dec_chars((i + 1) as u64), 3);
    push_str(&mut out, ")  ");
    push_chars(&mut out, &format_ymd(e.start.date_naive()));
    if e.all_day {
        push_str(&mut out, "  [All Day]        ");
    } else {
        push_str(&mut out, " ");
        push_chars(&mut out, &format_hm(e.start.time()));
        push_str(&mut out, " - ");
        push_chars(&mut out, &format_hm(e.end.time()));
        push_str(&mut out, "  ");
    }
    push_chars(&mut out, &chars_of(e.title.as_str()));
    push_str(&mut out, "  (");
    push_chars(&mut out, &chars_of(e.calendar.as_str()));
    push_str(&mut out, ")");
    string_from_chars(&out)
}

/// The lines of the pick menu for events in the order they are offered.
pub fn pick_menu_lines(events: &Vec<EventInfo>) -> (r: Vec<String>)
    requires
        all_wf(events@),
    ensures
        r@.map_values(|s: String| s@) == menu_text(events@),
{
    let mut lines: Vec<String> = Vec::new();
    lines.push(owned("Multiple events found. Pick one:"));
    lines.push(String::new());
    let ghost head = lines@.map_values(|s: String| s@);
    proof {
        assert(head =~= seq!["Multiple events found. Pick one:"@, Seq::<char>::empty()]);
        assert(head + Seq::new(0, |k: int| menu_item(k as nat, events@[k])) =~= head);
    }
    let mut i: usize = 0;
    while i < events.len()
        invariant
            i <= events@.len(),
            all_wf(events@),
            head == seq!["Multiple events found. Pick one:"@, Seq::<char>::empty()],
            lines@.map_values(|s: String| s@) == head + Seq::new(
                i as nat,
                |k: int| menu_item(k as nat, events@[k]),
            ),
        decreases events@.len() - i,
    {
        assert(events@[i as int].wf());
        let line = menu_line(i, &events[i]);
        let ghost before = lines@;
        lines.push(line);
        i += 1;
        proof {
            assert(lines@ =~= before.push(line));
            assert(lines@.map_values(|s: String| s@) =~= before.map_values(|s: String| s@).push(line@));
            assert(lines@.map_values(|s: String| s@) =~= head + Seq::new(
                i as nat,
                |k: int| menu_item(k as nat, events@[k]),
            ));
        }
    }
    proof {
        assert(head + Seq::new(events@.len(), |k: int| menu_item(k as nat, events@[k]))
            =~= menu_text(events@));
    }
    lines
}

/// The prompt after the menu.
pub open spec fn prompt_text(n: nat) -> Seq<char> {
    "\nEnter number (1-"@ + dec(n) + ") or q to cancel: "@
}

/// The prompt for a menu of `n` events.
pub fn pick_prompt(n: usize) -> (r: String)
    ensures
        r@ == prompt_text(n as nat),
{
    let mut out = chars_of("\nEnter number (1-");
    push_chars(&mut out, &dec_chars(n as u64));
    push_str(&mut out, ") or q to cancel: ");
    string_from_chars(&out)
}

/// What an answer to the menu of `count` events means: the index of the chosen event, or
/// why there is none.
pub open spec fn pick_spec(input: Seq<char>, count: nat) -> Result<nat, Failure> {
    let t = trim(input);
    if t == "q"@ || t == "quit"@ || t == "exit"@ {
        Err((ErrorKind::InvalidArgument, "Interactive selection cancelled."@))
    } else {
        match spec_parse_usize(t) {
            None => Err((ErrorKind::InvalidArgument, "Invalid number"@)),
            Some(c) => if c < 1 || c > count {
                Err((ErrorKind::InvalidArgument, "Number out of range: "@ + dec(c as nat)))
            } else {
                Ok((c - 1) as nat)
            },
        }
    }
}

/// Reads the answer to the menu of `count` events.
pub fn parse_pick(input: &str, count: usize) -> (r: Result<usize, AppError>)
    ensures
        match (r, pick_spec(input@, count as nat)) {
            (Ok(i), Ok(j)) => i == j,
            (Err(e), Err(f)) => e.is(f),
            _ => false,
        },
{
    let t = trim_chars(&chars_of(input));
    if eq_str(&t, "q") || eq_str(&t, "quit") || eq_str(&t, "exit") {
        return Err(invalid_argument_str("Interactive selection cancelled."));
    }
    match parse_usize(&t) {
        None => Err(invalid_argument_str("Invalid number")),
        Some(c) => {
            if c < 1 || c > count {
                let mut msg = chars_of("Number out of range: ");
                push_chars(&mut msg, &dec_chars(c as u64));
                Err(invalid_argument(msg))
            } else {
                Ok(c - 1)
            }
        },
    }
}

} // verus!
