//! iCalendar text: events written as `VEVENT` blocks, and the events read back from one;
//! and the dates of imported CSV rows.
use vstd::prelude::*;
use crate::error::{AppError, ErrorKind};
use crate::store::EventInfo;
use crate::text::{
    chars_of, has_prefix, push_chars, slice_of, split_char, split_from, starts_with,
    string_from_chars, trim, trim_chars,
};
use crate::time::{
    chrono_parse_ymd, chrono_parse_ymd_hm, parse_ymd, parse_ymd_hm, civil, date_ymd, format_year, two_digit_chars, two_digits, year_text, Date, DateTime,
    Time,
};
use chrono::{Datelike, Timelike};

verus! {

/// chrono's reading of a text with the pattern `%Y%m%dT%H%M%S`.
pub uninterp spec fn parse_compact_datetime(s: Seq<char>) -> Option<DateTime>;

/// chrono's reading of a text with the pattern `%Y%m%d`.
pub uninterp spec fn parse_compact_date(s: Seq<char>) -> Option<Date>;

/// `NaiveDateTime::parse_from_str(s, "%Y%m%dT%H%M%S")`.
#[verifier::external_body]
fn chrono_parse_compact_datetime(s: &[char]) -> (r: Option<DateTime>)
    ensures
        r == parse_compact_datetime(s@),
        r matches Some(dt) ==> dt.valid(),
{
    let text: String = s.iter().collect();
    match chrono::NaiveDateTime::parse_from_str(&text, "%Y%m%dT%H%M%S") {
        Ok(dt) => Some(DateTime {
            date: Date { days: dt.date().num_days_from_ce() },
            time: Time { secs: dt.time().num_seconds_from_midnight() },
        }),
        Err(_) => None,
    }
}

/// `NaiveDate::parse_from_str(s, "%Y%m%d")`.
#[verifier::external_body]
fn chrono_parse_compact_date(s: &[char]) -> (r: Option<Date>)
    ensures
        r == parse_compact_date(s@),
        r matches Some(d) ==> d.valid(),
{
    let text: String = s.iter().collect();
    match chrono::NaiveDate::parse_from_str(&text, "%Y%m%d") {
        Ok(d) => Some(Date { days: d.num_days_from_ce() }),
        Err(_) => None,
    }
}

/// A date and time of an iCalendar value: `YYYYMMDDTHHMMSS`, or a date alone at midnight.
pub open spec fn ics_datetime_spec(s: Seq<char>) -> Option<DateTime> {
    match parse_compact_datetime(s) {
        Some(dt) => Some(dt),
        None => match parse_compact_date(s) {
            Some(d) => Some(d.midnight()),
            None => None,
        },
    }
}

/// Reads a date and time of an iCalendar value.
pub fn parse_ics_datetime(s: &[char]) -> (r: Option<DateTime>)
    ensures
        r == ics_datetime_spec(s@),
        r matches Some(dt) ==> dt.valid(),
{
    match chrono_parse_compact_datetime(s) {
        Some(dt) => Some(dt),
        None => match chrono_parse_compact_date(s) {
            Some(d) => Some(d.at_midnight()),
            None => None,
        },
    }
}

/// The text with each `\n` escape turned into a line break, left to right
/// (`str::replace("\\n", "\n")`).
pub open spec fn unescape_newlines(s: Seq<char>) -> Seq<char>
    decreases s.len(),
{
    if s.len() < 2 {
        s
    } else if s[0] == '\\' && s[1] == 'n' {
        seq!['\n'] + unescape_newlines(s.subrange(2, s.len() as int))
    } else {
        seq![s[0]] + unescape_newlines(s.subrange(1, s.len() as int))
    }
}

fn unescape(s: &[char]) -> (r: Vec<char>)
    ensures
        r@ == unescape_newlines(s@),
{
    let mut out: Vec<char> = Vec::new();
    let mut i: usize = 0;
    proof {
        assert(s@.subrange(0, s@.len() as int) =~= s@);
        assert(out@ + s@ =~= s@);
    }
    while i < s.len()
        invariant
            i <= s@.len(),
            unescape_newlines(s@) == out@ + unescape_newlines(s@.subrange(i as int, s@.len() as int)),
        decreases s@.len() - i,
    {
        let ghost rest = s@.subrange(i as int, s@.len() as int);
        if i + 1 < s.len() && s[i] == '\\' && s[i + 1] == 'n' {
            proof {
                assert(rest.subrange(2, rest.len() as int) =~= s@.subrange(i + 2, s@.len() as int));
            }
            out.push('\n');
            i += 2;
        } else {
            proof {
                assert(rest.subrange(1, rest.len() as int) =~= s@.subrange(i + 1, s@.len() as int));
                if rest.len() < 2 {
                    assert(rest =~= seq![s@[i as int]]);
                    assert(s@.subrange(i + 1, s@.len() as int) =~= Seq::<char>::empty());
                }
            }
            out.push(s[i]);
            i += 1;
        }
    }
    proof {
        assert(s@.subrange(s@.len() as int, s@.len() as int) =~= Seq::<char>::empty());
    }
    out
}

/// One event read back from iCalendar text.
#[derive(Clone, Debug)]
pub struct IcsEvent {
    pub title: String,
    pub start: DateTime,
    pub end: DateTime,
    pub notes: Option<String>,
}

/// The text of optional notes.
pub open spec fn notes_view(o: Option<String>) -> Option<Seq<char>> {
    match o {
        Some(s) => Some(s@),
        None => None,
    }
}

/// An event read back, as its texts and readings.
pub open spec fn event_view(e: IcsEvent) -> (Seq<char>, DateTime, DateTime, Option<Seq<char>>) {
    (e.title@, e.start, e.end, notes_view(e.notes))
}

/// Reading iCalendar text line by line: whether inside a `VEVENT`, the values seen in it, the
/// events finished, and the value that could not be read as a date.
pub struct IcsScan {
    pub in_event: bool,
    pub title: Seq<char>,
    pub start: Seq<char>,
    pub end: Seq<char>,
    pub notes: Seq<char>,
    pub events: Seq<(Seq<char>, DateTime, DateTime, Option<Seq<char>>)>,
    pub failure: Option<Seq<char>>,
}

/// Nothing read yet.
pub open spec fn scan_start() -> IcsScan {
    IcsScan {
        in_event: false,
        title: Seq::empty(),
        start: Seq::empty(),
        end: Seq::empty(),
        notes: Seq::empty(),
        events: Seq::empty(),
        failure: None,
    }
}

/// The scan with new values for the fields of the current event.
pub open spec fn with_fields(
    st: IcsScan,
    in_event: bool,
    title: Seq<char>,
    start: Seq<char>,
    end: Seq<char>,
    notes: Seq<char>,
) -> IcsScan {
    IcsScan { in_event, title, start, end, notes, events: st.events, failure: st.failure }
}

/// The scan after an event is closed, with its events and failure.
pub open spec fn closed(
    st: IcsScan,
    events: Seq<(Seq<char>, DateTime, DateTime, Option<Seq<char>>)>,
    failure: Option<Seq<char>>,
) -> IcsScan {
    IcsScan {
        in_event: false,
        title: st.title,
        start: st.start,
        end: st.end,
        notes: st.notes,
        events,
        failure,
    }
}

/// The rest of a line after a prefix.
pub open spec fn value_after(line: Seq<char>, prefix: Seq<char>) -> Seq<char> {
    line.subrange(prefix.len() as int, line.len() as int)
}

/// The end of an event: with a title, start and end it becomes an event (its `\n` escapes in
/// the notes unfolded, empty notes none), unless a date cannot be read.
pub open spec fn close_event(st: IcsScan) -> IcsScan {
    if st.title.len() > 0 && st.start.len() > 0 && st.end.len() > 0 {
        match ics_datetime_spec(st.start) {
            None => closed(st, st.events, Some(st.start)),
            Some(s) => match ics_datetime_spec(st.end) {
                None => closed(st, st.events, Some(st.end)),
                Some(e) => closed(
                    st,
                    st.events.push(
                        (
                            st.title,
                            s,
                            e,
                            if st.notes.len() == 0 {
                                None
                            } else {
                                Some(unescape_newlines(st.notes))
                            },
                        ),
                    ),
                    None,
                ),
            },
        }
    } else {
        closed(st, st.events, None)
    }
}

/// One trimmed line read in a scan.
pub open spec fn ics_step(st: IcsScan, line: Seq<char>) -> IcsScan {
    if line == "BEGIN:VEVENT"@ {
        with_fields(st, true, Seq::empty(), Seq::empty(), Seq::empty(), Seq::empty())
    } else if line == "END:VEVENT"@ && st.in_event {
        close_event(st)
    } else if st.in_event {
        if starts_with(line, "SUMMARY:"@) {
            with_fields(st, true, value_after(line, "SUMMARY:"@), st.start, st.end, st.notes)
        } else if starts_with(line, "DTSTART:"@) {
            with_fields(st, true, st.title, value_after(line, "DTSTART:"@), st.end, st.notes)
        } else if starts_with(line, "DTSTART;VALUE=DATE:"@) {
            with_fields(st, true, st.title, value_after(line, "DTSTART;VALUE=DATE:"@), st.end, st.notes)
        } else if starts_with(line, "DTEND:"@) {
            with_fields(st, true, st.title, st.start, value_after(line, "DTEND:"@), st.notes)
        } else if starts_with(line, "DTEND;VALUE=DATE:"@) {
            with_fields(st, true, st.title, st.start, value_after(line, "DTEND;VALUE=DATE:"@), st.notes)
        } else if starts_with(line, "DESCRIPTION:"@) {
            with_fields(st, true, st.title, st.start, st.end, value_after(line, "DESCRIPTION:"@))
        } else {
            st
        }
    } else {
        st
    }
}

/// The scan of lines, each trimmed; reading stops at the first date that cannot be read.
pub open spec fn ics_scan(lines: Seq<Seq<char>>) -> IcsScan
    decreases lines.len(),
{
    if lines.len() == 0 {
        scan_start()
    } else {
        let st = ics_scan(lines.drop_last());
        if st.failure is Some {
            st
        } else {
            ics_step(st, trim(lines.last()))
        }
    }
}

/// What reading an iCalendar text finds.
pub open spec fn ics_read(content: Seq<char>) -> IcsScan {
    ics_scan(split_char(content, '\n'))
}

proof fn lemma_scan_stops(lines: Seq<Seq<char>>, k: int)
    requires
        0 <= k <= lines.len(),
        ics_scan(lines.take(k)).failure is Some,
    ensures
        ics_scan(lines) == ics_scan(lines.take(k)),
    decreases lines.len() - k,
{
    if k < lines.len() {
        assert(lines.take(k + 1).drop_last() =~= lines.take(k));
        lemma_scan_stops(lines, k + 1);
    } else {
        assert(lines.take(k) =~= lines);
    }
}

fn owned(v: &Vec<char>) -> (r: String)
    ensures
        r@ == v@,
{
    string_from_chars(v)
}

fn date_error(v: &Vec<char>) -> (r: AppError)
    ensures
        r.is((ErrorKind::InvalidDate, v@)),
{
    AppError::InvalidDate(string_from_chars(v))
}

/// The events of an iCalendar text, in order, and the error of the first event whose start or
/// end cannot be read (reading stops there).
pub fn parse_ics(content: &str) -> (r: (Vec<IcsEvent>, Option<AppError>))
    ensures
        r.0@.map_values(|e: IcsEvent| event_view(e)) == ics_read(content@).events,
        ics_read(content@).failure is None ==> r.1 is None,
        ics_read(content@).failure matches Some(v) ==> (r.1 matches Some(e) && e.is(
            (ErrorKind::InvalidDate, v),
        )),
{
    let chars = chars_of(content);
    let lines = split_from(&chars, '\n', 0);
    let ghost ls = split_char(content@, '\n');
    proof {
        assert(chars@.subrange(0, chars@.len() as int) =~= content@);
    }
    let mut in_event = false;
    let mut title: Vec<char> = Vec::new();
    let mut start: Vec<char> = Vec::new();
    let mut end: Vec<char> = Vec::new();
    let mut notes: Vec<char> = Vec::new();
    let mut events: Vec<IcsEvent> = Vec::new();
    let mut k: usize = 0;
    proof {
        assert(ls.take(0) =~= Seq::<Seq<char>>::empty());
        assert(events@.map_values(|e: IcsEvent| event_view(e)) =~= Seq::<
            (Seq<char>, DateTime, DateTime, Option<Seq<char>>),
        >::empty());
    }
    while k < lines.len()
        invariant
            k <= lines@.len(),
            lines@.len() == ls.len(),
            forall|j: int| 0 <= j < lines@.len() ==> #[trigger] lines@[j]@ == ls[j],
            ls == split_char(content@, '\n'),
            ics_scan(ls.take(k as int)) == (IcsScan {
                in_event,
                title: title@,
                start: start@,
                end: end@,
                notes: notes@,
                events: events@.map_values(|e: IcsEvent| event_view(e)),
                failure: None,
            }),
        decreases lines@.len() - k,
    {
        let ghost st = ics_scan(ls.take(k as int));
        proof {
            assert(ls.take(k as int + 1).drop_last() =~= ls.take(k as int));
            assert(ls.take(k as int + 1).last() == ls[k as int]);
        }
        let line = trim_chars(&lines[k]);
        proof {
            reveal_strlit("SUMMARY:");
            reveal_strlit("DTSTART:");
            reveal_strlit("DTSTART;VALUE=DATE:");
            reveal_strlit("DTEND:");
            reveal_strlit("DTEND;VALUE=DATE:");
            reveal_strlit("DESCRIPTION:");
        }
        let ghost next = ics_step(st, line@);
        if eq_text(&line, "BEGIN:VEVENT") {
            in_event = true;
            title = Vec::new();
            start = Vec::new();
            end = Vec::new();
            notes = Vec::new();
        } else if eq_text(&line, "END:VEVENT") && in_event {
            in_event = false;
            if title.len() > 0 && start.len() > 0 && end.len() > 0 {
                let s = match parse_ics_datetime(&start) {
                    Some(d) => d,
                    None => {
                        proof {
                            lemma_scan_stops(ls, k as int + 1);
                            assert(ls.take(ls.len() as int) =~= ls);
                        }
                        return (events, Some(date_error(&start)));
                    },
                };
                let e = match parse_ics_datetime(&end) {
                    Some(d) => d,
                    None => {
                        proof {
                            lemma_scan_stops(ls, k as int + 1);
                            assert(ls.take(ls.len() as int) =~= ls);
                        }
                        return (events, Some(date_error(&end)));
                    },
                };
                let n = if notes.len() == 0 {
                    None
                } else {
                    Some(owned(&unescape(&notes)))
                };
                let ghost before = events@;
                events.push(IcsEvent { title: owned(&title), start: s, end: e, notes: n });
                proof {
                    assert(events@.map_values(|x: IcsEvent| event_view(x)) =~= before.map_values(
                        |x: IcsEvent| event_view(x),
                    ).push(event_view(events@.last())));
                }
            }
        } else if in_event {
            if has_prefix(&line, &chars_of("SUMMARY:")) {
                title = slice_of(&line, 8, line.len());
            } else if has_prefix(&line, &chars_of("DTSTART:")) {
                start = slice_of(&line, 8, line.len());
            } else if has_prefix(&line, &chars_of("DTSTART;VALUE=DATE:")) {
                start = slice_of(&line, 19, line.len());
            } else if has_prefix(&line, &chars_of("DTEND:")) {
                end = slice_of(&line, 6, line.len());
            } else if has_prefix(&line, &chars_of("DTEND;VALUE=DATE:")) {
                end = slice_of(&line, 17, line.len());
            } else if has_prefix(&line, &chars_of("DESCRIPTION:")) {
                notes = slice_of(&line, 12, line.len());
            }
        }
        k += 1;
    }
    proof {
        assert(ls.take(ls.len() as int) =~= ls);
    }
    (events, None)
}

fn eq_text(s: &Vec<char>, t: &str) -> (r: bool)
    ensures
        r == (s@ == t@),
{
    crate::text::eq_str(s, t)
}

/// chrono's `%Y%m%d` of a date.
pub open spec fn compact_date_text(d: Date) -> Seq<char> {
    let c = civil(d.days as int);
    year_text(c.0) + two_digits(c.1) + two_digits(c.2)
}

/// chrono's `%Y%m%dT%H%M%S` of a reading.
pub open spec fn compact_datetime_text(dt: DateTime) -> Seq<char> {
    compact_date_text(dt.date) + seq!['T'] + two_digits(dt.time.hour()) + two_digits(
        dt.time.minute(),
    ) + two_digits(dt.time.secs as int % 60)
}

/// The text with each line break written as a `\n` escape (`str::replace('\n', "\\n")`).
pub open spec fn escape_newlines(s: Seq<char>) -> Seq<char>
    decreases s.len(),
{
    if s.len() == 0 {
        s
    } else {
        (if s[0] == '\n' {
            seq!['\\', 'n']
        } else {
            seq![s[0]]
        }) + escape_newlines(s.subrange(1, s.len() as int))
    }
}

/// The `VEVENT` block of an event: its ID, start and end (dates alone for an all-day event,
/// local readings otherwise), title, and notes when it has some.
pub open spec fn event_block(e: EventInfo) -> Seq<Seq<char>> {
    let (start, end) = if e.all_day {
        (
            "DTSTART;VALUE=DATE:"@ + compact_date_text(e.start.local().date),
            "DTEND;VALUE=DATE:"@ + compact_date_text(e.end.local().date),
        )
    } else {
        (
            "DTSTART:"@ + compact_datetime_text(e.start.local()),
            "DTEND:"@ + compact_datetime_text(e.end.local()),
        )
    };
    seq!["BEGIN:VEVENT"@, "UID:"@ + e.id@, start, end, "SUMMARY:"@ + e.title@] + match e.notes {
        Some(n) => seq!["DESCRIPTION:"@ + escape_newlines(n@)],
        None => Seq::empty(),
    } + seq!["END:VEVENT"@]
}

/// The blocks of events, one after another.
pub open spec fn event_blocks(events: Seq<EventInfo>) -> Seq<Seq<char>>
    decreases events.len(),
{
    if events.len() == 0 {
        Seq::empty()
    } else {
        event_blocks(events.drop_last()) + event_block(events.last())
    }
}

/// A calendar of events as iCalendar text, line by line.
pub open spec fn ics_text(events: Seq<EventInfo>) -> Seq<Seq<char>> {
    seq!["BEGIN:VCALENDAR"@, "VERSION:2.0"@, "PRODID:-//calx//EN"@] + event_blocks(events) + seq![
        "END:VCALENDAR"@,
    ]
}

fn compact_date(d: Date) -> (r: Vec<char>)
    requires
        d.valid(),
    ensures
        r@ == compact_date_text(d),
{
    let (y, m, day) = date_ymd(d);
    let mut out = format_year(y);
    let mut mm = two_digit_chars(m);
    out.append(&mut mm);
    let mut dd = two_digit_chars(day);
    out.append(&mut dd);
    proof {
        assert(out@ =~= compact_date_text(d));
    }
    out
}

fn compact_datetime(dt: DateTime) -> (r: Vec<char>)
    requires
        dt.valid(),
    ensures
        r@ == compact_datetime_text(dt),
{
    let mut out = compact_date(dt.date);
    out.push('T');
    let mut h = two_digit_chars(dt.time.secs / 3600);
    out.append(&mut h);
    let mut m = two_digit_chars((dt.time.secs % 3600) / 60);
    out.append(&mut m);
    let mut sec = two_digit_chars(dt.time.secs % 60);
    out.append(&mut sec);
    proof {
        assert(out@ =~= compact_datetime_text(dt));
    }
    out
}

fn escape(s: &[char]) -> (r: Vec<char>)
    ensures
        r@ == escape_newlines(s@),
{
    let mut out: Vec<char> = Vec::new();
    let mut i: usize = 0;
    proof {
        assert(s@.subrange(0, s@.len() as int) =~= s@);
        assert(out@ + s@ =~= s@);
    }
    while i < s.len()
        invariant
            i <= s@.len(),
            escape_newlines(s@) == out@ + escape_newlines(s@.subrange(i as int, s@.len() as int)),
        decreases s@.len() - i,
    {
        let ghost rest = s@.subrange(i as int, s@.len() as int);
        proof {
            assert(rest.subrange(1, rest.len() as int) =~= s@.subrange(i + 1, s@.len() as int));
        }
        if s[i] == '\n' {
            out.push('\\');
            out.push('n');
        } else {
            out.push(s[i]);
        }
        i += 1;
    }
    proof {
        assert(s@.subrange(s@.len() as int, s@.len() as int) =~= Seq::<char>::empty());
    }
    out
}

fn line_of(prefix: &str, v: &Vec<char>) -> (r: String)
    ensures
        r@ == prefix@ + v@,
{
    let mut out = chars_of(prefix);
    push_chars(&mut out, v);
    string_from_chars(&out)
}

fn push_text(lines: &mut Vec<String>, s: String)
    ensures
        final(lines)@.map_values(|x: String| x@) == old(lines)@.map_values(|x: String| x@).push(s@),
{
    let ghost before = lines@;
    lines.push(s);
    proof {
        assert(lines@.map_values(|x: String| x@) =~= before.map_values(|x: String| x@).push(s@));
    }
}

fn push_block(lines: &mut Vec<String>, e: &EventInfo)
    requires
        e.wf(),
    ensures
        final(lines)@.map_values(|x: String| x@) == old(lines)@.map_values(|x: String| x@) + event_block(*e),
{
    let ghost before = lines@.map_values(|x: String| x@);
    push_text(lines, string_from_chars(&chars_of("BEGIN:VEVENT")));
    push_text(lines, line_of("UID:", &chars_of(e.id.as_str())));
    if e.all_day {
        push_text(lines, line_of("DTSTART;VALUE=DATE:", &compact_date(e.start.date_naive())));
        push_text(lines, line_of("DTEND;VALUE=DATE:", &compact_date(e.end.date_naive())));
    } else {
        push_text(lines, line_of("DTSTART:", &compact_datetime(e.start.naive_local())));
        push_text(lines, line_of("DTEND:", &compact_datetime(e.end.naive_local())));
    }
    push_text(lines, line_of("SUMMARY:", &chars_of(e.title.as_str())));
    match &e.notes {
        Some(n) => {
            push_text(lines, line_of("DESCRIPTION:", &escape(&chars_of(n.as_str()))));
        },
        None => {},
    }
    push_text(lines, string_from_chars(&chars_of("END:VEVENT")));
    proof {
        assert(lines@.map_values(|x: String| x@) =~= before + event_block(*e));
    }
}

/// Events as iCalendar text, one string per line.
pub fn ics_lines(events: &[EventInfo]) -> (r: Vec<String>)
    requires
        forall|i: int| 0 <= i < events@.len() ==> #[trigger] events@[i].wf(),
    ensures
        r@.map_values(|x: String| x@) == ics_text(events@),
{
    let mut lines: Vec<String> = Vec::new();
    push_text(&mut lines, string_from_chars(&chars_of("BEGIN:VCALENDAR")));
    push_text(&mut lines, string_from_chars(&chars_of("VERSION:2.0")));
    push_text(&mut lines, string_from_chars(&chars_of("PRODID:-//calx//EN")));
    let ghost head = lines@.map_values(|x: String| x@);
    proof {
        assert(head =~= seq!["BEGIN:VCALENDAR"@, "VERSION:2.0"@, "PRODID:-//calx//EN"@]);
        assert(events@.take(0) =~= Seq::<EventInfo>::empty());
        assert(head + event_blocks(events@.take(0)) =~= head);
    }
    let mut i: usize = 0;
    while i < events.len()
        invariant
            i <= events@.len(),
            forall|j: int| 0 <= j < events@.len() ==> #[trigger] events@[j].wf(),
            head == seq!["BEGIN:VCALENDAR"@, "VERSION:2.0"@, "PRODID:-//calx//EN"@],
            lines@.map_values(|x: String| x@) == head + event_blocks(events@.take(i as int)),
        decreases events@.len() - i,
    {
        assert(events@[i as int].wf());
        let ghost before = lines@.map_values(|x: String| x@);
        push_block(&mut lines, &events[i]);
        i += 1;
        proof {
            assert(events@.take(i as int).drop_last() =~= events@.take(i as int - 1));
            assert(events@.take(i as int).last() == events@[i as int - 1]);
        }
    }
    push_text(&mut lines, string_from_chars(&chars_of("END:VCALENDAR")));
    proof {
        assert(events@.take(events@.len() as int) =~= events@);
        assert(lines@.map_values(|x: String| x@) =~= ics_text(events@));
    }
    lines
}

/// chrono's RFC 3339 reading of a text, as the date and time it shows in its own offset
/// (`DateTime::parse_from_rfc3339(..).naive_local()`).
pub uninterp spec fn parse_rfc3339_reading(s: Seq<char>) -> Option<DateTime>;

/// `DateTime::parse_from_rfc3339(s)` and the reading in its own offset.
#[verifier::external_body]
fn chrono_parse_rfc3339_reading(s: &[char]) -> (r: Option<DateTime>)
    ensures
        r == parse_rfc3339_reading(s@),
        r matches Some(dt) ==> dt.valid(),
{
    let text: String = s.iter().collect();
    match chrono::DateTime::parse_from_rfc3339(&text) {
        Ok(dt) => {
            let naive = dt.naive_local();
            Some(DateTime {
                date: Date { days: naive.date().num_days_from_ce() },
                time: Time { secs: naive.time().num_seconds_from_midnight() },
            })
        },
        Err(_) => None,
    }
}

/// A date of an imported CSV row: RFC 3339, then `YYYY-MM-DD HH:MM`, then a date alone at
/// midnight.
pub open spec fn csv_datetime_spec(s: Seq<char>) -> Option<DateTime> {
    match parse_rfc3339_reading(s) {
        Some(dt) => Some(dt),
        None => match parse_ymd_hm(s) {
            Some(dt) => Some(dt),
            None => match parse_ymd(s) {
                Some(d) => Some(d.midnight()),
                None => None,
            },
        },
    }
}

/// Reads a date of an imported CSV row.
pub fn parse_csv_datetime(s: &str) -> (r: Option<DateTime>)
    ensures
        r == csv_datetime_spec(s@),
        r matches Some(dt) ==> dt.valid(),
{
    let chars = chars_of(s);
    match chrono_parse_rfc3339_reading(&chars) {
        Some(dt) => Some(dt),
        None => match chrono_parse_ymd_hm(&chars) {
            Some(dt) => Some(dt),
            None => match chrono_parse_ymd(&chars) {
                Some(d) => Some(d.at_midnight()),
                None => None,
            },
        },
    }
}

/// Whether a text holds a backslash directly followed by `n`.
pub open spec fn has_newline_escape(s: Seq<char>) -> bool {
    exists|i: int| 0 <= i < s.len() - 1 && s[i] == '\\' && #[trigger] s[i + 1] == 'n'
}

proof fn lemma_escape_first(s: Seq<char>)
    requires
        s.len() > 0,
    ensures
        escape_newlines(s).len() > 0,
        escape_newlines(s)[0] == (if s[0] == '\n' {
            '\\'
        } else {
            s[0]
        }),
{
}

/// Notes written to iCalendar text read back as they were, unless they hold a backslash
/// directly followed by `n` (which reads back as a line break).
pub proof fn law_notes_escape_round_trip(s: Seq<char>)
    requires
        !has_newline_escape(s),
    ensures
        unescape_newlines(escape_newlines(s)) == s,
    decreases s.len(),
{
    if s.len() > 0 {
        let rest = s.subrange(1, s.len() as int);
        assert(!has_newline_escape(rest)) by {
            if has_newline_escape(rest) {
                let i = choose|i: int| 0 <= i < rest.len() - 1 && rest[i] == '\\' && #[trigger] rest[i + 1] == 'n';
                assert(s[i + 1] == '\\' && s[i + 2] == 'n');
            }
        }
        law_notes_escape_round_trip(rest);
        let er = escape_newlines(rest);
        if s[0] == '\n' {
            let t = seq!['\\', 'n'] + er;
            assert(t.subrange(2, t.len() as int) =~= er);
            assert(escape_newlines(s) == t);
            assert(unescape_newlines(t) == seq!['\n'] + unescape_newlines(er));
            assert(seq!['\n'] + rest =~= s);
        } else {
            let t = seq![s[0]] + er;
            assert(escape_newlines(s) == t);
            assert(t.subrange(1, t.len() as int) =~= er);
            if t.len() >= 2 && t[0] == '\\' {
                lemma_escape_first(rest);
                assert(t[1] == er[0]);
                assert(rest[0] != 'n') by {
                    if rest[0] == 'n' {
                        assert(s[0] == '\\' && s[1] == 'n');
                    }
                }
            }
            if t.len() < 2 {
                assert(er.len() == 0) ;
                assert(rest.len() == 0) by {
                    if rest.len() > 0 {
                        lemma_escape_first(rest);
                    }
                }
                assert(t =~= s);
            } else {
                assert(unescape_newlines(t) == seq![s[0]] + unescape_newlines(er));
                assert(seq![s[0]] + rest =~= s);
            }
        }
    }
}

} // verus!
