//! Event listings: display options and their validation, filtering by time of day,
//! ordering, limits, and durations.
use vstd::prelude::*;
use crate::error::{
    agrees, invalid_argument, invalid_argument_str, invalid_date_str, AppError, ErrorKind, Failure,
};
use crate::text::{
    chars_of, eq_str, find, find_char, join, join_chars, parse_u32, push_chars, push_str,
    slice_of, spec_parse_u32, split_char, split_from, trim, trim_chars,
};
use crate::state::{
    lemma_text_lt_irreflexive, lemma_text_lt_total, lemma_text_lt_transitive, name_less, text_lt,
};
use crate::store::EventInfo;
use crate::text::{dec, dec_chars, int_chars, int_text, str_eq, string_from_chars};
use crate::time::{from_hms, hms, Date, Moment, Time};
use unicode_width::UnicodeWidthStr;

verus! {

/// The fields an event listing can be restricted to.
pub open spec fn event_field_names() -> Seq<Seq<char>> {
    seq![
        "id"@,
        "title"@,
        "start"@,
        "end"@,
        "calendar"@,
        "calendar_id"@,
        "location"@,
        "url"@,
        "notes"@,
        "all_day"@,
        "status"@,
        "availability"@,
        "organizer"@,
        "created"@,
        "modified"@,
        "recurring"@,
        "recurrence"@,
        "recurrence_rule"@,
        "alerts"@,
    ]
}

pub open spec fn is_field_name(f: Seq<char>) -> bool {
    event_field_names().contains(f)
}

/// The names of the event fields, in their canonical order.
pub fn event_field_name_list() -> (r: Vec<Vec<char>>)
    ensures
        r@.map_values(|p: Vec<char>| p@) == event_field_names(),
{
    let mut r: Vec<Vec<char>> = Vec::new();
    r.push(chars_of("id"));
    r.push(chars_of("title"));
    r.push(chars_of("start"));
    r.push(chars_of("end"));
    r.push(chars_of("calendar"));
    r.push(chars_of("calendar_id"));
    r.push(chars_of("location"));
    r.push(chars_of("url"));
    r.push(chars_of("notes"));
    r.push(chars_of("all_day"));
    r.push(chars_of("status"));
    r.push(chars_of("availability"));
    r.push(chars_of("organizer"));
    r.push(chars_of("created"));
    r.push(chars_of("modified"));
    r.push(chars_of("recurring"));
    r.push(chars_of("recurrence"));
    r.push(chars_of("recurrence_rule"));
    r.push(chars_of("alerts"));
    assert(r@.map_values(|p: Vec<char>| p@) =~= event_field_names());
    r
}

fn is_field(f: &Vec<char>) -> (r: bool)
    ensures
        r == is_field_name(f@),
{
    let names = event_field_name_list();
    let ghost views = names@.map_values(|p: Vec<char>| p@);
    let mut i: usize = 0;
    while i < names.len()
        invariant
            i <= names@.len(),
            views == names@.map_values(|p: Vec<char>| p@),
            views == event_field_names(),
            forall|j: int| 0 <= j < i ==> views[j] != f@,
        decreases names@.len() - i,
    {
        if crate::text::chars_eq(&names[i], f) {
            assert(views[i as int] == f@);
            return true;
        }
        i += 1;
    }
    false
}

/// Display options shared by the event-listing commands.
pub struct DisplayOpts<'a> {
    pub verbose: bool,
    pub fields: Option<&'a str>,
    pub no_color: bool,
    pub no_header: bool,
    pub sort: Option<&'a str>,
    pub limit: Option<usize>,
    pub after: Option<&'a str>,
    pub before: Option<&'a str>,
}

impl<'a> DisplayOpts<'a> {
    /// No option set.
    pub fn new() -> (r: Self)
        ensures
            !r.verbose,
            r.fields is None,
            !r.no_color,
            !r.no_header,
            r.sort is None,
            r.limit is None,
            r.after is None,
            r.before is None,
    {
        DisplayOpts {
            verbose: false,
            fields: None,
            no_color: false,
            no_header: false,
            sort: None,
            limit: None,
            after: None,
            before: None,
        }
    }
}

/// `HH:MM` with a 24-hour hour and a minute, each any decimal number in range.
pub open spec fn hhmm_spec(s: Seq<char>) -> Option<Time> {
    match find_char(s, ':') {
        Some(i) => match (
            spec_parse_u32(s.subrange(0, i)),
            spec_parse_u32(s.subrange(i + 1, s.len() as int)),
        ) {
            (Some(h), Some(m)) => hms(h as int, m as int, 0),
            _ => None,
        },
        None => None,
    }
}

/// Parses `HH:MM`.
pub fn parse_hhmm(s: &str) -> (r: Option<Time>)
    ensures
        r == hhmm_spec(s@),
        r matches Some(t) ==> t.valid(),
{
    let v = chars_of(s);
    match find(&v, ':') {
        Some(i) => {
            let hs = slice_of(&v, 0, i);
            let ms = slice_of(&v, i + 1, v.len());
            match (parse_u32(&hs), parse_u32(&ms)) {
                (Some(h), Some(m)) => from_hms(h, m, 0),
                _ => None,
            }
        },
        None => None,
    }
}

/// The sort keys an event listing accepts.
pub open spec fn is_sort_key(k: Seq<char>) -> bool {
    k == "date"@ || k == "start"@ || k == "title"@ || k == "calendar"@ || k == "duration"@
}

/// What `validate_opts` decides for the `--after`, `--before` and `--sort` values.
pub open spec fn opts_check(
    after: Option<Seq<char>>,
    before: Option<Seq<char>>,
    sort: Option<Seq<char>>,
) -> Result<(), Failure> {
    if after matches Some(a) && hhmm_spec(a) is None {
        Err((ErrorKind::InvalidArgument, after->0 + " (--after expects HH:MM)"@))
    } else if before matches Some(b) && hhmm_spec(b) is None {
        Err((ErrorKind::InvalidArgument, before->0 + " (--before expects HH:MM)"@))
    } else if sort matches Some(k) && !is_sort_key(k) {
        Err(
            (
                ErrorKind::InvalidArgument,
                "Unknown sort key: "@ + sort->0
                    + ". Use date, start, title, calendar, or duration."@,
            ),
        )
    } else {
        Ok(())
    }
}

pub open spec fn opt_view(o: Option<&str>) -> Option<Seq<char>> {
    match o {
        Some(s) => Some(s@),
        None => None,
    }
}

pub fn is_sort(k: &str) -> (r: bool)
    ensures
        r == is_sort_key(k@),
{
    eq_str(&chars_of(k), "date") || eq_str(&chars_of(k), "start") || eq_str(&chars_of(k), "title")
        || eq_str(&chars_of(k), "calendar") || eq_str(&chars_of(k), "duration")
}

/// Validates the `--after`, `--before` and `--sort` display options.
pub fn validate_opts(opts: &DisplayOpts) -> (r: Result<(), AppError>)
    ensures
        agrees(r, opts_check(opt_view(opts.after), opt_view(opts.before), opt_view(opts.sort))),
{
    if let Some(after) = opts.after {
        if parse_hhmm(after).is_none() {
            let mut m = chars_of(after);
            push_str(&mut m, " (--after expects HH:MM)");
            return Err(invalid_argument(m));
        }
    }
    if let Some(before) = opts.before {
        if parse_hhmm(before).is_none() {
            let mut m = chars_of(before);
            push_str(&mut m, " (--before expects HH:MM)");
            return Err(invalid_argument(m));
        }
    }
    if let Some(sort_key) = opts.sort {
        if !is_sort(sort_key) {
            let mut m = chars_of("Unknown sort key: ");
            push_str(&mut m, sort_key);
            push_str(&mut m, ". Use date, start, title, calendar, or duration.");
            return Err(invalid_argument(m));
        }
    }
    Ok(())
}

/// A date range is valid when it does not end before it starts.
pub fn validate_date_range(from: Date, to: Date) -> (r: Result<(), AppError>)
    ensures
        agrees(
            r,
            if to.days < from.days {
                Err((ErrorKind::InvalidDate, "to date must be on or after from date"@))
            } else {
                Ok(())
            },
        ),
{
    if to.days < from.days {
        return Err(invalid_date_str("to date must be on or after from date"));
    }
    Ok(())
}

/// The comma-separated field names of a `--fields` value, trimmed.
pub open spec fn field_list(fields: Seq<char>) -> Seq<Seq<char>> {
    split_char(fields, ',').map_values(|f: Seq<char>| trim(f))
}

/// The requested fields that are not event fields, in the order given.
pub open spec fn unknown_fields(list: Seq<Seq<char>>) -> Seq<Seq<char>> {
    list.filter(|f: Seq<char>| !is_field_name(f))
}

/// What `validate_field_list` decides for a `--fields` value.
pub open spec fn field_list_check(fields: Seq<char>) -> Result<(), Failure> {
    let list = field_list(fields);
    if list.len() == 0 || exists|i: int| 0 <= i < list.len() && #[trigger] list[i].len() == 0 {
        Err((ErrorKind::InvalidArgument, "--fields must be a comma-separated list of field names"@))
    } else if unknown_fields(list).len() > 0 {
        Err(
            (
                ErrorKind::InvalidArgument,
                "Unknown field(s): "@ + join(unknown_fields(list), ", "@) + ". Available fields: "@
                    + join(event_field_names(), ", "@),
            ),
        )
    } else {
        Ok(())
    }
}

/// The requested fields, in the order given, that an event's serialized form has.
pub open spec fn chosen_fields(fields: Seq<char>, available: Seq<Seq<char>>) -> Seq<Seq<char>> {
    field_list(fields).filter(|f: Seq<char>| available.contains(f))
}

fn name_listed(t: &Vec<char>, available: &[String]) -> (r: bool)
    ensures
        r == available@.map_values(|s: String| s@).contains(t@),
{
    let ghost names = available@.map_values(|s: String| s@);
    let mut i: usize = 0;
    while i < available.len()
        invariant
            i <= available@.len(),
            names == available@.map_values(|s: String| s@),
            forall|k: int| 0 <= k < i ==> names[k] != t@,
        decreases available@.len() - i,
    {
        let c = chars_of(available[i].as_str());
        if crate::text::chars_eq(&c, t) {
            assert(names[i as int] == t@);
            return true;
        }
        i += 1;
    }
    false
}

/// The fields of a `--fields` value that are among the `available` names of an event's
/// serialized form, in the order requested.
pub fn selected_fields(fields: &str, available: &[String]) -> (r: Vec<String>)
    ensures
        r@.map_values(|s: String| s@) == chosen_fields(fields@, available@.map_values(|s: String| s@)),
{
    let ghost names = available@.map_values(|s: String| s@);
    let ghost pred = |f: Seq<char>| names.contains(f);
    let raw = chars_of(fields);
    let pieces = split_from(&raw, ',', 0);
    proof {
        assert(raw@.subrange(0, raw@.len() as int) =~= raw@);
    }
    let ghost list = field_list(fields@);
    let mut out: Vec<String> = Vec::new();
    let mut i: usize = 0;
    while i < pieces.len()
        invariant
            i <= pieces@.len(),
            pieces@.len() == list.len(),
            forall|k: int| 0 <= k < pieces@.len() ==> trim(#[trigger] pieces@[k]@) == list[k],
            names == available@.map_values(|s: String| s@),
            pred == (|f: Seq<char>| names.contains(f)),
            out@.map_values(|s: String| s@) == list.take(i as int).filter(pred),
        decreases pieces@.len() - i,
    {
        let t = trim_chars(&pieces[i]);
        proof {
            assert(list.take(i as int + 1) =~= list.take(i as int).push(list[i as int]));
            list.take(i as int).lemma_filter_push(list[i as int], pred);
        }
        if name_listed(&t, available) {
            let ghost before = out@.map_values(|s: String| s@);
            out.push(string_from_chars(&t));
            proof {
                assert(out@.map_values(|s: String| s@) =~= before.push(t@));
            }
        }
        i += 1;
    }
    proof {
        assert(list.take(list.len() as int) =~= list);
    }
    out
}

/// Validates a `--fields` value: a comma-separated list of known field names.
pub fn validate_field_list(fields: &str) -> (r: Result<(), AppError>)
    ensures
        agrees(r, field_list_check(fields@)),
{
    let raw = chars_of(fields);
    let pieces = split_from(&raw, ',', 0);
    proof {
        assert(raw@.subrange(0, raw@.len() as int) =~= raw@);
    }
    let ghost list = field_list(fields@);
    let mut trimmed: Vec<Vec<char>> = Vec::new();
    let mut any_empty = false;
    let mut i: usize = 0;
    while i < pieces.len()
        invariant
            i <= pieces@.len(),
            pieces@.len() == list.len(),
            forall|k: int| 0 <= k < pieces@.len() ==> trim(#[trigger] pieces@[k]@) == list[k],
            trimmed@.len() == i,
            forall|k: int| 0 <= k < i ==> #[trigger] trimmed@[k]@ == list[k],
            any_empty == exists|k: int| 0 <= k < i && #[trigger] list[k].len() == 0,
        decreases pieces@.len() - i,
    {
        let t = trim_chars(&pieces[i]);
        if t.len() == 0 {
            any_empty = true;
        }
        trimmed.push(t);
        i += 1;
    }
    if pieces.len() == 0 || any_empty {
        return Err(invalid_argument_str("--fields must be a comma-separated list of field names"));
    }
    let mut invalid: Vec<Vec<char>> = Vec::new();
    let mut j: usize = 0;
    while j < trimmed.len()
        invariant
            j <= trimmed@.len(),
            trimmed@.len() == list.len(),
            forall|k: int| 0 <= k < trimmed@.len() ==> #[trigger] trimmed@[k]@ == list[k],
            invalid@.map_values(|p: Vec<char>| p@) == unknown_fields(list.subrange(0, j as int)),
        decreases trimmed@.len() - j,
    {
        proof {
            assert(list.subrange(0, j as int + 1) =~= list.subrange(0, j as int).push(list[j as int]));
            list.subrange(0, j as int).lemma_filter_push(list[j as int], |f: Seq<char>| !is_field_name(f));
        }
        if !is_field(&trimmed[j]) {
            invalid.push(trimmed[j].clone());
            proof {
                assert(invalid@.map_values(|p: Vec<char>| p@) =~= unknown_fields(
                    list.subrange(0, j as int),
                ).push(list[j as int]));
            }
        } else {
            assert(invalid@.map_values(|p: Vec<char>| p@) =~= unknown_fields(
                list.subrange(0, j as int + 1),
            ));
        }
        j += 1;
    }
    proof {
        assert(list.subrange(0, list.len() as int) =~= list);
    }
    if invalid.len() > 0 {
        let mut m = chars_of("Unknown field(s): ");
        let listed = join_chars(&invalid, ", ");
        push_chars(&mut m, &listed);
        push_str(&mut m, ". Available fields: ");
        let names = event_field_name_list();
        let all = join_chars(&names, ", ");
        push_chars(&mut m, &all);
        return Err(invalid_argument(m));
    }
    Ok(())
}

// ---------------------------------------------------------------------------------------------
// Listing events
// ---------------------------------------------------------------------------------------------

/// The events that are shown: all but canceled ones, in order.
pub open spec fn is_visible(e: EventInfo) -> bool {
    e.status@ != "canceled"@
}

/// Drops canceled events.
pub fn visible_events(events: Vec<EventInfo>) -> (r: Vec<EventInfo>)
    ensures
        r@ == events@.filter(|e: EventInfo| is_visible(e)),
{
    let ghost orig = events@;
    let mut out: Vec<EventInfo> = Vec::new();
    for e in it: events.into_iter()
        invariant
            it.seq() == orig,
            out@ == orig.take(it.index() as int).filter(|e: EventInfo| is_visible(e)),
    {
        proof {
            assert(orig.take(it.index() as int + 1) =~= orig.take(it.index() as int).push(e));
            orig.take(it.index() as int).lemma_filter_push(e, |e: EventInfo| is_visible(e));
        }
        if !str_eq(e.status.as_str(), "canceled") {
            out.push(e);
        }
    }
    proof {
        assert(orig.take(orig.len() as int) =~= orig);
    }
    out
}

/// How an event is shown relative to now.
#[derive(Clone, Copy, Debug, PartialEq, Eq, Structural)]
pub enum EventDisplayState {
    Past,
    Now,
    AllDay,
    Upcoming,
}

/// All-day events are marked as such; other events are past, happening now, or upcoming.
pub open spec fn display_state(e: EventInfo, now: Moment) -> EventDisplayState {
    if e.all_day {
        EventDisplayState::AllDay
    } else if e.end.timestamp < now.timestamp {
        EventDisplayState::Past
    } else if e.start.timestamp <= now.timestamp && e.end.timestamp > now.timestamp {
        EventDisplayState::Now
    } else {
        EventDisplayState::Upcoming
    }
}

/// How an event is shown relative to `now`.
pub fn event_display_state(event: &EventInfo, now: Moment) -> (r: EventDisplayState)
    ensures
        r == display_state(*event, now),
{
    if event.all_day {
        EventDisplayState::AllDay
    } else if event.end.timestamp < now.timestamp {
        EventDisplayState::Past
    } else if event.start.timestamp <= now.timestamp && event.end.timestamp > now.timestamp {
        EventDisplayState::Now
    } else {
        EventDisplayState::Upcoming
    }
}

/// Whether the segment of a day from `segment_start` to `segment_end` (seconds) overlaps the
/// filter from `filter_start` to `filter_end`.
pub open spec fn overlaps(segment_start: int, segment_end: int, filter_start: int, filter_end: int) -> bool {
    segment_start < filter_end && segment_end > filter_start
}

/// Whether two stretches of a day overlap.
pub fn time_segment_overlaps(segment_start: u32, segment_end: u32, filter_start: u32, filter_end: u32) -> (r:
    bool)
    ensures
        r == overlaps(segment_start as int, segment_end as int, filter_start as int, filter_end as int),
{
    segment_start < filter_end && segment_end > filter_start
}

/// Seconds since midnight of a time of day.
pub fn seconds_since_midnight(time: Time) -> (r: u32)
    ensures
        r == time.secs,
{
    time.secs
}

/// Whether an event that spans midnight (or lasts all day) is inside the hours filter: all-day
/// events always are; others when their first evening, any whole day in between, or their
/// last morning overlaps the filter.
pub open spec fn multi_day_matches(e: EventInfo, after: Option<Time>, before: Option<Time>) -> bool {
    if e.all_day {
        true
    } else {
        let fs: int = match after {
            Some(t) => t.secs as int,
            None => 0,
        };
        let fe: int = match before {
            Some(t) => t.secs as int,
            None => 86400,
        };
        if fs >= fe {
            false
        } else if overlaps(e.start.local().time.secs as int, 86400, fs, fe) {
            true
        } else if e.end.local().date.days - e.start.local().date.days > 1 {
            true
        } else {
            overlaps(0, e.end.local().time.secs as int, fs, fe)
        }
    }
}

/// Whether an event is inside the `--after`/`--before` hours: an event within one day must
/// end after `after` and start before `before`.
pub open spec fn time_filters_match(e: EventInfo, after: Option<Time>, before: Option<Time>) -> bool {
    if e.all_day || e.end.local().date.days > e.start.local().date.days {
        multi_day_matches(e, after, before)
    } else {
        (match after {
            Some(t) => e.end.local().time.secs > t.secs,
            None => true,
        }) && (match before {
            Some(t) => e.start.local().time.secs < t.secs,
            None => true,
        })
    }
}

fn multi_day_event_matches_time_filters(event: &EventInfo, after: Option<Time>, before: Option<Time>) -> (r:
    bool)
    requires
        event.wf(),
    ensures
        r == multi_day_matches(*event, after, before),
{
    if event.all_day {
        return true;
    }
    let filter_start: u32 = match after {
        Some(t) => seconds_since_midnight(t),
        None => 0,
    };
    let filter_end: u32 = match before {
        Some(t) => seconds_since_midnight(t),
        None => 86400,
    };
    if filter_start >= filter_end {
        return false;
    }
    if time_segment_overlaps(seconds_since_midnight(event.start.time()), 86400, filter_start, filter_end) {
        return true;
    }
    let day_span: i64 = event.end.date_naive().days as i64 - event.start.date_naive().days as i64;
    if day_span > 1 {
        return true;
    }
    time_segment_overlaps(0, seconds_since_midnight(event.end.time()), filter_start, filter_end)
}

/// Whether an event is inside the hours filter.
pub fn event_matches_time_filters(event: &EventInfo, after: Option<Time>, before: Option<Time>) -> (r:
    bool)
    requires
        event.wf(),
    ensures
        r == time_filters_match(*event, after, before),
{
    if event.all_day || event.end.date_naive().days > event.start.date_naive().days {
        return multi_day_event_matches_time_filters(event, after, before);
    }
    (match after {
        Some(t) => event.end.time().secs > t.secs,
        None => true,
    }) && (match before {
        Some(t) => event.start.time().secs < t.secs,
        None => true,
    })
}

/// Whether `a` goes strictly before `b` under a sort key; unknown keys order nothing.
pub open spec fn event_before(a: EventInfo, b: EventInfo, key: Seq<char>) -> bool {
    if key == "date"@ || key == "start"@ {
        a.start.timestamp < b.start.timestamp
    } else if key == "title"@ {
        text_lt(a.title@, b.title@)
    } else if key == "calendar"@ {
        text_lt(a.calendar@, b.calendar@)
    } else if key == "duration"@ {
        a.end.timestamp - a.start.timestamp < b.end.timestamp - b.start.timestamp
    } else {
        false
    }
}

/// Inserts an event after every event it does not go before.
pub open spec fn insert_event(s: Seq<EventInfo>, x: EventInfo, key: Seq<char>) -> Seq<EventInfo>
    decreases s.len(),
{
    if s.len() == 0 {
        seq![x]
    } else if !event_before(x, s.last(), key) {
        s.push(x)
    } else {
        insert_event(s.drop_last(), x, key).push(s.last())
    }
}

/// Events ordered by a key; events the key does not tell apart keep their order.
pub open spec fn sort_events(s: Seq<EventInfo>, key: Seq<char>) -> Seq<EventInfo>
    decreases s.len(),
{
    if s.len() == 0 {
        s
    } else {
        insert_event(sort_events(s.drop_last(), key), s.last(), key)
    }
}

/// Events in an order a key allows: none goes before one listed ahead of it.
pub open spec fn in_key_order(s: Seq<EventInfo>, key: Seq<char>) -> bool {
    forall|i: int, j: int| 0 <= i < j < s.len() ==> !event_before(#[trigger] s[j], #[trigger] s[i], key)
}

proof fn lemma_sort_keys_distinct()
    ensures
        "date"@ != "start"@,
        "date"@ != "title"@,
        "date"@ != "calendar"@,
        "date"@ != "duration"@,
        "start"@ != "title"@,
        "start"@ != "calendar"@,
        "start"@ != "duration"@,
        "title"@ != "calendar"@,
        "title"@ != "duration"@,
        "calendar"@ != "duration"@,
{
    reveal_strlit("date");
    reveal_strlit("start");
    reveal_strlit("title");
    reveal_strlit("calendar");
    reveal_strlit("duration");
    assert("date"@.len() == 4 && "start"@.len() == 5 && "title"@.len() == 5);
    assert("calendar"@.len() == 8 && "duration"@.len() == 8);
    assert("start"@[0] != "title"@[0]);
    assert("calendar"@[0] != "duration"@[0]);
}

proof fn lemma_before_order(a: EventInfo, b: EventInfo, c: EventInfo, key: Seq<char>)
    ensures
        !event_before(a, a, key),
        event_before(a, b, key) && event_before(b, c, key) ==> event_before(a, c, key),
        event_before(a, c, key) ==> event_before(a, b, key) || event_before(b, c, key),
{
    lemma_sort_keys_distinct();
    if key == "date"@ || key == "start"@ || key == "duration"@ {
    } else if key == "title"@ {
        lemma_text_lt_irreflexive(a.title@);
        if text_lt(a.title@, b.title@) && text_lt(b.title@, c.title@) {
            lemma_text_lt_transitive(a.title@, b.title@, c.title@);
        }
        if text_lt(a.title@, c.title@) && !text_lt(a.title@, b.title@) && !text_lt(b.title@, c.title@) {
            if a.title@ != b.title@ {
                lemma_text_lt_total(a.title@, b.title@);
                lemma_text_lt_transitive(b.title@, a.title@, c.title@);
            }
            if b.title@ != c.title@ {
                lemma_text_lt_total(b.title@, c.title@);
            }
            lemma_text_lt_irreflexive(a.title@);
            if b.title@ != c.title@ && a.title@ == b.title@ {
                lemma_text_lt_transitive(a.title@, c.title@, b.title@);
            }
        }
    } else if key == "calendar"@ {
        lemma_text_lt_irreflexive(a.calendar@);
        if text_lt(a.calendar@, b.calendar@) && text_lt(b.calendar@, c.calendar@) {
            lemma_text_lt_transitive(a.calendar@, b.calendar@, c.calendar@);
        }
        if text_lt(a.calendar@, c.calendar@) && !text_lt(a.calendar@, b.calendar@) && !text_lt(
            b.calendar@,
            c.calendar@,
        ) {
            if a.calendar@ != b.calendar@ {
                lemma_text_lt_total(a.calendar@, b.calendar@);
                lemma_text_lt_transitive(b.calendar@, a.calendar@, c.calendar@);
            }
            if b.calendar@ != c.calendar@ {
                lemma_text_lt_total(b.calendar@, c.calendar@);
            }
            lemma_text_lt_irreflexive(a.calendar@);
            if b.calendar@ != c.calendar@ && a.calendar@ == b.calendar@ {
                lemma_text_lt_transitive(a.calendar@, c.calendar@, b.calendar@);
            }
        }
    }
}

proof fn lemma_insert_event(s: Seq<EventInfo>, x: EventInfo, key: Seq<char>)
    ensures
        insert_event(s, x, key).to_multiset() =~= s.to_multiset().insert(x),
        in_key_order(s, key) ==> in_key_order(insert_event(s, x, key), key),
    decreases s.len(),
{
    broadcast use vstd::seq_lib::group_to_multiset_ensures;
    if s.len() == 0 {
        assert(seq![x] =~= Seq::<EventInfo>::empty().push(x));
    } else if !event_before(x, s.last(), key) {
        if in_key_order(s, key) {
            let r = s.push(x);
            assert forall|i: int, j: int| 0 <= i < j < r.len() implies !event_before(#[trigger] r[j], #[trigger] r[i], key) by {
                if j == s.len() {
                    lemma_before_order(x, s.last(), s[i], key);
                    if i < s.len() - 1 {
                        assert(!event_before(s[s.len() - 1], s[i], key));
                    }
                } else {
                    assert(r[i] == s[i] && r[j] == s[j]);
                }
            }
        }
    } else {
        let rest = s.drop_last();
        lemma_insert_event(rest, x, key);
        assert(s =~= rest.push(s.last()));
        let r0 = insert_event(rest, x, key);
        if in_key_order(s, key) {
            assert(in_key_order(rest, key)) by {
                assert forall|i: int, j: int| 0 <= i < j < rest.len() implies !event_before(
                    #[trigger] rest[j],
                    #[trigger] rest[i],
                    key,
                ) by {
                    assert(rest[i] == s[i] && rest[j] == s[j]);
                }
            }
            let r = r0.push(s.last());
            assert forall|i: int, j: int| 0 <= i < j < r.len() implies !event_before(#[trigger] r[j], #[trigger] r[i], key) by {
                if j == r0.len() {
                    let y = r0[i];
                    assert(r0.to_multiset().count(y) > 0);
                    if y == x {
                        lemma_before_order(x, s.last(), x, key);
                    } else {
                        assert(rest.to_multiset().count(y) > 0);
                        assert(rest.contains(y));
                        let k = choose|k: int| 0 <= k < rest.len() && rest[k] == y;
                        assert(s[k] == y);
                        assert(!event_before(s[s.len() - 1], s[k], key));
                    }
                } else {
                    assert(r[i] == r0[i] && r[j] == r0[j]);
                }
            }
        }
    }
}

/// Sorting events by a key keeps every event, each as often, and puts them in an order the
/// key allows: no event goes before one listed ahead of it.
pub proof fn law_sorted_events(s: Seq<EventInfo>, key: Seq<char>)
    ensures
        sort_events(s, key).to_multiset() =~= s.to_multiset(),
        in_key_order(sort_events(s, key), key),
    decreases s.len(),
{
    broadcast use vstd::seq_lib::group_to_multiset_ensures;
    if s.len() > 0 {
        law_sorted_events(s.drop_last(), key);
        lemma_insert_event(sort_events(s.drop_last(), key), s.last(), key);
        assert(s =~= s.drop_last().push(s.last()));
    }
}

/// Sorting by date orders events by their start: every event starts no later than the ones
/// after it, and the events are the same, each as often.
pub proof fn law_date_sort_orders_by_start(s: Seq<EventInfo>)
    ensures
        sort_events(s, "date"@).to_multiset() =~= s.to_multiset(),
        forall|i: int, j: int|
            0 <= i < j < sort_events(s, "date"@).len() ==> #[trigger] sort_events(s, "date"@)[i].start.timestamp
                <= #[trigger] sort_events(s, "date"@)[j].start.timestamp,
{
    law_sorted_events(s, "date"@);
    let r = sort_events(s, "date"@);
    assert forall|i: int, j: int| 0 <= i < j < r.len() implies #[trigger] r[i].start.timestamp
        <= #[trigger] r[j].start.timestamp by {
        assert(!event_before(r[j], r[i], "date"@));
    }
}

/// Sorting by title orders events by title (alphabetically, character by character), by
/// calendar orders them by calendar name, and by duration from shortest to longest; events the
/// key does not tell apart keep their order, and an unknown key keeps the listing as it is.
pub proof fn law_sort_keys_order_events(s: Seq<EventInfo>, key: Seq<char>)
    ensures
        sort_events(s, key).to_multiset() =~= s.to_multiset(),
        key == "title"@ ==> forall|i: int, j: int|
            0 <= i < j < sort_events(s, key).len() ==> !text_lt(
                #[trigger] sort_events(s, key)[j].title@,
                #[trigger] sort_events(s, key)[i].title@,
            ),
        key == "calendar"@ ==> forall|i: int, j: int|
            0 <= i < j < sort_events(s, key).len() ==> !text_lt(
                #[trigger] sort_events(s, key)[j].calendar@,
                #[trigger] sort_events(s, key)[i].calendar@,
            ),
        key == "duration"@ ==> forall|i: int, j: int|
            0 <= i < j < sort_events(s, key).len() ==> #[trigger] sort_events(s, key)[i].end.timestamp
                - sort_events(s, key)[i].start.timestamp <= #[trigger] sort_events(s, key)[j].end.timestamp
                - sort_events(s, key)[j].start.timestamp,
        key != "date"@ && key != "start"@ && key != "title"@ && key != "calendar"@ && key
            != "duration"@ ==> sort_events(s, key) == s,
    decreases s.len(),
{
    law_sorted_events(s, key);
    lemma_sort_keys_distinct();
    let r = sort_events(s, key);
    if key == "title"@ {
        assert forall|i: int, j: int| 0 <= i < j < r.len() implies !text_lt(#[trigger] r[j].title@, #[trigger] r[i].title@) by {
            assert(!event_before(r[j], r[i], key));
        }
    }
    if key == "calendar"@ {
        assert forall|i: int, j: int| 0 <= i < j < r.len() implies !text_lt(#[trigger] r[j].calendar@, #[trigger] r[i].calendar@) by {
            assert(!event_before(r[j], r[i], key));
        }
    }
    if key == "duration"@ {
        assert forall|i: int, j: int| 0 <= i < j < r.len() implies #[trigger] r[i].end.timestamp - r[i].start.timestamp
            <= #[trigger] r[j].end.timestamp - r[j].start.timestamp by {
            assert(!event_before(r[j], r[i], key));
        }
    }
    if key != "date"@ && key != "start"@ && key != "title"@ && key != "calendar"@ && key != "duration"@ {
        if s.len() > 0 {
            law_sort_keys_order_events(s.drop_last(), key);
            assert(s.drop_last().push(s.last()) =~= s);
        }
    }
}

/// Sorting by start orders events by their start, as sorting by date does.
pub proof fn law_start_sort_orders_by_start(s: Seq<EventInfo>)
    ensures
        sort_events(s, "start"@).to_multiset() =~= s.to_multiset(),
        forall|i: int, j: int|
            0 <= i < j < sort_events(s, "start"@).len() ==> #[trigger] sort_events(s, "start"@)[i].start.timestamp
                <= #[trigger] sort_events(s, "start"@)[j].start.timestamp,
{
    law_sorted_events(s, "start"@);
    let r = sort_events(s, "start"@);
    assert forall|i: int, j: int| 0 <= i < j < r.len() implies #[trigger] r[i].start.timestamp
        <= #[trigger] r[j].start.timestamp by {
        assert(!event_before(r[j], r[i], "start"@));
    }
}

fn goes_before(a: &EventInfo, b: &EventInfo, key: &str) -> (r: bool)
    requires
        a.wf(),
        b.wf(),
    ensures
        r == event_before(*a, *b, key@),
{
    if str_eq(key, "date") || str_eq(key, "start") {
        a.start.timestamp < b.start.timestamp
    } else if str_eq(key, "title") {
        name_less(a.title.as_str(), b.title.as_str())
    } else if str_eq(key, "calendar") {
        name_less(a.calendar.as_str(), b.calendar.as_str())
    } else if str_eq(key, "duration") {
        a.end.timestamp - a.start.timestamp < b.end.timestamp - b.start.timestamp
    } else {
        false
    }
}

/// Every event of the list lies in the representable range.
pub open spec fn all_wf(s: Seq<EventInfo>) -> bool {
    forall|i: int| 0 <= i < s.len() ==> #[trigger] s[i].wf()
}

fn insert_sorted_event(v: Vec<EventInfo>, x: EventInfo, key: &str) -> (r: Vec<EventInfo>)
    requires
        all_wf(v@),
        x.wf(),
    ensures
        r@ == insert_event(v@, x, key@),
        all_wf(r@),
    decreases v@.len(),
{
    let mut v = v;
    let ghost before = v@;
    match v.pop() {
        None => {
            let mut r: Vec<EventInfo> = Vec::new();
            r.push(x);
            r
        },
        Some(last) => {
            assert(before.last().wf());
            if !goes_before(&x, &last, key) {
                v.push(last);
                v.push(x);
                v
            } else {
                let mut r = insert_sorted_event(v, x, key);
                r.push(last);
                r
            }
        },
    }
}

/// Sorts events by a key, keeping the order of events the key does not tell apart.
pub fn sort_events_by(events: Vec<EventInfo>, key: &str) -> (r: Vec<EventInfo>)
    requires
        all_wf(events@),
    ensures
        r@ == sort_events(events@, key@),
        all_wf(r@),
{
    let ghost orig = events@;
    let mut out: Vec<EventInfo> = Vec::new();
    for e in it: events.into_iter()
        invariant
            it.seq() == orig,
            all_wf(orig),
            all_wf(out@),
            out@ == sort_events(orig.take(it.index() as int), key@),
    {
        proof {
            assert(orig.take(it.index() as int + 1).drop_last() =~= orig.take(it.index() as int));
            assert(orig[it.index() as int].wf());
        }
        out = insert_sorted_event(out, e, key);
    }
    proof {
        assert(orig.take(orig.len() as int) =~= orig);
    }
    out
}

/// The events a listing shows, in the order it shows them: canceled events dropped, the hours
/// filter applied when one is given, sorted by the sort key, and cut to the limit.
pub open spec fn arranged(events: Seq<EventInfo>, after: Option<Time>, before: Option<Time>, sort: Option<Seq<char>>, limit: Option<usize>) -> Seq<EventInfo> {
    let visible = events.filter(|e: EventInfo| is_visible(e));
    let filtered = if after is Some || before is Some {
        visible.filter(|e: EventInfo| time_filters_match(e, after, before))
    } else {
        visible
    };
    let sorted = match sort {
        Some(k) => sort_events(filtered, k),
        None => filtered,
    };
    match limit {
        Some(n) => if n < sorted.len() {
            sorted.take(n as int)
        } else {
            sorted
        },
        None => sorted,
    }
}

pub proof fn lemma_filter_keeps<T>(s: Seq<T>, p: spec_fn(T) -> bool, q: spec_fn(T) -> bool)
    requires
        forall|i: int| 0 <= i < s.len() ==> q(#[trigger] s[i]),
    ensures
        forall|i: int| 0 <= i < s.filter(p).len() ==> q(#[trigger] s.filter(p)[i]),
    decreases s.len(),
{
    reveal(Seq::filter);
    if s.len() > 0 {
        let rest = s.drop_last();
        assert forall|i: int| 0 <= i < rest.len() implies q(#[trigger] rest[i]) by {
            assert(rest[i] == s[i]);
        }
        lemma_filter_keeps(rest, p, q);
        let sub = rest.filter(p);
        let out = s.filter(p);
        assert(q(s[s.len() - 1]));
        assert forall|i: int| 0 <= i < out.len() implies q(#[trigger] out[i]) by {
            if p(s.last()) {
                assert(out == sub.push(s.last()));
                if i < sub.len() {
                    assert(out[i] == sub[i]);
                }
            } else {
                assert(out == sub);
            }
        }
    }
}

/// What a listing shows of the events, before they are written out.
pub fn arrange_events(events: Vec<EventInfo>, opts: &DisplayOpts) -> (r: Vec<EventInfo>)
    requires
        all_wf(events@),
    ensures
        r@ == arranged(
            events@,
            match opts.after {
                Some(a) => hhmm_spec(a@),
                None => None,
            },
            match opts.before {
                Some(b) => hhmm_spec(b@),
                None => None,
            },
            opt_view(opts.sort),
            opts.limit,
        ),
{
    let ghost orig = events@;
    let visible = visible_events(events);
    proof {
        lemma_filter_keeps(orig, |e: EventInfo| is_visible(e), |e: EventInfo| e.wf());
    }
    let after_time = match opts.after {
        Some(a) => parse_hhmm(a),
        None => None,
    };
    let before_time = match opts.before {
        Some(b) => parse_hhmm(b),
        None => None,
    };
    let ghost vis = visible@;
    let mut filtered: Vec<EventInfo>;
    if after_time.is_some() || before_time.is_some() {
        filtered = Vec::new();
        let ghost pred = |e: EventInfo| time_filters_match(e, after_time, before_time);
        for e in it: visible.into_iter()
            invariant
                it.seq() == vis,
                all_wf(vis),
                pred == (|e: EventInfo| time_filters_match(e, after_time, before_time)),
                filtered@ == vis.take(it.index() as int).filter(pred),
        {
            proof {
                assert(vis.take(it.index() as int + 1) =~= vis.take(it.index() as int).push(e));
                vis.take(it.index() as int).lemma_filter_push(e, pred);
                assert(vis[it.index() as int].wf());
            }
            if event_matches_time_filters(&e, after_time, before_time) {
                filtered.push(e);
            }
        }
        proof {
            assert(vis.take(vis.len() as int) =~= vis);
            lemma_filter_keeps(vis, pred, |e: EventInfo| e.wf());
        }
    } else {
        filtered = visible;
    }
    let mut sorted = match opts.sort {
        Some(k) => sort_events_by(filtered, k),
        None => filtered,
    };
    if let Some(n) = opts.limit {
        sorted.truncate(n);
    }
    sorted
}

/// A length in whole minutes as `45m`, `2h` or `1h 30m` (negative lengths in minutes).
pub open spec fn duration_text(mins: int) -> Seq<char> {
    if mins < 60 {
        int_text(mins) + "m"@
    } else if mins % 60 == 0 {
        dec((mins / 60) as nat) + "h"@
    } else {
        dec((mins / 60) as nat) + "h "@ + dec((mins % 60) as nat) + "m"@
    }
}

/// Whole minutes in a number of seconds, rounded toward zero.
pub open spec fn whole_minutes(secs: int) -> int {
    if secs >= 0 {
        secs / 60
    } else {
        -((-secs) / 60)
    }
}

/// A number of minutes as `45m`, `2h` or `1h 30m`.
pub fn minutes_string(mins: i64) -> (r: String)
    ensures
        r@ == duration_text(mins as int),
{
    let mut out: Vec<char>;
    if mins < 60 {
        out = int_chars(mins);
        push_str(&mut out, "m");
    } else if mins % 60 == 0 {
        out = dec_chars((mins / 60) as u64);
        push_str(&mut out, "h");
    } else {
        out = dec_chars((mins / 60) as u64);
        push_str(&mut out, "h ");
        let rest = dec_chars((mins % 60) as u64);
        push_chars(&mut out, &rest);
        push_str(&mut out, "m");
    }
    string_from_chars(&out)
}

/// How the length of an event is shown, given in seconds.
pub fn format_duration(secs: i64) -> (r: String)
    ensures
        r@ == duration_text(whole_minutes(secs as int)),
{
    let mins: i64 = if secs >= 0 {
        secs / 60
    } else if secs == i64::MIN {
        -153722867280912930
    } else {
        -((-secs) / 60)
    };
    minutes_string(mins)
}

/// How the length of an event is shown: whole days (at least one) for all-day events.
pub open spec fn event_duration_text(e: EventInfo) -> Seq<char> {
    if e.all_day {
        let days = e.end.local().date.days - e.start.local().date.days;
        int_text(if days < 1 {
            1
        } else {
            days
        }) + "d"@
    } else {
        duration_text(whole_minutes(e.end.timestamp - e.start.timestamp))
    }
}

/// How the length of an event is shown.
pub fn format_event_duration(event: &EventInfo) -> (r: String)
    requires
        event.wf(),
    ensures
        r@ == event_duration_text(*event),
{
    if event.all_day {
        let days: i64 = event.end.date_naive().days as i64 - event.start.date_naive().days as i64;
        let shown: i64 = if days < 1 {
            1
        } else {
            days
        };
        let mut out = int_chars(shown);
        push_str(&mut out, "d");
        return string_from_chars(&out);
    }
    format_duration(event.end.timestamp - event.start.timestamp)
}

/// The number of terminal columns a text takes, as `unicode-width` measures it.
pub uninterp spec fn display_width(s: Seq<char>) -> usize;

/// `UnicodeWidthStr::width` of a string.
#[verifier::external_body]
pub(crate) fn text_width(s: &str) -> (r: usize)
    ensures
        r == display_width(s@),
{
    UnicodeWidthStr::width(s)
}

/// A text padded with spaces to a display width (unchanged when already as wide).
pub open spec fn padded(s: Seq<char>, width: nat) -> Seq<char> {
    if display_width(s) >= width {
        s
    } else {
        s + Seq::new((width - display_width(s)) as nat, |i: int| ' ')
    }
}

/// Pads a text with spaces to a display width.
pub fn pad_right(s: &str, width: usize) -> (r: String)
    ensures
        r@ == padded(s@, width as nat),
{
    let w = text_width(s);
    let mut out = chars_of(s);
    if w >= width {
        return string_from_chars(&out);
    }
    let k = width - w;
    let ghost base = out@;
    let mut i: usize = 0;
    while i < k
        invariant
            i <= k,
            out@ == base + Seq::new(i as nat, |j: int| ' '),
        decreases k - i,
    {
        out.push(' ');
        i += 1;
        assert(out@ =~= base + Seq::new(i as nat, |j: int| ' '));
    }
    string_from_chars(&out)
}

} // verus!
