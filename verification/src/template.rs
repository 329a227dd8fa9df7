//! The `template` commands: listing, deleting, and describing saved templates.
use vstd::prelude::*;
use crate::error::AppError;
use crate::state::{delete_template, first_named, list_templates, sort_by_name, StoredTemplate};
use crate::store::{EventDraft, RecurrenceRuleInfo};
use crate::store::{all_day_end_date, current_all_day_end_date};
use crate::text::{chars_of, dec, dec_chars, int_chars, int_text, join, push_chars, push_str, string_from_chars};
use crate::time::{format_hm, format_ymd, hm_text, ymd_text, Moment};

verus! {

/// One line of the template list.
#[derive(Clone, Debug)]
pub struct TemplateListItem {
    pub name: String,
    pub title: String,
    pub calendar: String,
    pub all_day: bool,
    pub recurring: bool,
    pub saved_at: Moment,
}

/// The list entry of a template.
pub open spec fn list_item(t: StoredTemplate, item: TemplateListItem) -> bool {
    &&& item.name == t.name
    &&& item.title == t.draft.title
    &&& item.calendar == t.draft.calendar
    &&& item.all_day == t.draft.all_day
    &&& item.recurring == t.draft.recurrence_rule is Some
    &&& item.saved_at == t.saved_at
}

/// The saved templates as listed: by name, each with its title, calendar and kind.
pub fn list(templates: Vec<StoredTemplate>) -> (r: Vec<TemplateListItem>)
    ensures
        r@.len() == sort_by_name(templates@).len(),
        forall|i: int| 0 <= i < r@.len() ==> list_item(sort_by_name(templates@)[i], #[trigger] r@[i]),
{
    let sorted = list_templates(templates);
    let ghost s = sorted@;
    let mut items: Vec<TemplateListItem> = Vec::new();
    for t in it: sorted.into_iter()
        invariant
            it.seq() == s,
            items@.len() == it.index(),
            forall|i: int| 0 <= i < items@.len() ==> list_item(s[i], #[trigger] items@[i]),
    {
        let recurring = t.draft.recurrence_rule.is_some();
        let item = TemplateListItem {
            name: t.name,
            title: t.draft.title,
            calendar: t.draft.calendar,
            all_day: t.draft.all_day,
            recurring,
            saved_at: t.saved_at,
        };
        items.push(item);
    }
    items
}

/// The human line of a list entry: name, title, calendar, and its flags.
pub open spec fn list_line_text(item: TemplateListItem) -> Seq<char> {
    item.name@ + "  "@ + item.title@ + "  ["@ + item.calendar@ + "]"@ + (if item.all_day {
        "  all-day"@
    } else {
        Seq::empty()
    }) + (if item.recurring {
        "  recurring"@
    } else {
        Seq::empty()
    })
}

/// How a list entry is shown.
pub fn list_line(item: &TemplateListItem) -> (r: String)
    ensures
        r@ == list_line_text(*item),
{
    let mut m = chars_of(item.name.as_str());
    push_str(&mut m, "  ");
    push_chars(&mut m, &chars_of(item.title.as_str()));
    push_str(&mut m, "  [");
    push_chars(&mut m, &chars_of(item.calendar.as_str()));
    push_str(&mut m, "]");
    if item.all_day {
        push_str(&mut m, "  all-day");
    }
    if item.recurring {
        push_str(&mut m, "  recurring");
    }
    string_from_chars(&m)
}

/// Deletes a template by name; the confirmation names it.
pub fn delete(templates: &mut Vec<StoredTemplate>, name: &str) -> (r: Result<String, AppError>)
    ensures
        final(templates)@ == old(templates)@.filter(|t: StoredTemplate| t.name@ != name@),
        first_named(old(templates)@, name@) is None ==> (r matches Err(e) && e.is(
            (crate::error::ErrorKind::TemplateNotFound, name@),
        )),
        first_named(old(templates)@, name@) is Some ==> (r matches Ok(m) && m@
            == "Template deleted: "@ + name@),
{
    match delete_template(templates, name) {
        Err(e) => Err(e),
        Ok(()) => {
            let mut m = chars_of("Template deleted: ");
            push_str(&mut m, name);
            Ok(string_from_chars(&m))
        },
    }
}

/// How a recurrence rule is described: the frequency (with its interval when above one), then
/// its count or its last date.
pub open spec fn rule_summary(rule: RecurrenceRuleInfo) -> Seq<char> {
    (if rule.interval <= 1 {
        rule.frequency@
    } else {
        "every "@ + dec(rule.interval as nat) + " "@ + rule.frequency@
    }) + match rule.count {
        Some(c) => " ("@ + dec(c as nat) + " times)"@,
        None => match rule.until {
            Some(d) => " until "@ + ymd_text(d),
            None => Seq::empty(),
        },
    }
}

/// Describes a recurrence rule.
pub fn recurrence_rule_summary(rule: &RecurrenceRuleInfo) -> (r: String)
    requires
        rule.until matches Some(d) ==> d.valid(),
    ensures
        r@ == rule_summary(*rule),
{
    let mut m: Vec<char>;
    if rule.interval <= 1 {
        m = chars_of(rule.frequency.as_str());
    } else {
        m = chars_of("every ");
        push_chars(&mut m, &dec_chars(rule.interval as u64));
        push_str(&mut m, " ");
        push_chars(&mut m, &chars_of(rule.frequency.as_str()));
    }
    if let Some(c) = rule.count {
        push_str(&mut m, " (");
        push_chars(&mut m, &dec_chars(c as u64));
        push_str(&mut m, " times)");
    } else if let Some(d) = rule.until {
        push_str(&mut m, " until ");
        push_chars(&mut m, &format_ymd(d));
    }
    string_from_chars(&m)
}

/// A date and time as `%Y-%m-%d %H:%M`.
pub open spec fn ymd_hm_text(m: Moment) -> Seq<char> {
    ymd_text(m.local().date) + " "@ + hm_text(m.local().time)
}

/// The alert list of a template: each offset in minutes, comma-separated.
pub open spec fn alerts_text(alerts: Seq<i64>) -> Seq<char> {
    join(alerts.map_values(|m: i64| int_text(m as int) + "m"@), ", "@)
}

/// What `template show` prints: name, title, calendar, when, and the optional details.
pub open spec fn show_text(t: StoredTemplate) -> Seq<Seq<char>> {
    let d = t.draft;
    let when = if d.all_day {
        let end_date = all_day_end_date(d.start, d.end);
        if end_date.days > d.start.local().date.days {
            "When: "@ + ymd_text(d.start.local().date) + " to "@ + ymd_text(end_date) + " (All Day)"@
        } else {
            "When: "@ + ymd_text(d.start.local().date) + " (All Day)"@
        }
    } else {
        "When: "@ + ymd_hm_text(d.start) + " -> "@ + ymd_hm_text(d.end)
    };
    seq!["Template: "@ + t.name@, "Title: "@ + d.title@, "Calendar: "@ + d.calendar@, when]
        + details_text(d)
}

/// The location line of `template show`, when there is a location.
pub open spec fn location_part(d: EventDraft) -> Seq<Seq<char>> {
    match d.location {
        Some(l) => seq!["Location: "@ + l@],
        None => Seq::empty(),
    }
}

/// The URL line of `template show`, when there is a URL.
pub open spec fn url_part(d: EventDraft) -> Seq<Seq<char>> {
    match d.url {
        Some(u) => seq!["URL: "@ + u@],
        None => Seq::empty(),
    }
}

/// The notes line of `template show`, when there are notes.
pub open spec fn notes_part(d: EventDraft) -> Seq<Seq<char>> {
    match d.notes {
        Some(n) => seq!["Notes: "@ + n@],
        None => Seq::empty(),
    }
}

/// The alerts line of `template show`, when there are alerts.
pub open spec fn alerts_part(d: EventDraft) -> Seq<Seq<char>> {
    if d.alerts@.len() > 0 {
        seq!["Alerts: "@ + alerts_text(d.alerts@)]
    } else {
        Seq::empty()
    }
}

/// The repetition line of `template show`, when the draft repeats.
pub open spec fn repeat_part(d: EventDraft) -> Seq<Seq<char>> {
    match d.recurrence_rule {
        Some(r) => seq!["Repeat: "@ + rule_summary(r)],
        None => Seq::empty(),
    }
}

/// The optional lines of `template show`: location, URL, notes, alerts and repetition.
pub open spec fn details_text(d: EventDraft) -> Seq<Seq<char>> {
    location_part(d) + url_part(d) + notes_part(d) + alerts_part(d) + repeat_part(d)
}

pub(crate) fn ymd_hm(m: Moment) -> (r: Vec<char>)
    requires
        m.wf(),
    ensures
        r@ == ymd_hm_text(m),
{
    let mut out = format_ymd(m.date_naive());
    push_str(&mut out, " ");
    push_chars(&mut out, &format_hm(m.time()));
    out
}

fn alert_list(alerts: &Vec<i64>) -> (r: Vec<char>)
    ensures
        r@ == alerts_text(alerts@),
{
    let mut parts: Vec<Vec<char>> = Vec::new();
    let mut i: usize = 0;
    while i < alerts.len()
        invariant
            i <= alerts@.len(),
            parts@.map_values(|p: Vec<char>| p@) == alerts@.take(i as int).map_values(
                |m: i64| int_text(m as int) + "m"@,
            ),
        decreases alerts@.len() - i,
    {
        let mut p = int_chars(alerts[i]);
        push_str(&mut p, "m");
        let ghost pv = p@;
        let ghost before = parts@;
        parts.push(p);
        proof {
            assert(pv == int_text(alerts@[i as int] as int) + "m"@);
            assert(parts@.map_values(|p: Vec<char>| p@) =~= before.map_values(|p: Vec<char>| p@).push(pv));
            assert(alerts@.take(i as int + 1) =~= alerts@.take(i as int).push(alerts@[i as int]));
            assert(parts@.map_values(|p: Vec<char>| p@) =~= alerts@.take(i as int + 1).map_values(
                |m: i64| int_text(m as int) + "m"@,
            ));
        }
        i += 1;
    }
    proof {
        assert(alerts@.take(alerts@.len() as int) =~= alerts@);
    }
    crate::text::join_chars(&parts, ", ")
}

fn add_line(lines: &mut Vec<String>, v: &Vec<char>)
    ensures
        final(lines)@.map_values(|s: String| s@) == old(lines)@.map_values(|s: String| s@).push(v@),
{
    let line = string_from_chars(v);
    let ghost lv = line@;
    lines.push(line);
    proof {
        assert(final(lines)@.map_values(|s: String| s@) =~= old(lines)@.map_values(|s: String| s@).push(lv));
    }
}

fn labeled(label: &str, value: &String) -> (r: Vec<char>)
    ensures
        r@ == label@ + value@,
{
    let mut v = chars_of(label);
    push_chars(&mut v, &chars_of(value.as_str()));
    v
}

fn detail_lines(d: &EventDraft) -> (r: Vec<String>)
    requires
        d.recurrence_rule matches Some(rule) ==> (rule.until matches Some(x) ==> x.valid()),
    ensures
        r@.map_values(|s: String| s@) == details_text(*d),
{
    let mut lines: Vec<String> = Vec::new();
    if let Some(l) = &d.location {
        add_line(&mut lines, &labeled("Location: ", l));
    }
    proof {
        assert(lines@.map_values(|s: String| s@) =~= location_part(*d));
    }
    if let Some(u) = &d.url {
        add_line(&mut lines, &labeled("URL: ", u));
    }
    proof {
        assert(lines@.map_values(|s: String| s@) =~= location_part(*d) + url_part(*d));
    }
    if let Some(n) = &d.notes {
        add_line(&mut lines, &labeled("Notes: ", n));
    }
    proof {
        assert(lines@.map_values(|s: String| s@) =~= location_part(*d) + url_part(*d) + notes_part(*d));
    }
    if d.alerts.len() > 0 {
        let mut v = chars_of("Alerts: ");
        push_chars(&mut v, &alert_list(&d.alerts));
        add_line(&mut lines, &v);
    }
    proof {
        assert(lines@.map_values(|s: String| s@) =~= location_part(*d) + url_part(*d) + notes_part(*d)
            + alerts_part(*d));
    }
    if let Some(rule) = &d.recurrence_rule {
        let mut v = chars_of("Repeat: ");
        let summary = recurrence_rule_summary(rule);
        push_chars(&mut v, &chars_of(summary.as_str()));
        add_line(&mut lines, &v);
    }
    proof {
        assert(lines@.map_values(|s: String| s@) =~= details_text(*d));
    }
    lines
}

/// What `template show` prints for a template.
pub fn show_lines(t: &StoredTemplate) -> (r: Vec<String>)
    requires
        t.draft.start.wf(),
        t.draft.end.wf(),
        t.draft.recurrence_rule matches Some(rule) ==> (rule.until matches Some(d) ==> d.valid()),
    ensures
        r@.map_values(|s: String| s@) == show_text(*t),
{
    let d = &t.draft;
    let mut lines: Vec<String> = Vec::new();
    add_line(&mut lines, &labeled("Template: ", &t.name));
    add_line(&mut lines, &labeled("Title: ", &d.title));
    add_line(&mut lines, &labeled("Calendar: ", &d.calendar));
    let mut when = chars_of("When: ");
    if d.all_day {
        let start_date = d.start.date_naive();
        let end_date = current_all_day_end_date(d.start, d.end);
        push_chars(&mut when, &format_ymd(start_date));
        if end_date.days > start_date.days {
            push_str(&mut when, " to ");
            push_chars(&mut when, &format_ymd(end_date));
        }
        push_str(&mut when, " (All Day)");
    } else {
        push_chars(&mut when, &ymd_hm(d.start));
        push_str(&mut when, " -> ");
        push_chars(&mut when, &ymd_hm(d.end));
    }
    add_line(&mut lines, &when);
    let ghost base = lines@.map_values(|s: String| s@);
    let mut rest = detail_lines(d);
    let ghost rest_v = rest@.map_values(|s: String| s@);
    lines.append(&mut rest);
    proof {
        assert(lines@.map_values(|s: String| s@) =~= base + rest_v);
    }
    proof {
        assert(lines@.map_values(|s: String| s@) =~= show_text(*t));
    }
    lines
}

} // verus!
