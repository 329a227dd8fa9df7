//! Checks made on a command line before the calendar is touched, and how errors are reported.
use vstd::prelude::*;
use crate::cli::{resolved_format, Cli, Commands, OutputFormat, TemplateCommand};
use crate::dateparse::{
    all_day_date_spec, date_spec, datetime_spec, parse_all_day_date_at, parse_date_at,
    parse_datetime_at,
};
use crate::duplicate::{
    instantiated, instantiation_bounds_hold, instantiation_failed, instantiation_in_bounds,
    resolve_instantiation_times,
};
use crate::error::{
    agrees, hint_spec, invalid_argument, invalid_argument_str, invalid_date_str, title_spec,
    why_spec, AppError, ErrorKind, Failure,
};
use crate::events::{
    field_list_check, opt_view, opts_check, validate_field_list, validate_opts, DisplayOpts,
};
use crate::free::{hhmm_check, parse_hhmm_validate, validate_range, validate_time_window, window_check};
use crate::search::{resolve_search_range, search_range, search_range_bounds_hold, search_range_in_bounds};
use crate::state::{
    ensure_no_pending_undo, exists_message, find_template, first_named, get_template, pending_block_message,
    sort_by_name, StoredTemplate,
};
use crate::store::{
    alert_check, frequency_of, recurrence_frequency_from_str, repeat_check,
    validate_alert_minutes, validate_repeat_configuration, RecurrenceScope,
};
use crate::text::{chars_of, push_chars, push_str, string_from_chars, trim, trim_chars};
use crate::time::{Date, DateTime, Moment, MAX_CE};
use crate::update::has_requested_changes;

verus! {

/// What the checks read besides the command line: the current instant, whether standard
/// output is a terminal, whether an undo is in progress (or why that could not be read),
/// whether the `--url` value is a URL, and the saved templates (or why they could not be read).
pub struct CheckEnv {
    pub now: Moment,
    pub stdout_is_terminal: bool,
    pub pending_undo: Result<bool, AppError>,
    pub url_valid: bool,
    pub templates: Result<Vec<StoredTemplate>, AppError>,
}

/// The text of an optional argument.
pub open spec fn opt_string(o: Option<String>) -> Option<Seq<char>> {
    match o {
        Some(s) => Some(s@),
        None => None,
    }
}

/// An error as a failure description.
pub open spec fn failure_of(e: AppError) -> Failure {
    (e.kind(), e.detail())
}

/// The first check, and the second only when the first passes.
pub open spec fn after_ok(a: Result<(), Failure>, b: Result<(), Failure>) -> Result<(), Failure> {
    match a {
        Err(f) => Err(f),
        Ok(_) => b,
    }
}

/// A value must hold something besides whitespace.
pub open spec fn nonempty_check(v: Seq<char>, label: Seq<char>) -> Result<(), Failure> {
    if trim(v).len() == 0 {
        Err((ErrorKind::InvalidArgument, label + " must not be empty"@))
    } else {
        Ok(())
    }
}

/// An optional value, when given, must hold something besides whitespace.
pub open spec fn opt_nonempty_check(v: Option<Seq<char>>, label: Seq<char>) -> Result<(), Failure> {
    match v {
        Some(x) => nonempty_check(x, label),
        None => Ok(()),
    }
}

/// A change is refused while an undo is in progress, or when that cannot be read.
pub open spec fn pending_check(p: Result<bool, AppError>) -> Result<(), Failure> {
    match p {
        Err(e) => Err(failure_of(e)),
        Ok(true) => Err((ErrorKind::InvalidArgument, pending_block_message())),
        Ok(false) => Ok(()),
    }
}

/// A given URL must be one.
pub open spec fn url_check(url: Option<Seq<char>>, valid: bool) -> Result<(), Failure> {
    if url is Some && !valid {
        Err((ErrorKind::InvalidArgument, "Invalid URL: "@ + url->0))
    } else {
        Ok(())
    }
}

/// The repeat options: a known frequency, then `repeat_check`.
pub open spec fn repeat_args_check(
    repeat: Option<Seq<char>>,
    count: Option<u32>,
    interval: Option<u32>,
) -> Result<(), Failure> {
    after_ok(
        match repeat {
            Some(f) => match frequency_of(f) {
                Ok(_) => Ok(()),
                Err(x) => Err(x),
            },
            None => Ok(()),
        },
        repeat_check(repeat is Some, count, interval),
    )
}

/// An optional date argument read against `today`.
pub open spec fn opt_date_check(s: Option<Seq<char>>, today: Date) -> Result<Option<Date>, Failure> {
    match s {
        Some(v) => match date_spec(v, today) {
            Some(d) => Ok(Some(d)),
            None => Err((ErrorKind::InvalidDate, v)),
        },
        None => Ok(None),
    }
}

/// An optional all-day date argument read against `today`.
pub open spec fn opt_all_day_check(s: Option<Seq<char>>, today: Date) -> Result<Option<Date>, Failure> {
    match s {
        Some(v) => match all_day_date_spec(v, today) {
            Some(d) => Ok(Some(d)),
            None => Err((ErrorKind::InvalidDate, v)),
        },
        None => Ok(None),
    }
}

/// An optional date-and-time argument read at `now`.
pub open spec fn opt_datetime_check(s: Option<Seq<char>>, now: Moment) -> Result<Option<DateTime>, Failure> {
    match s {
        Some(v) => match datetime_spec(v, now) {
            Some(d) => Ok(Some(d)),
            None => Err((ErrorKind::InvalidDate, v)),
        },
        None => Ok(None),
    }
}

/// A timed range: both ends read, and the end after the start.
pub open spec fn timed_range_check(start: Seq<char>, end: Seq<char>, now: Moment) -> Result<(), Failure> {
    match opt_datetime_check(Some(start), now) {
        Err(f) => Err(f),
        Ok(so) => match opt_datetime_check(Some(end), now) {
            Err(f) => Err(f),
            Ok(eo) => if eo->0.secs() <= so->0.secs() {
                Err((ErrorKind::InvalidDate, "end time must be after start time"@))
            } else {
                Ok(())
            },
        },
    }
}

/// An all-day range: both ends read as dates, and the end not before the start, with the
/// given message when it is.
pub open spec fn all_day_range_check(start: Seq<char>, end: Seq<char>, today: Date, message: Seq<char>) -> Result<
    (),
    Failure,
> {
    match opt_all_day_check(Some(start), today) {
        Err(f) => Err(f),
        Ok(so) => match opt_all_day_check(Some(end), today) {
            Err(f) => Err(f),
            Ok(eo) => if eo->0.days < so->0.days {
                Err((ErrorKind::InvalidDate, message))
            } else {
                Ok(())
            },
        },
    }
}

/// The optional new bounds of an update, when both are given, must be in order.
pub open spec fn update_range_check(
    all_day: Option<bool>,
    start: Option<Seq<char>>,
    end: Option<Seq<char>>,
    now: Moment,
) -> Result<(), Failure> {
    if all_day == Some(true) {
        match opt_all_day_check(start, now.local().date) {
            Err(f) => Err(f),
            Ok(so) => match opt_all_day_check(end, now.local().date) {
                Err(f) => Err(f),
                Ok(eo) => if so is Some && eo is Some && eo->0.days < so->0.days {
                    Err((ErrorKind::InvalidDate, "end date must be on or after start date"@))
                } else {
                    Ok(())
                },
            },
        }
    } else {
        match opt_datetime_check(start, now) {
            Err(f) => Err(f),
            Ok(so) => match opt_datetime_check(end, now) {
                Err(f) => Err(f),
                Ok(eo) => if so is Some && eo is Some && eo->0.secs() <= so->0.secs() {
                    Err((ErrorKind::InvalidDate, "end time must be after start time"@))
                } else {
                    Ok(())
                },
            },
        }
    }
}

/// A range given by optional dates, the end defaulting to `span` days after the start and
/// the start to today, must not end before it starts.
pub open spec fn date_window_check(from: Option<Seq<char>>, to: Option<Seq<char>>, today: Date, span: int) -> Result<
    (),
    Failure,
> {
    match opt_date_check(from, today) {
        Err(f) => Err(f),
        Ok(fo) => {
            let fd = match fo {
                Some(d) => d,
                None => today,
            };
            match opt_date_check(to, today) {
                Err(f) => Err(f),
                Ok(to_o) => {
                    let td = match to_o {
                        Some(d) => d,
                        None => Date { days: (fd.days + span) as i32 },
                    };
                    if td.days < fd.days {
                        Err((ErrorKind::InvalidDate, "to date must be on or after from date"@))
                    } else {
                        Ok(())
                    }
                },
            }
        },
    }
}

/// A search-range check that keeps only the outcome.
pub open spec fn range_check(from: Option<Seq<char>>, to: Option<Seq<char>>, today: Date) -> Result<(), Failure> {
    match search_range(from, to, today) {
        Err(f) => Err(f),
        Ok(_) => Ok(()),
    }
}

/// When a query selects the event, it must not be blank and its search range must be valid.
pub open spec fn query_check(
    query: Option<Seq<char>>,
    from: Option<Seq<char>>,
    to: Option<Seq<char>>,
    today: Date,
) -> Result<(), Failure> {
    match query {
        Some(q) => after_ok(nonempty_check(q, "--query"@), range_check(from, to, today)),
        None => Ok(()),
    }
}

/// A free-form start or end: a date and time, or an all-day date.
pub open spec fn flexible_check(v: Option<Seq<char>>, now: Moment) -> Result<(), Failure> {
    match v {
        Some(x) => if datetime_spec(x, now) is Some || all_day_date_spec(x, now.local().date) is Some {
            Ok(())
        } else {
            Err((ErrorKind::InvalidDate, x))
        },
        None => Ok(()),
    }
}

/// The hours window of the free-time search.
pub open spec fn free_window_check(after: Option<Seq<char>>, before: Option<Seq<char>>) -> Result<(), Failure> {
    match (match after {
        Some(a) => match hhmm_check(a) {
            Ok(t) => Ok(Some(t)),
            Err(f) => Err(f),
        },
        None => Ok(None),
    }) {
        Err(f) => Err(f),
        Ok(at) => match (match before {
            Some(b) => match hhmm_check(b) {
                Ok(t) => Ok(Some(t)),
                Err(f) => Err(f),
            },
            None => Ok(None),
        }) {
            Err(f) => Err(f),
            Ok(bt) => window_check(at, bt),
        },
    }
}

/// Whether the command accepts `--fields`.
pub open spec fn takes_fields(c: Commands) -> bool {
    c is Events || c is Today || c is Upcoming || c is Search || c is Next || c is Conflicts
}

/// `--fields` needs structured output, a command that lists events, and known field names.
pub open spec fn fields_check(cli: Cli, stdout_is_terminal: bool) -> Result<(), Failure> {
    match cli.fields {
        None => Ok(()),
        Some(f) => if resolved_format(cli.output, stdout_is_terminal) == OutputFormat::Human {
            Err((ErrorKind::InvalidArgument, "--fields requires a structured output format"@))
        } else if !takes_fields(cli.command) {
            Err(
                (
                    ErrorKind::InvalidArgument,
                    "--fields is only supported for events, today, upcoming, search, next, and conflicts"@,
                ),
            )
        } else {
            field_list_check(f@)
        },
    }
}

/// What the templates say about saving under a name without `--force`.
pub open spec fn save_name_check(templates: Result<Vec<StoredTemplate>, AppError>, name: Seq<char>) -> Result<
    (),
    Failure,
> {
    match templates {
        Err(e) => if e is TemplateNotFound {
            Ok(())
        } else {
            Err(failure_of(e))
        },
        Ok(ts) => if first_named(sort_by_name(ts@), name) is Some {
            Err((ErrorKind::InvalidArgument, exists_message(name)))
        } else {
            Ok(())
        },
    }
}

/// The template a name finds, or why there is none.
pub open spec fn template_lookup(templates: Result<Vec<StoredTemplate>, AppError>, name: Seq<char>) -> Result<
    StoredTemplate,
    Failure,
> {
    match templates {
        Err(e) => Err(failure_of(e)),
        Ok(ts) => match first_named(sort_by_name(ts@), name) {
            Some(i) => Ok(sort_by_name(ts@)[i]),
            None => Err((ErrorKind::TemplateNotFound, name)),
        },
    }
}

/// The checks of each command, up to (for `template add`) finding the template.
pub open spec fn command_check(cmd: Commands, env: CheckEnv) -> Result<(), Failure> {
    let now = env.now;
    let today = now.local().date;
    match cmd {
        Commands::Agenda { calendar } => opt_nonempty_check(opt_string(calendar), "--calendar"@),
        Commands::Events { from, to, calendar, sort, after, before, .. } => after_ok(
            opt_nonempty_check(opt_string(calendar), "--calendar"@),
            after_ok(
                opts_check(opt_string(after), opt_string(before), opt_string(sort)),
                date_window_check(opt_string(from), opt_string(to), today, 7),
            ),
        ),
        Commands::Today { calendar, sort, after, before, .. } => after_ok(
            opt_nonempty_check(opt_string(calendar), "--calendar"@),
            opts_check(opt_string(after), opt_string(before), opt_string(sort)),
        ),
        Commands::Upcoming { calendar, sort, after, before, .. } => after_ok(
            opt_nonempty_check(opt_string(calendar), "--calendar"@),
            opts_check(opt_string(after), opt_string(before), opt_string(sort)),
        ),
        Commands::Search { query, calendar, from, to, sort, after, before, .. } => after_ok(
            nonempty_check(query@, "query"@),
            after_ok(
                opt_nonempty_check(opt_string(calendar), "--calendar"@),
                after_ok(
                    opts_check(opt_string(after), opt_string(before), opt_string(sort)),
                    range_check(opt_string(from), opt_string(to), today),
                ),
            ),
        ),
        Commands::Add {
            title,
            start,
            end,
            calendar,
            all_day,
            repeat,
            repeat_count,
            repeat_interval,
            alert,
            url,
            ..
        } => after_ok(
            pending_check(env.pending_undo),
            after_ok(
                nonempty_check(title@, "--title"@),
                after_ok(
                    opt_nonempty_check(opt_string(calendar), "--calendar"@),
                    after_ok(
                        if all_day {
                            all_day_range_check(
                                start@,
                                end@,
                                today,
                                "end date must be on or after start date"@,
                            )
                        } else {
                            timed_range_check(start@, end@, now)
                        },
                        after_ok(
                            repeat_args_check(opt_string(repeat), repeat_count, repeat_interval),
                            after_ok(alert_check(alert@), url_check(opt_string(url), env.url_valid)),
                        ),
                    ),
                ),
            ),
        ),
        Commands::Update {
            event_id,
            title,
            start,
            end,
            all_day,
            query,
            in_calendar,
            from,
            to,
            location,
            clear_location,
            url,
            clear_url,
            notes,
            clear_notes,
            alert,
            clear_alerts,
            calendar,
            ..
        } => after_ok(
            pending_check(env.pending_undo),
            after_ok(
                opt_nonempty_check(opt_string(event_id), "EVENT_ID"@),
                after_ok(
                    opt_nonempty_check(opt_string(in_calendar), "--in-calendar"@),
                    after_ok(
                        opt_nonempty_check(opt_string(calendar), "--calendar"@),
                        after_ok(
                            opt_nonempty_check(opt_string(title), "--title"@),
                            after_ok(
                                opt_nonempty_check(opt_string(query), "--query"@),
                                after_ok(
                                    if !(title is Some || start is Some || end is Some
                                        || location is Some || clear_location || url is Some
                                        || clear_url || notes is Some || clear_notes || alert@.len()
                                        > 0 || clear_alerts || calendar is Some || all_day is Some) {
                                        Err(
                                            (
                                                ErrorKind::InvalidArgument,
                                                "No changes specified for update."@,
                                            ),
                                        )
                                    } else {
                                        Ok(())
                                    },
                                    after_ok(
                                        update_range_check(
                                            all_day,
                                            opt_string(start),
                                            opt_string(end),
                                            now,
                                        ),
                                        after_ok(
                                            if query is Some {
                                                range_check(opt_string(from), opt_string(to), today)
                                            } else {
                                                Ok(())
                                            },
                                            after_ok(
                                                if !clear_alerts {
                                                    alert_check(alert@)
                                                } else {
                                                    Ok(())
                                                },
                                                if !clear_url {
                                                    url_check(opt_string(url), env.url_valid)
                                                } else {
                                                    Ok(())
                                                },
                                            ),
                                        ),
                                    ),
                                ),
                            ),
                        ),
                    ),
                ),
            ),
        ),
        Commands::Free { from, to, calendar, after, before, .. } => after_ok(
            opt_nonempty_check(opt_string(calendar), "--calendar"@),
            after_ok(
                date_window_check(opt_string(from), opt_string(to), today, 5),
                free_window_check(opt_string(after), opt_string(before)),
            ),
        ),
        Commands::Conflicts { start, end, all_day, calendar, sort, .. } => after_ok(
            opt_nonempty_check(opt_string(calendar), "--calendar"@),
            after_ok(
                opts_check(None, None, opt_string(sort)),
                if all_day {
                    all_day_range_check(start@, end@, today, "to date must be on or after from date"@)
                } else {
                    timed_range_check(start@, end@, now)
                },
            ),
        ),
        Commands::Show { event_id, query, in_calendar, from, to, .. } => after_ok(
            opt_nonempty_check(opt_string(event_id), "EVENT_ID"@),
            after_ok(
                opt_nonempty_check(opt_string(in_calendar), "--in-calendar"@),
                query_check(opt_string(query), opt_string(from), opt_string(to), today),
            ),
        ),
        Commands::Delete { event_id, query, in_calendar, from, to, dry_run, .. } => after_ok(
            if !dry_run {
                pending_check(env.pending_undo)
            } else {
                Ok(())
            },
            after_ok(
                opt_nonempty_check(opt_string(event_id), "EVENT_ID"@),
                after_ok(
                    opt_nonempty_check(opt_string(in_calendar), "--in-calendar"@),
                    query_check(opt_string(query), opt_string(from), opt_string(to), today),
                ),
            ),
        ),
        Commands::Next { calendar } => opt_nonempty_check(opt_string(calendar), "--calendar"@),
        Commands::Duplicate { event_id, query, in_calendar, from, to, title, start, end, calendar, .. } => after_ok(
            pending_check(env.pending_undo),
            after_ok(
                opt_nonempty_check(opt_string(event_id), "EVENT_ID"@),
                after_ok(
                    opt_nonempty_check(opt_string(in_calendar), "--in-calendar"@),
                    after_ok(
                        opt_nonempty_check(opt_string(calendar), "--calendar"@),
                        after_ok(
                            query_check(opt_string(query), opt_string(from), opt_string(to), today),
                            after_ok(
                                opt_nonempty_check(opt_string(title), "--title"@),
                                after_ok(
                                    flexible_check(opt_string(start), now),
                                    flexible_check(opt_string(end), now),
                                ),
                            ),
                        ),
                    ),
                ),
            ),
        ),
        Commands::Template { command } => match command {
            TemplateCommand::List => Ok(()),
            TemplateCommand::Show { name } => nonempty_check(name@, "template name"@),
            TemplateCommand::Delete { name } => nonempty_check(name@, "template name"@),
            TemplateCommand::Save { name, force, event_id, query, in_calendar, from, to, .. } => after_ok(
                nonempty_check(name@, "template name"@),
                after_ok(
                    if !force {
                        save_name_check(env.templates, name@)
                    } else {
                        Ok(())
                    },
                    after_ok(
                        opt_nonempty_check(opt_string(event_id), "EVENT_ID"@),
                        after_ok(
                            opt_nonempty_check(opt_string(in_calendar), "--in-calendar"@),
                            query_check(opt_string(query), opt_string(from), opt_string(to), today),
                        ),
                    ),
                ),
            ),
            TemplateCommand::Add { name, title, start, calendar, .. } => after_ok(
                pending_check(env.pending_undo),
                after_ok(
                    nonempty_check(name@, "template name"@),
                    after_ok(
                        opt_nonempty_check(opt_string(title), "--title"@),
                        after_ok(
                            opt_nonempty_check(opt_string(calendar), "--calendar"@),
                            after_ok(
                                nonempty_check(start@, "--start"@),
                                match template_lookup(env.templates, name@) {
                                    Err(f) => Err(f),
                                    Ok(_) => Ok(()),
                                },
                            ),
                        ),
                    ),
                ),
            ),
        },
        _ => Ok(()),
    }
}

/// The inputs stay clear of the ends of the calendar where the checks add days to a date or
/// time.
pub open spec fn check_in_bounds(cli: Cli, env: CheckEnv) -> bool {
    let now = env.now;
    let today = now.local().date;
    &&& now.wf()
    &&& match cli.command {
        Commands::Events { from, to, .. } => to is None ==> match opt_date_check(opt_string(from), today) {
            Ok(Some(d)) => d.days + 7 <= MAX_CE,
            Ok(None) => today.days + 7 <= MAX_CE,
            Err(_) => true,
        },
        Commands::Free { from, to, .. } => to is None ==> match opt_date_check(opt_string(from), today) {
            Ok(Some(d)) => d.days + 5 <= MAX_CE,
            Ok(None) => today.days + 5 <= MAX_CE,
            Err(_) => true,
        },
        Commands::Search { from, to, .. } => search_range_in_bounds(opt_string(from), opt_string(to), today),
        Commands::Update { query, from, to, .. } => query is Some ==> search_range_in_bounds(
            opt_string(from),
            opt_string(to),
            today,
        ),
        Commands::Show { query, from, to, .. } => query is Some ==> search_range_in_bounds(
            opt_string(from),
            opt_string(to),
            today,
        ),
        Commands::Delete { query, from, to, .. } => query is Some ==> search_range_in_bounds(
            opt_string(from),
            opt_string(to),
            today,
        ),
        Commands::Duplicate { query, from, to, .. } => query is Some ==> search_range_in_bounds(
            opt_string(from),
            opt_string(to),
            today,
        ),
        Commands::Template { command } => match command {
            TemplateCommand::Save { query, from, to, .. } => query is Some ==> search_range_in_bounds(
                opt_string(from),
                opt_string(to),
                today,
            ),
            TemplateCommand::Add { name, start, end, .. } => match template_lookup(env.templates, name@) {
                Ok(t) => instantiation_in_bounds(t.draft, Some(start@), opt_string(end), now),
                Err(_) => true,
            },
            _ => true,
        },
        _ => true,
    }
}

fn opt_str(o: &Option<String>) -> (r: Option<&str>)
    ensures
        opt_view(r) == opt_string(*o),
{
    match o {
        Some(s) => Some(s.as_str()),
        None => None,
    }
}

fn nonempty(value: &str, label: &str) -> (r: Result<(), AppError>)
    ensures
        agrees(r, nonempty_check(value@, label@)),
{
    let t = trim_chars(&chars_of(value));
    if t.len() == 0 {
        let mut m = chars_of(label);
        push_str(&mut m, " must not be empty");
        return Err(invalid_argument(m));
    }
    Ok(())
}

fn opt_nonempty(value: Option<&str>, label: &str) -> (r: Result<(), AppError>)
    ensures
        agrees(r, opt_nonempty_check(opt_view(value), label@)),
{
    match value {
        Some(v) => nonempty(v, label),
        None => Ok(()),
    }
}

fn pending(p: Result<bool, AppError>) -> (r: Result<(), AppError>)
    ensures
        agrees(r, pending_check(p)),
{
    match p {
        Err(e) => Err(e),
        Ok(claimed) => ensure_no_pending_undo(claimed),
    }
}

fn check_url(url: Option<&str>, valid: bool) -> (r: Result<(), AppError>)
    ensures
        agrees(r, url_check(opt_view(url), valid)),
{
    match url {
        Some(u) => if !valid {
            let mut m = chars_of("Invalid URL: ");
            push_str(&mut m, u);
            Err(invalid_argument(m))
        } else {
            Ok(())
        },
        None => Ok(()),
    }
}

fn repeat_args(repeat: Option<&str>, count: Option<u32>, interval: Option<u32>) -> (r: Result<
    (),
    AppError,
>)
    ensures
        agrees(r, repeat_args_check(opt_view(repeat), count, interval)),
{
    if let Some(f) = repeat {
        match recurrence_frequency_from_str(f) {
            Ok(_) => {},
            Err(e) => return Err(e),
        }
    }
    validate_repeat_configuration(repeat, count, interval)
}

fn text_error(v: &str) -> (r: AppError)
    ensures
        r.is((ErrorKind::InvalidDate, v@)),
{
    AppError::InvalidDate(string_from_chars(&chars_of(v)))
}

fn date_opt(s: Option<&str>, today: Date) -> (r: Result<Option<Date>, AppError>)
    requires
        today.valid(),
    ensures
        agrees(r, opt_date_check(opt_view(s), today)),
        r matches Ok(Some(d)) ==> d.valid(),
{
    match s {
        Some(v) => match parse_date_at(v, today) {
            Some(d) => Ok(Some(d)),
            None => Err(text_error(v)),
        },
        None => Ok(None),
    }
}

fn all_day_opt(s: Option<&str>, today: Date) -> (r: Result<Option<Date>, AppError>)
    requires
        today.valid(),
    ensures
        agrees(r, opt_all_day_check(opt_view(s), today)),
{
    match s {
        Some(v) => match parse_all_day_date_at(v, today) {
            Some(d) => Ok(Some(d)),
            None => Err(text_error(v)),
        },
        None => Ok(None),
    }
}

fn datetime_opt(s: Option<&str>, now: Moment) -> (r: Result<Option<DateTime>, AppError>)
    ensures
        agrees(r, opt_datetime_check(opt_view(s), now)),
        r matches Ok(Some(d)) ==> d.valid(),
{
    match s {
        Some(v) => match parse_datetime_at(v, now) {
            Some(d) => Ok(Some(d)),
            None => Err(text_error(v)),
        },
        None => Ok(None),
    }
}

fn timed_range(start: &str, end: &str, now: Moment) -> (r: Result<(), AppError>)
    ensures
        agrees(r, timed_range_check(start@, end@, now)),
{
    let s = match datetime_opt(Some(start), now) {
        Ok(Some(d)) => d,
        Ok(None) => return Ok(()),
        Err(e) => return Err(e),
    };
    let e = match datetime_opt(Some(end), now) {
        Ok(Some(d)) => d,
        Ok(None) => return Ok(()),
        Err(err) => return Err(err),
    };
    if e.total_secs() <= s.total_secs() {
        return Err(invalid_date_str("end time must be after start time"));
    }
    Ok(())
}

fn all_day_range(start: &str, end: &str, today: Date, message: &str) -> (r: Result<(), AppError>)
    requires
        today.valid(),
    ensures
        agrees(r, all_day_range_check(start@, end@, today, message@)),
{
    let s = match all_day_opt(Some(start), today) {
        Ok(Some(d)) => d,
        Ok(None) => return Ok(()),
        Err(e) => return Err(e),
    };
    let e = match all_day_opt(Some(end), today) {
        Ok(Some(d)) => d,
        Ok(None) => return Ok(()),
        Err(err) => return Err(err),
    };
    if e.days < s.days {
        return Err(invalid_date_str(message));
    }
    Ok(())
}

fn update_range(all_day: Option<bool>, start: Option<&str>, end: Option<&str>, now: Moment) -> (r:
    Result<(), AppError>)
    requires
        now.wf(),
    ensures
        agrees(r, update_range_check(all_day, opt_view(start), opt_view(end), now)),
{
    let today = now.date_naive();
    if all_day == Some(true) {
        let so = match all_day_opt(start, today) {
            Ok(o) => o,
            Err(e) => return Err(e),
        };
        let eo = match all_day_opt(end, today) {
            Ok(o) => o,
            Err(e) => return Err(e),
        };
        if let (Some(s), Some(e)) = (so, eo) {
            if e.days < s.days {
                return Err(invalid_date_str("end date must be on or after start date"));
            }
        }
        Ok(())
    } else {
        let so = match datetime_opt(start, now) {
            Ok(o) => o,
            Err(e) => return Err(e),
        };
        let eo = match datetime_opt(end, now) {
            Ok(o) => o,
            Err(e) => return Err(e),
        };
        if let (Some(s), Some(e)) = (so, eo) {
            if e.total_secs() <= s.total_secs() {
                return Err(invalid_date_str("end time must be after start time"));
            }
        }
        Ok(())
    }
}

fn date_window(from: Option<&str>, to: Option<&str>, today: Date, span: i32) -> (r: Result<
    (),
    AppError,
>)
    requires
        today.valid(),
        0 <= span <= 7,
        to is None ==> match opt_date_check(opt_view(from), today) {
            Ok(Some(d)) => d.days + span <= MAX_CE,
            Ok(None) => today.days + span <= MAX_CE,
            Err(_) => true,
        },
    ensures
        agrees(r, date_window_check(opt_view(from), opt_view(to), today, span as int)),
{
    let fd = match date_opt(from, today) {
        Ok(Some(d)) => d,
        Ok(None) => today,
        Err(e) => return Err(e),
    };
    let td = match date_opt(to, today) {
        Ok(Some(d)) => d,
        Ok(None) => Date { days: fd.days + span },
        Err(e) => return Err(e),
    };
    validate_range(fd, td)
}

fn range(from: Option<&str>, to: Option<&str>, today: Date) -> (r: Result<(), AppError>)
    requires
        search_range_in_bounds(opt_view(from), opt_view(to), today),
    ensures
        agrees(r, range_check(opt_view(from), opt_view(to), today)),
{
    match resolve_search_range(from, to, today) {
        Ok(_) => Ok(()),
        Err(e) => Err(e),
    }
}

fn query_range(query: Option<&str>, from: Option<&str>, to: Option<&str>, today: Date) -> (r: Result<
    (),
    AppError,
>)
    requires
        today.valid(),
        query is Some ==> search_range_in_bounds(opt_view(from), opt_view(to), today),
    ensures
        agrees(r, query_check(opt_view(query), opt_view(from), opt_view(to), today)),
{
    match query {
        Some(q) => {
            match nonempty(q, "--query") {
                Err(e) => return Err(e),
                Ok(()) => {},
            }
            range(from, to, today)
        },
        None => Ok(()),
    }
}

fn flexible(v: Option<&str>, now: Moment) -> (r: Result<(), AppError>)
    requires
        now.wf(),
    ensures
        agrees(r, flexible_check(opt_view(v), now)),
{
    match v {
        Some(x) => {
            if parse_datetime_at(x, now).is_some() || parse_all_day_date_at(x, now.date_naive()).is_some() {
                Ok(())
            } else {
                Err(text_error(x))
            }
        },
        None => Ok(()),
    }
}

fn free_window(after: Option<&str>, before: Option<&str>) -> (r: Result<(), AppError>)
    ensures
        agrees(r, free_window_check(opt_view(after), opt_view(before))),
{
    let at = match after {
        Some(a) => match parse_hhmm_validate(a) {
            Ok(t) => Some(t),
            Err(e) => return Err(e),
        },
        None => None,
    };
    let bt = match before {
        Some(b) => match parse_hhmm_validate(b) {
            Ok(t) => Some(t),
            Err(e) => return Err(e),
        },
        None => None,
    };
    validate_time_window(at, bt)
}

fn filter_opts(sort: Option<&str>, after: Option<&str>, before: Option<&str>) -> (r: Result<
    (),
    AppError,
>)
    ensures
        agrees(r, opts_check(opt_view(after), opt_view(before), opt_view(sort))),
{
    let mut opts = DisplayOpts::new();
    opts.sort = sort;
    opts.after = after;
    opts.before = before;
    validate_opts(&opts)
}

fn check_fields(cli: &Cli, stdout_is_terminal: bool) -> (r: Result<(), AppError>)
    ensures
        agrees(r, fields_check(*cli, stdout_is_terminal)),
{
    let fields = match &cli.fields {
        Some(f) => f,
        None => return Ok(()),
    };
    if cli.output.resolve_for_stdout(stdout_is_terminal) == OutputFormat::Human {
        return Err(invalid_argument_str("--fields requires a structured output format"));
    }
    let supported = match &cli.command {
        Commands::Events { .. } | Commands::Today { .. } | Commands::Upcoming { .. }
        | Commands::Search { .. } | Commands::Next { .. } | Commands::Conflicts { .. } => true,
        _ => false,
    };
    if !supported {
        return Err(
            invalid_argument_str(
                "--fields is only supported for events, today, upcoming, search, next, and conflicts",
            ),
        );
    }
    validate_field_list(fields.as_str())
}

/// What the checks before the calendar is opened decide: the `--fields` failure, then the
/// command's, and for `template add` whether the copy takes place.
pub open spec fn pre_validated(cli: Cli, env: CheckEnv, r: Result<(), AppError>) -> bool {
    match fields_check(cli, env.stdout_is_terminal) {
        Err(f) => r matches Err(e) && e.is(f),
        Ok(_) => match command_check(cli.command, env) {
            Err(f) => r matches Err(e) && e.is(f),
            Ok(_) => match cli.command {
                Commands::Template { command: TemplateCommand::Add { name, start, end, .. } } => {
                    let t = template_lookup(env.templates, name@)->Ok_0;
                    match r {
                        Ok(_) => exists|s: Moment, e: Moment|
                            instantiated(t.draft, Some(start@), opt_string(end), env.now, s, e),
                        Err(err) => instantiation_failed(
                            t.draft,
                            Some(start@),
                            opt_string(end),
                            env.now,
                            err,
                        ),
                    }
                },
                _ => r is Ok,
            },
        },
    }
}

/// The checks made on a command line before the calendar is opened: `--fields` first, then
/// the command's own arguments, in the order the command reads them.
#[verifier::spinoff_prover]
#[verifier::rlimit(50)]
pub fn pre_validate(cli: &Cli, env: CheckEnv) -> (r: Result<(), AppError>)
    requires
        check_in_bounds(*cli, env),
    ensures
        pre_validated(*cli, env, r),
{
    match check_fields(cli, env.stdout_is_terminal) {
        Err(e) => return Err(e),
        Ok(()) => {},
    }
    let now = env.now;
    let today = now.date_naive();
    match &cli.command {
        Commands::Agenda { calendar } => opt_nonempty(opt_str(calendar), "--calendar"),
        Commands::Events { from, to, calendar, sort, after, before, .. } => {
            match opt_nonempty(opt_str(calendar), "--calendar") {
                Err(e) => return Err(e),
                Ok(()) => {},
            }
            match filter_opts(opt_str(sort), opt_str(after), opt_str(before)) {
                Err(e) => return Err(e),
                Ok(()) => {},
            }
            date_window(opt_str(from), opt_str(to), today, 7)
        },
        Commands::Today { calendar, sort, after, before, .. }
        | Commands::Upcoming { calendar, sort, after, before, .. } => {
            match opt_nonempty(opt_str(calendar), "--calendar") {
                Err(e) => return Err(e),
                Ok(()) => {},
            }
            filter_opts(opt_str(sort), opt_str(after), opt_str(before))
        },
        Commands::Search { query, calendar, from, to, sort, after, before, .. } => {
            match nonempty(query.as_str(), "query") {
                Err(e) => return Err(e),
                Ok(()) => {},
            }
            match opt_nonempty(opt_str(calendar), "--calendar") {
                Err(e) => return Err(e),
                Ok(()) => {},
            }
            match filter_opts(opt_str(sort), opt_str(after), opt_str(before)) {
                Err(e) => return Err(e),
                Ok(()) => {},
            }
            range(opt_str(from), opt_str(to), today)
        },
        Commands::Add {
            title,
            start,
            end,
            calendar,
            all_day,
            repeat,
            repeat_count,
            repeat_interval,
            alert,
            url,
            ..
        } => {
            match pending(env.pending_undo) {
                Err(e) => return Err(e),
                Ok(()) => {},
            }
            match nonempty(title.as_str(), "--title") {
                Err(e) => return Err(e),
                Ok(()) => {},
            }
            match opt_nonempty(opt_str(calendar), "--calendar") {
                Err(e) => return Err(e),
                Ok(()) => {},
            }
            let times = if *all_day {
                all_day_range(start.as_str(), end.as_str(), today, "end date must be on or after start date")
            } else {
                timed_range(start.as_str(), end.as_str(), now)
            };
            match times {
                Err(e) => return Err(e),
                Ok(()) => {},
            }
            match repeat_args(opt_str(repeat), *repeat_count, *repeat_interval) {
                Err(e) => return Err(e),
                Ok(()) => {},
            }
            match validate_alert_minutes(alert.as_slice()) {
                Err(e) => return Err(e),
                Ok(()) => {},
            }
            check_url(opt_str(url), env.url_valid)
        },
        Commands::Update {
            event_id,
            title,
            start,
            end,
            all_day,
            query,
            in_calendar,
            from,
            to,
            location,
            clear_location,
            url,
            clear_url,
            notes,
            clear_notes,
            alert,
            clear_alerts,
            calendar,
            ..
        } => {
            match pending(env.pending_undo) {
                Err(e) => return Err(e),
                Ok(()) => {},
            }
            match opt_nonempty(opt_str(event_id), "EVENT_ID") {
                Err(e) => return Err(e),
                Ok(()) => {},
            }
            match opt_nonempty(opt_str(in_calendar), "--in-calendar") {
                Err(e) => return Err(e),
                Ok(()) => {},
            }
            match opt_nonempty(opt_str(calendar), "--calendar") {
                Err(e) => return Err(e),
                Ok(()) => {},
            }
            match opt_nonempty(opt_str(title), "--title") {
                Err(e) => return Err(e),
                Ok(()) => {},
            }
            match opt_nonempty(opt_str(query), "--query") {
                Err(e) => return Err(e),
                Ok(()) => {},
            }
            if !has_requested_changes(
                opt_str(title),
                opt_str(start),
                opt_str(end),
                opt_str(location),
                *clear_location,
                opt_str(url),
                *clear_url,
                opt_str(notes),
                *clear_notes,
                alert.len() > 0,
                *clear_alerts,
                opt_str(calendar),
                *all_day,
            ) {
                return Err(invalid_argument_str("No changes specified for update."));
            }
            match update_range(*all_day, opt_str(start), opt_str(end), now) {
                Err(e) => return Err(e),
                Ok(()) => {},
            }
            if query.is_some() {
                match range(opt_str(from), opt_str(to), today) {
                    Err(e) => return Err(e),
                    Ok(()) => {},
                }
            }
            if !*clear_alerts {
                match validate_alert_minutes(alert.as_slice()) {
                    Err(e) => return Err(e),
                    Ok(()) => {},
                }
            }
            if !*clear_url {
                return check_url(opt_str(url), env.url_valid);
            }
            Ok(())
        },
        Commands::Free { from, to, calendar, after, before, .. } => {
            match opt_nonempty(opt_str(calendar), "--calendar") {
                Err(e) => return Err(e),
                Ok(()) => {},
            }
            match date_window(opt_str(from), opt_str(to), today, 5) {
                Err(e) => return Err(e),
                Ok(()) => {},
            }
            free_window(opt_str(after), opt_str(before))
        },
        Commands::Conflicts { start, end, all_day, calendar, sort, .. } => {
            match opt_nonempty(opt_str(calendar), "--calendar") {
                Err(e) => return Err(e),
                Ok(()) => {},
            }
            match filter_opts(opt_str(sort), None, None) {
                Err(e) => return Err(e),
                Ok(()) => {},
            }
            if *all_day {
                all_day_range(start.as_str(), end.as_str(), today, "to date must be on or after from date")
            } else {
                timed_range(start.as_str(), end.as_str(), now)
            }
        },
        Commands::Show { event_id, query, in_calendar, from, to, .. } => {
            match opt_nonempty(opt_str(event_id), "EVENT_ID") {
                Err(e) => return Err(e),
                Ok(()) => {},
            }
            match opt_nonempty(opt_str(in_calendar), "--in-calendar") {
                Err(e) => return Err(e),
                Ok(()) => {},
            }
            query_range(opt_str(query), opt_str(from), opt_str(to), today)
        },
        Commands::Delete { event_id, query, in_calendar, from, to, dry_run, .. } => {
            if !*dry_run {
                match pending(env.pending_undo) {
                    Err(e) => return Err(e),
                    Ok(()) => {},
                }
            }
            match opt_nonempty(opt_str(event_id), "EVENT_ID") {
                Err(e) => return Err(e),
                Ok(()) => {},
            }
            match opt_nonempty(opt_str(in_calendar), "--in-calendar") {
                Err(e) => return Err(e),
                Ok(()) => {},
            }
            query_range(opt_str(query), opt_str(from), opt_str(to), today)
        },
        Commands::Next { calendar } => opt_nonempty(opt_str(calendar), "--calendar"),
        Commands::Duplicate { event_id, query, in_calendar, from, to, title, start, end, calendar, .. } => {
            match pending(env.pending_undo) {
                Err(e) => return Err(e),
                Ok(()) => {},
            }
            match opt_nonempty(opt_str(event_id), "EVENT_ID") {
                Err(e) => return Err(e),
                Ok(()) => {},
            }
            match opt_nonempty(opt_str(in_calendar), "--in-calendar") {
                Err(e) => return Err(e),
                Ok(()) => {},
            }
            match opt_nonempty(opt_str(calendar), "--calendar") {
                Err(e) => return Err(e),
                Ok(()) => {},
            }
            match query_range(opt_str(query), opt_str(from), opt_str(to), today) {
                Err(e) => return Err(e),
                Ok(()) => {},
            }
            match opt_nonempty(opt_str(title), "--title") {
                Err(e) => return Err(e),
                Ok(()) => {},
            }
            match flexible(opt_str(start), now) {
                Err(e) => return Err(e),
                Ok(()) => {},
            }
            flexible(opt_str(end), now)
        },
        Commands::Template { command } => match command {
            TemplateCommand::List => Ok(()),
            TemplateCommand::Show { name } | TemplateCommand::Delete { name } => nonempty(
                name.as_str(),
                "template name",
            ),
            TemplateCommand::Save { name, force, event_id, query, in_calendar, from, to, .. } => {
                match nonempty(name.as_str(), "template name") {
                    Err(e) => return Err(e),
                    Ok(()) => {},
                }
                if !*force {
                    match env.templates {
                        Err(e) => match e {
                            AppError::TemplateNotFound(_) => {},
                            other => return Err(other),
                        },
                        Ok(ts) => match get_template(ts, name.as_str()) {
                            Ok(_) => {
                                let mut m = chars_of("Template '");
                                push_str(&mut m, name.as_str());
                                push_str(&mut m, "' already exists. Use --force to overwrite.");
                                return Err(invalid_argument(m));
                            },
                            Err(_) => {},
                        },
                    }
                }
                match opt_nonempty(opt_str(event_id), "EVENT_ID") {
                    Err(e) => return Err(e),
                    Ok(()) => {},
                }
                match opt_nonempty(opt_str(in_calendar), "--in-calendar") {
                    Err(e) => return Err(e),
                    Ok(()) => {},
                }
                query_range(opt_str(query), opt_str(from), opt_str(to), today)
            },
            TemplateCommand::Add { name, title, start, end, calendar, .. } => {
                match pending(env.pending_undo) {
                    Err(e) => return Err(e),
                    Ok(()) => {},
                }
                match nonempty(name.as_str(), "template name") {
                    Err(e) => return Err(e),
                    Ok(()) => {},
                }
                match opt_nonempty(opt_str(title), "--title") {
                    Err(e) => return Err(e),
                    Ok(()) => {},
                }
                match opt_nonempty(opt_str(calendar), "--calendar") {
                    Err(e) => return Err(e),
                    Ok(()) => {},
                }
                match nonempty(start.as_str(), "--start") {
                    Err(e) => return Err(e),
                    Ok(()) => {},
                }
                let template = match env.templates {
                    Err(e) => return Err(e),
                    Ok(ts) => match get_template(ts, name.as_str()) {
                        Ok(t) => t,
                        Err(e) => return Err(e),
                    },
                };
                match resolve_instantiation_times(&template.draft, Some(start.as_str()), opt_str(end), now) {
                    Ok(_) => Ok(()),
                    Err(e) => Err(e),
                }
            },
        },
        _ => Ok(()),
    }
}

/// The store's recurrence scope for the command line's.
pub fn map_scope(scope: crate::cli::RecurrenceScope) -> (r: RecurrenceScope)
    ensures
        scope is This <==> r is This,
        scope is Future <==> r is Future,
{
    match scope {
        crate::cli::RecurrenceScope::This => RecurrenceScope::This,
        crate::cli::RecurrenceScope::Future => RecurrenceScope::Future,
    }
}

/// The command whose help a hint points at.
pub open spec fn help_path(c: Commands) -> Seq<char> {
    match c {
        Commands::Calendars => "calx calendars --help"@,
        Commands::Agenda { .. } => "calx agenda --help"@,
        Commands::Events { .. } => "calx events --help"@,
        Commands::Today { .. } => "calx today --help"@,
        Commands::Upcoming { .. } => "calx upcoming --help"@,
        Commands::Add { .. } => "calx add --help"@,
        Commands::Free { .. } => "calx free --help"@,
        Commands::Conflicts { .. } => "calx conflicts --help"@,
        Commands::Update { .. } => "calx update --help"@,
        Commands::Delete { .. } => "calx delete --help"@,
        Commands::Show { .. } => "calx show --help"@,
        Commands::Search { .. } => "calx search --help"@,
        Commands::Next { .. } => "calx next --help"@,
        Commands::Doctor => "calx doctor --help"@,
        Commands::Duplicate { .. } => "calx duplicate --help"@,
        Commands::Template { command } => match command {
            TemplateCommand::List => "calx template list --help"@,
            TemplateCommand::Show { .. } => "calx template show --help"@,
            TemplateCommand::Save { .. } => "calx template save --help"@,
            TemplateCommand::Delete { .. } => "calx template delete --help"@,
            TemplateCommand::Add { .. } => "calx template add --help"@,
        },
        Commands::Undo => "calx undo --help"@,
        Commands::Completions { .. } => "calx completions --help"@,
    }
}

fn text_of(s: &str) -> (r: String)
    ensures
        r@ == s@,
{
    string_from_chars(&chars_of(s))
}

/// The help command of a command.
pub fn command_help_path(command: &Commands) -> (r: String)
    ensures
        r@ == help_path(*command),
{
    match command {
        Commands::Calendars => text_of("calx calendars --help"),
        Commands::Agenda { .. } => text_of("calx agenda --help"),
        Commands::Events { .. } => text_of("calx events --help"),
        Commands::Today { .. } => text_of("calx today --help"),
        Commands::Upcoming { .. } => text_of("calx upcoming --help"),
        Commands::Add { .. } => text_of("calx add --help"),
        Commands::Free { .. } => text_of("calx free --help"),
        Commands::Conflicts { .. } => text_of("calx conflicts --help"),
        Commands::Update { .. } => text_of("calx update --help"),
        Commands::Delete { .. } => text_of("calx delete --help"),
        Commands::Show { .. } => text_of("calx show --help"),
        Commands::Search { .. } => text_of("calx search --help"),
        Commands::Next { .. } => text_of("calx next --help"),
        Commands::Doctor => text_of("calx doctor --help"),
        Commands::Duplicate { .. } => text_of("calx duplicate --help"),
        Commands::Template { command } => match command {
            TemplateCommand::List => text_of("calx template list --help"),
            TemplateCommand::Show { .. } => text_of("calx template show --help"),
            TemplateCommand::Save { .. } => text_of("calx template save --help"),
            TemplateCommand::Delete { .. } => text_of("calx template delete --help"),
            TemplateCommand::Add { .. } => text_of("calx template add --help"),
        },
        Commands::Undo => text_of("calx undo --help"),
        Commands::Completions { .. } => text_of("calx completions --help"),
    }
}

/// The hint that points at a command's help.
pub open spec fn help_hint_text(c: Commands) -> Seq<char> {
    "Run `"@ + help_path(c) + "` for usage and examples."@
}

/// Where to read more about the command that failed.
pub fn help_hint(cli: &Cli) -> (r: String)
    ensures
        r@ == help_hint_text(cli.command),
{
    let mut m = chars_of("Run `");
    let p = command_help_path(&cli.command);
    push_chars(&mut m, &chars_of(p.as_str()));
    push_str(&mut m, "` for usage and examples.");
    string_from_chars(&m)
}

/// An error as it is shown on a terminal: its title, why it happened, and a hint when there
/// is one, each on its own line.
pub open spec fn error_text(e: AppError, help: Seq<char>) -> Seq<char> {
    "Error: "@ + title_spec(e) + "\n  Why: "@ + why_spec(e) + "\n"@ + match hint_spec(e, help) {
        Some(h) => "  Hint: "@ + h + "\n"@,
        None => Seq::empty(),
    }
}

/// The text of an error report for a terminal.
pub fn render_error(error: &AppError, help: &str) -> (r: String)
    ensures
        r@ == error_text(*error, help@),
{
    let mut m = chars_of("Error: ");
    push_str(&mut m, error.title());
    push_str(&mut m, "\n  Why: ");
    let why = error.why();
    push_chars(&mut m, &chars_of(why.as_str()));
    push_str(&mut m, "\n");
    match error.hint(help) {
        Some(h) => {
            push_str(&mut m, "  Hint: ");
            push_chars(&mut m, &chars_of(h.as_str()));
            push_str(&mut m, "\n");
        },
        None => {},
    }
    string_from_chars(&m)
}

/// Whether a command line's dates stay clear of the ends of the calendar where the checks add
/// days to them.
pub fn bounds_hold(cli: &Cli, env: &CheckEnv) -> (r: bool)
    ensures
        r == check_in_bounds(*cli, *env),
{
    let now = env.now;
    if !now.is_wf() {
        return false;
    }
    let today = now.date_naive();
    match &cli.command {
        Commands::Events { from, to, .. } => to.is_some() || match date_opt(opt_str(from), today) {
            Ok(Some(d)) => d.days + 7 <= MAX_CE,
            Ok(None) => today.days + 7 <= MAX_CE,
            Err(_) => true,
        },
        Commands::Free { from, to, .. } => to.is_some() || match date_opt(opt_str(from), today) {
            Ok(Some(d)) => d.days + 5 <= MAX_CE,
            Ok(None) => today.days + 5 <= MAX_CE,
            Err(_) => true,
        },
        Commands::Search { from, to, .. } => search_range_bounds_hold(opt_str(from), opt_str(to), today),
        Commands::Update { query, from, to, .. } | Commands::Show { query, from, to, .. }
        | Commands::Delete { query, from, to, .. } | Commands::Duplicate { query, from, to, .. } =>
            query.is_none() || search_range_bounds_hold(opt_str(from), opt_str(to), today),
        Commands::Template { command } => match command {
            TemplateCommand::Save { query, from, to, .. } => query.is_none()
                || search_range_bounds_hold(opt_str(from), opt_str(to), today),
            TemplateCommand::Add { name, start, end, .. } => match &env.templates {
                Err(_) => true,
                Ok(ts) => match find_template(ts, name.as_str()) {
                    None => true,
                    Some(t) => instantiation_bounds_hold(&t.draft, Some(start.as_str()), opt_str(end), now),
                },
            },
            _ => true,
        },
        _ => true,
    }
}

/// The checks before the calendar is opened, or `None` when the command line's dates lie too
/// close to the ends of the calendar for them to apply.
pub fn validate_command(cli: &Cli, env: CheckEnv) -> (r: Option<Result<(), AppError>>)
    ensures
        r is None <==> !check_in_bounds(*cli, env),
        r matches Some(res) ==> pre_validated(*cli, env, res),
{
    if !bounds_hold(cli, &env) {
        return None;
    }
    Some(pre_validate(cli, env))
}

} // verus!
