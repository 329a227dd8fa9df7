use calx::cli::{Cli, Commands, OutputFormat, TemplateCommand};
use calx::error::AppError;
use calx::events::validate_field_list;
use calx::state::StoredTemplate;
use calx::store::EventDraft;
use calx::time::Moment;
use calx::validate::{help_hint, pre_validate, render_error, validate_command, CheckEnv};
use chrono::{Local, NaiveDate, TimeZone};

fn now() -> Moment {
    let n = Local::now();
    Moment { timestamp: n.timestamp(), offset: n.offset().local_minus_utc() }
}

fn env() -> CheckEnv {
    CheckEnv {
        now: now(),
        stdout_is_terminal: false,
        pending_undo: Ok(false),
        url_valid: true,
        templates: Ok(Vec::new()),
    }
}

fn cli_with(command: Commands, output: OutputFormat, fields: Option<&str>) -> Cli {
    Cli {
        command,
        output,
        verbose: false,
        fields: fields.map(|f| f.to_string()),
        no_header: false,
        no_color: false,
    }
}

/// The exit code and the terminal report of running the checks.
fn run_with(cli: &Cli, env: CheckEnv) -> (i32, String) {
    match validate_command(cli, env).expect("the command line stays inside the calendar") {
        Ok(()) => (0, String::new()),
        Err(e) => (e.exit_code(), render_error(&e, &help_hint(cli))),
    }
}

fn run(command: Commands) -> (i32, String) {
    run_with(&cli_with(command, OutputFormat::Auto, None), env())
}

fn s(v: &str) -> String {
    v.to_string()
}

fn some(v: &str) -> Option<String> {
    Some(v.to_string())
}

fn add(title: &str, start: &str, end: &str) -> Commands {
    Commands::Add {
        title: s(title),
        start: s(start),
        end: s(end),
        calendar: None,
        location: None,
        url: None,
        notes: None,
        all_day: false,
        repeat: None,
        repeat_count: None,
        repeat_interval: None,
        alert: Vec::new(),
        check_conflicts: false,
    }
}

fn update(event_id: Option<&str>) -> Commands {
    Commands::Update {
        event_id: event_id.map(s),
        query: None,
        exact: false,
        interactive: false,
        in_calendar: None,
        from: None,
        to: None,
        title: None,
        start: None,
        end: None,
        location: None,
        clear_location: false,
        url: None,
        clear_url: false,
        notes: None,
        clear_notes: false,
        alert: Vec::new(),
        clear_alerts: false,
        calendar: None,
        all_day: None,
        scope: None,
    }
}

fn search(query: &str) -> Commands {
    Commands::Search {
        query: s(query),
        exact: false,
        calendar: None,
        from: None,
        to: None,
        sort: None,
        limit: None,
        after: None,
        before: None,
    }
}

fn today() -> Commands {
    Commands::Today { calendar: None, sort: None, limit: None, after: None, before: None }
}

fn show(event_id: Option<&str>) -> Commands {
    Commands::Show {
        event_id: event_id.map(s),
        query: None,
        exact: false,
        interactive: false,
        in_calendar: None,
        from: None,
        to: None,
    }
}

fn delete(event_id: Option<&str>, dry_run: bool) -> Commands {
    Commands::Delete {
        event_id: event_id.map(s),
        query: None,
        exact: false,
        interactive: false,
        in_calendar: None,
        from: None,
        to: None,
        dry_run,
        scope: None,
    }
}

fn duplicate(event_id: Option<&str>) -> Commands {
    Commands::Duplicate {
        event_id: event_id.map(s),
        query: None,
        exact: false,
        interactive: false,
        in_calendar: None,
        from: None,
        to: None,
        title: None,
        start: None,
        end: None,
        calendar: None,
        keep_recurrence: false,
    }
}

fn free(from: Option<&str>, to: Option<&str>, after: Option<&str>, before: Option<&str>) -> Commands {
    Commands::Free {
        from: from.map(s),
        to: to.map(s),
        calendar: None,
        duration: 30,
        after: after.map(s),
        before: before.map(s),
        limit: None,
    }
}

#[test]
fn test_validate_field_list_rejects_unknown_field() {
    let err = validate_field_list("title,titel").unwrap_err();
    assert!(err.message().contains("Unknown field(s): titel"));
}

#[test]
fn test_validate_field_list_rejects_empty_field_name() {
    let err = validate_field_list("title,,start").unwrap_err();
    assert!(err.message().contains("--fields must be a comma-separated list of field names"));
}

#[test]
fn test_add_blank_title_rejected() {
    let (code, stderr) = run(add("", "2026-03-20 10:00", "2026-03-20 11:00"));
    assert_eq!(code, 4);
    assert!(stderr.contains("--title must not be empty"));
}

#[test]
fn test_add_end_before_start() {
    let (code, stderr) = run(add("Bad", "2026-03-20 15:00", "2026-03-20 14:00"));
    assert_ne!(code, 0);
    assert!(
        stderr.contains("end time must be after start") || stderr.contains("error"),
        "Should reject end < start: {stderr}"
    );
}

#[test]
fn test_add_rejects_zero_duration() {
    let (code, stderr) = run(add("Bad", "2026-03-20 15:00", "2026-03-20 15:00"));
    assert_ne!(code, 0);
    assert!(
        stderr.contains("end time must be after start"),
        "Should reject zero-duration timed event: {stderr}"
    );
}

#[test]
fn test_add_invalid_repeat_value() {
    let mut cmd = add("Bad", "2026-03-20 10:00", "2026-03-20 11:00");
    if let Commands::Add { ref mut repeat, .. } = cmd {
        *repeat = some("foo");
    }
    let (code, stderr) = run(cmd);
    assert_eq!(code, 4);
    assert!(
        stderr.contains("Unknown repeat frequency"),
        "Should reject invalid repeat value before calendar access: {stderr}"
    );
    assert!(
        !stderr.contains("EventKit"),
        "Invalid repeat should be reported as argument error: {stderr}"
    );
}

#[test]
fn test_add_repeat_count_requires_repeat() {
    let mut cmd = add("Bad", "2026-03-20 10:00", "2026-03-20 11:00");
    if let Commands::Add { ref mut repeat_count, .. } = cmd {
        *repeat_count = Some(5);
    }
    let (code, stderr) = run(cmd);
    assert_eq!(code, 4);
    assert!(stderr.contains("--repeat-count requires --repeat"));
}

#[test]
fn test_add_repeat_count_zero_rejected() {
    let mut cmd = add("Bad", "2026-03-20 10:00", "2026-03-20 11:00");
    if let Commands::Add { ref mut repeat, ref mut repeat_count, .. } = cmd {
        *repeat = some("weekly");
        *repeat_count = Some(0);
    }
    let (code, stderr) = run(cmd);
    assert_eq!(code, 4);
    assert!(stderr.contains("--repeat-count must be greater than 0"));
}

#[test]
fn test_add_repeat_interval_requires_repeat() {
    let mut cmd = add("Bad", "2026-03-20 10:00", "2026-03-20 11:00");
    if let Commands::Add { ref mut repeat_interval, .. } = cmd {
        *repeat_interval = Some(2);
    }
    let (code, stderr) = run(cmd);
    assert_eq!(code, 4);
    assert!(stderr.contains("--repeat-interval requires --repeat"));
}

#[test]
fn test_add_repeat_interval_zero_rejected() {
    let mut cmd = add("Bad", "2026-03-20 10:00", "2026-03-20 11:00");
    if let Commands::Add { ref mut repeat, ref mut repeat_interval, .. } = cmd {
        *repeat = some("weekly");
        *repeat_interval = Some(0);
    }
    let (code, stderr) = run(cmd);
    assert_eq!(code, 4);
    assert!(stderr.contains("--repeat-interval must be greater than 0"));
}

#[test]
fn test_add_negative_alert_rejected() {
    let mut cmd = add("Bad", "2026-03-20 10:00", "2026-03-20 11:00");
    if let Commands::Add { ref mut alert, .. } = cmd {
        *alert = vec![-10];
    }
    let (code, stderr) = run(cmd);
    assert_eq!(code, 4);
    assert!(stderr.contains("--alert expects minutes before the event"));
}

#[test]
fn test_add_invalid_url_rejected() {
    let mut cmd = add("Bad", "2026-03-20 10:00", "2026-03-20 11:00");
    if let Commands::Add { ref mut url, .. } = cmd {
        *url = some("http://[::1");
    }
    let mut e = env();
    e.url_valid = false;
    let (code, stderr) = run_with(&cli_with(cmd, OutputFormat::Auto, None), e);
    assert_eq!(code, 4);
    assert!(stderr.contains("Invalid URL"));
}

#[test]
fn test_add_all_day_rejects_time_input() {
    let mut cmd = add("All Day", "2026-03-20 10:00", "2026-03-20");
    if let Commands::Add { ref mut all_day, .. } = cmd {
        *all_day = true;
    }
    let (code, stderr) = run(cmd);
    assert_eq!(code, 4);
    assert!(stderr.contains("Invalid date"), "all-day add should reject time input: {stderr}");
}

#[test]
fn test_add_rejected_when_undo_is_pending() {
    let mut e = env();
    e.pending_undo = Ok(true);
    let cmd = add("Blocked", "2026-03-20 10:00", "2026-03-20 11:00");
    let (code, stderr) = run_with(&cli_with(cmd, OutputFormat::Auto, None), e);
    assert_eq!(code, 4);
    assert!(stderr.contains("Undo is already in progress"));
}

#[test]
fn test_verbose_flag_accepted() {
    let mut cli = cli_with(today(), OutputFormat::Auto, None);
    cli.verbose = true;
    let (_, stderr) = run_with(&cli, env());
    assert!(!stderr.contains("unexpected argument"));
}

#[test]
fn test_fields_flag_accepted() {
    let (code, stderr) = run_with(&cli_with(today(), OutputFormat::Json, Some("title,start")), env());
    assert!(
        code == 0 || code == 2,
        "structured --fields should parse and only fail on runtime access: {stderr}"
    );
    assert!(!stderr.contains("unexpected argument"));
    assert!(!stderr.contains("--fields requires"));
}

#[test]
fn test_search_calendar_flag_accepted() {
    let mut cmd = search("test");
    if let Commands::Search { ref mut calendar, .. } = cmd {
        *calendar = some("Work");
    }
    let (_, stderr) = run(cmd);
    assert!(!stderr.contains("unexpected argument"));
}

#[test]
fn test_search_exact_flag_accepted() {
    let mut cmd = search("test");
    if let Commands::Search { ref mut exact, .. } = cmd {
        *exact = true;
    }
    let (_, stderr) = run(cmd);
    assert!(!stderr.contains("unexpected argument"));
}

#[test]
fn test_fields_requires_structured_output() {
    let (code, stderr) = run_with(&cli_with(today(), OutputFormat::Human, Some("title,start")), env());
    assert_eq!(code, 4);
    assert!(stderr.contains("--fields requires a structured output format"));
}

#[test]
fn test_fields_allowed_with_auto_output_when_piped() {
    let (code, stderr) = run_with(&cli_with(today(), OutputFormat::Auto, Some("title,start")), env());
    assert!(
        code == 0 || code == 2,
        "auto output should resolve to structured output in non-TTY contexts: {stderr}"
    );
    assert!(!stderr.contains("--fields requires a structured output format"));
}

#[test]
fn test_fields_rejected_for_unsupported_command() {
    let (code, stderr) =
        run_with(&cli_with(Commands::Calendars, OutputFormat::Json, Some("title")), env());
    assert_eq!(code, 4);
    assert!(stderr.contains(
        "--fields is only supported for events, today, upcoming, search, next, and conflicts"
    ));
}

#[test]
fn test_fields_rejects_empty_field_name() {
    let (code, stderr) = run_with(&cli_with(today(), OutputFormat::Json, Some("title,,start")), env());
    assert_eq!(code, 4);
    assert!(stderr.contains("--fields must be a comma-separated list of field names"));
}

#[test]
fn test_fields_rejects_unknown_field_name() {
    let (code, stderr) = run_with(&cli_with(today(), OutputFormat::Json, Some("title,titel")), env());
    assert_eq!(code, 4);
    assert!(stderr.contains("Unknown field(s): titel"));
}

#[test]
fn test_doctor_rejects_fields_flag() {
    let (code, stderr) = run_with(&cli_with(Commands::Doctor, OutputFormat::Json, Some("title")), env());
    assert_eq!(code, 4);
    assert!(stderr.contains(
        "--fields is only supported for events, today, upcoming, search, next, and conflicts"
    ));
}

#[test]
fn test_conflicts_rejects_reversed_range() {
    let cmd = Commands::Conflicts {
        start: s("2026-03-20 15:00"),
        end: s("2026-03-20 14:00"),
        all_day: false,
        calendar: None,
        sort: None,
        limit: None,
    };
    let (code, stderr) = run(cmd);
    assert_eq!(code, 4);
    assert!(stderr.contains("end time must be after start time"));
}

#[test]
fn test_duplicate_blank_event_id_rejected() {
    let (code, stderr) = run(duplicate(Some("")));
    assert_eq!(code, 4);
    assert!(stderr.contains("EVENT_ID must not be empty"));
}

#[test]
fn test_duplicate_query_flags_accepted() {
    let mut cmd = duplicate(None);
    if let Commands::Duplicate { ref mut query, ref mut exact, ref mut in_calendar, ref mut start, .. } = cmd {
        *query = some("test");
        *exact = true;
        *in_calendar = some("Work");
        *start = some("2026-03-20 10:00");
    }
    let (_, stderr) = run(cmd);
    assert!(!stderr.contains("unexpected argument"));
}

#[test]
fn test_duplicate_invalid_start_is_local_error() {
    let mut cmd = duplicate(Some("fake-id"));
    if let Commands::Duplicate { ref mut start, .. } = cmd {
        *start = some("notadate");
    }
    let (code, stderr) = run(cmd);
    assert_eq!(code, 4);
    assert!(stderr.contains("Invalid date"));
}

#[test]
fn test_update_negative_alert_rejected() {
    let mut cmd = update(Some("fake-id"));
    if let Commands::Update { ref mut alert, .. } = cmd {
        *alert = vec![-10];
    }
    let (code, stderr) = run(cmd);
    assert_eq!(code, 4);
    assert!(stderr.contains("--alert expects minutes before the event"));
}

#[test]
fn test_update_clear_alerts_counts_as_change() {
    let mut cmd = update(Some("fake-id"));
    if let Commands::Update { ref mut clear_alerts, .. } = cmd {
        *clear_alerts = true;
    }
    let (code, stderr) = run(cmd);
    assert_ne!(code, 4, "clear-alerts should count as an update change: {stderr}");
}

#[test]
fn test_search_invalid_from_date() {
    let mut cmd = search("test");
    if let Commands::Search { ref mut from, .. } = cmd {
        *from = some("notadate");
    }
    let (code, stderr) = run(cmd);
    assert_ne!(code, 0);
    assert!(
        stderr.contains("Invalid date") || stderr.contains("error"),
        "search should reject invalid --from: {stderr}"
    );
}

#[test]
fn test_search_invalid_to_date() {
    let mut cmd = search("test");
    if let Commands::Search { ref mut to, .. } = cmd {
        *to = some("notadate");
    }
    let (code, stderr) = run(cmd);
    assert_ne!(code, 0);
    assert!(
        stderr.contains("Invalid date") || stderr.contains("error"),
        "search should reject invalid --to: {stderr}"
    );
}

#[test]
fn test_search_blank_query_rejected() {
    let (code, stderr) = run(search(""));
    assert_eq!(code, 4);
    assert!(stderr.contains("query must not be empty"));
}

#[test]
fn test_search_blank_calendar_rejected() {
    let mut cmd = search("test");
    if let Commands::Search { ref mut calendar, .. } = cmd {
        *calendar = some("");
    }
    let (code, stderr) = run(cmd);
    assert_eq!(code, 4);
    assert!(stderr.contains("--calendar must not be empty"));
}

#[test]
fn test_events_reversed_date_range() {
    let cmd = Commands::Events {
        from: some("2026-03-25"),
        to: some("2026-03-18"),
        calendar: None,
        sort: None,
        limit: None,
        after: None,
        before: None,
    };
    let (code, stderr) = run(cmd);
    assert_ne!(code, 0);
    assert!(
        stderr.contains("to date must be on or after from date"),
        "events should reject reversed date range: {stderr}"
    );
}

#[test]
fn test_search_reversed_date_range() {
    let mut cmd = search("test");
    if let Commands::Search { ref mut from, ref mut to, .. } = cmd {
        *from = some("2026-03-25");
        *to = some("2026-03-18");
    }
    let (code, stderr) = run(cmd);
    assert_ne!(code, 0);
    assert!(
        stderr.contains("to date must be on or after from date"),
        "search should reject reversed date range: {stderr}"
    );
}

#[test]
fn test_free_reversed_date_range() {
    let (code, stderr) = run(free(Some("2026-03-25"), Some("2026-03-18"), None, None));
    assert_ne!(code, 0);
    assert!(
        stderr.contains("to date must be on or after from date"),
        "free should reject reversed date range: {stderr}"
    );
}

#[test]
fn test_free_reversed_time_window() {
    let (code, stderr) = run(free(None, None, Some("17:00"), Some("09:00")));
    assert_ne!(code, 0);
    assert!(
        stderr.contains("--after must be earlier than --before"),
        "free should reject reversed time window: {stderr}"
    );
}

#[test]
fn test_update_invalid_start_date() {
    let mut cmd = update(Some("fake-id"));
    if let Commands::Update { ref mut start, .. } = cmd {
        *start = some("notadate");
    }
    let (code, stderr) = run(cmd);
    assert_ne!(code, 0);
    assert!(
        stderr.contains("Invalid date"),
        "update should reject invalid --start before calendar access: {stderr}"
    );
}

#[test]
fn test_update_without_changes_rejected() {
    let (code, stderr) = run(update(Some("fake-id")));
    assert_eq!(code, 4);
    assert!(stderr.contains("No changes specified for update."));
}

#[test]
fn test_update_blank_query_rejected() {
    let mut cmd = update(None);
    if let Commands::Update { ref mut query, ref mut title, .. } = cmd {
        *query = some("");
        *title = some("Renamed");
    }
    let (code, stderr) = run(cmd);
    assert_eq!(code, 4);
    assert!(stderr.contains("--query must not be empty"));
}

#[test]
fn test_update_blank_title_rejected() {
    let mut cmd = update(Some("fake-id"));
    if let Commands::Update { ref mut title, .. } = cmd {
        *title = some("");
    }
    let (code, stderr) = run(cmd);
    assert_eq!(code, 4);
    assert!(stderr.contains("--title must not be empty"));
}

#[test]
fn test_update_end_before_start() {
    let mut cmd = update(Some("fake-id"));
    if let Commands::Update { ref mut start, ref mut end, .. } = cmd {
        *start = some("2026-03-20 15:00");
        *end = some("2026-03-20 14:00");
    }
    let (code, stderr) = run(cmd);
    assert_ne!(code, 0);
    assert!(
        stderr.contains("end time must be after start"),
        "update should reject end < start before calendar access: {stderr}"
    );
}

#[test]
fn test_update_rejects_zero_duration() {
    let mut cmd = update(Some("fake-id"));
    if let Commands::Update { ref mut start, ref mut end, .. } = cmd {
        *start = some("2026-03-20 15:00");
        *end = some("2026-03-20 15:00");
    }
    let (code, stderr) = run(cmd);
    assert_ne!(code, 0);
    assert!(
        stderr.contains("end time must be after start"),
        "update should reject zero-duration timed event before calendar access: {stderr}"
    );
}

#[test]
fn test_update_all_day_rejects_time_input() {
    let mut cmd = update(Some("fake-id"));
    if let Commands::Update { ref mut all_day, ref mut start, .. } = cmd {
        *all_day = Some(true);
        *start = some("2026-03-20 10:00");
    }
    let (code, stderr) = run(cmd);
    assert_eq!(code, 4);
    assert!(
        stderr.contains("Invalid date"),
        "update --all-day should reject time input before calendar access: {stderr}"
    );
}

#[test]
fn test_update_invalid_url_rejected() {
    let mut cmd = update(Some("fake-id"));
    if let Commands::Update { ref mut url, .. } = cmd {
        *url = some("http://[::1");
    }
    let mut e = env();
    e.url_valid = false;
    let (code, stderr) = run_with(&cli_with(cmd, OutputFormat::Auto, None), e);
    assert_eq!(code, 4);
    assert!(stderr.contains("Invalid URL"));
}

#[test]
fn test_show_no_color_flag_accepted() {
    let mut cli = cli_with(show(Some("fake-id")), OutputFormat::Auto, None);
    cli.no_color = true;
    let (_, stderr) = run_with(&cli, env());
    assert!(!stderr.contains("unexpected argument"));
}

#[test]
fn test_show_query_exact_flag_accepted() {
    let mut cmd = show(None);
    if let Commands::Show { ref mut query, ref mut exact, .. } = cmd {
        *query = some("test");
        *exact = true;
    }
    let (_, stderr) = run(cmd);
    assert!(!stderr.contains("unexpected argument"));
}

#[test]
fn test_update_scope_flag_accepted() {
    let mut cmd = update(Some("fake-id"));
    if let Commands::Update { ref mut scope, .. } = cmd {
        *scope = Some(calx::cli::RecurrenceScope::Future);
    }
    let (_, stderr) = run(cmd);
    assert!(!stderr.contains("unexpected argument"));
}

#[test]
fn test_update_clear_flags_accepted() {
    let mut cmd = update(Some("fake-id"));
    if let Commands::Update {
        ref mut clear_location, ref mut clear_url, ref mut clear_notes, ..
    } = cmd
    {
        *clear_location = true;
        *clear_url = true;
        *clear_notes = true;
    }
    let (_, stderr) = run(cmd);
    assert!(!stderr.contains("unexpected argument"));
}

#[test]
fn test_delete_scope_flag_accepted() {
    let mut cmd = delete(Some("fake-id"), false);
    if let Commands::Delete { ref mut scope, .. } = cmd {
        *scope = Some(calx::cli::RecurrenceScope::This);
    }
    let (_, stderr) = run(cmd);
    assert!(!stderr.contains("unexpected argument"));
}

#[test]
fn test_show_query_flags_accepted() {
    let mut cmd = show(None);
    if let Commands::Show { ref mut query, ref mut in_calendar, .. } = cmd {
        *query = some("Test");
        *in_calendar = some("Work");
    }
    let (_, stderr) = run(cmd);
    assert!(!stderr.contains("unexpected argument"));
}

#[test]
fn test_update_query_flags_accepted() {
    let mut cmd = update(None);
    if let Commands::Update { ref mut query, ref mut in_calendar, ref mut title, .. } = cmd {
        *query = some("Test");
        *in_calendar = some("Work");
        *title = some("Renamed");
    }
    let (_, stderr) = run(cmd);
    assert!(!stderr.contains("unexpected argument"));
}

#[test]
fn test_delete_query_flags_accepted() {
    let mut cmd = delete(None, true);
    if let Commands::Delete { ref mut query, ref mut in_calendar, .. } = cmd {
        *query = some("Test");
        *in_calendar = some("Work");
    }
    let (_, stderr) = run(cmd);
    assert!(!stderr.contains("unexpected argument"));
}

#[test]
fn test_delete_blank_query_rejected() {
    let mut cmd = delete(None, true);
    if let Commands::Delete { ref mut query, .. } = cmd {
        *query = some("");
    }
    let (code, stderr) = run(cmd);
    assert_eq!(code, 4);
    assert!(stderr.contains("--query must not be empty"));
}

#[test]
fn test_delete_blank_event_id_rejected() {
    let (code, stderr) = run(delete(Some(""), true));
    assert_eq!(code, 4);
    assert!(stderr.contains("EVENT_ID must not be empty"));
}

#[test]
fn test_delete_blank_in_calendar_rejected() {
    let mut cmd = delete(None, true);
    if let Commands::Delete { ref mut query, ref mut in_calendar, .. } = cmd {
        *query = some("Test");
        *in_calendar = some("");
    }
    let (code, stderr) = run(cmd);
    assert_eq!(code, 4);
    assert!(stderr.contains("--in-calendar must not be empty"));
}

#[test]
fn test_show_query_invalid_from_date() {
    let mut cmd = show(None);
    if let Commands::Show { ref mut query, ref mut from, .. } = cmd {
        *query = some("Test");
        *from = some("notadate");
    }
    let (code, stderr) = run(cmd);
    assert_ne!(code, 0);
    assert!(stderr.contains("Invalid date"));
}

#[test]
fn test_show_blank_query_rejected() {
    let mut cmd = show(None);
    if let Commands::Show { ref mut query, .. } = cmd {
        *query = some("");
    }
    let (code, stderr) = run(cmd);
    assert_eq!(code, 4);
    assert!(stderr.contains("--query must not be empty"));
}

#[test]
fn test_show_blank_event_id_rejected() {
    let (code, stderr) = run(show(Some("")));
    assert_eq!(code, 4);
    assert!(stderr.contains("EVENT_ID must not be empty"));
}

#[test]
fn test_show_blank_in_calendar_rejected() {
    let mut cmd = show(None);
    if let Commands::Show { ref mut query, ref mut in_calendar, .. } = cmd {
        *query = some("Test");
        *in_calendar = some("");
    }
    let (code, stderr) = run(cmd);
    assert_eq!(code, 4);
    assert!(stderr.contains("--in-calendar must not be empty"));
}

#[test]
fn test_update_blank_event_id_rejected() {
    let mut cmd = update(Some(""));
    if let Commands::Update { ref mut title, .. } = cmd {
        *title = some("Renamed");
    }
    let (code, stderr) = run(cmd);
    assert_eq!(code, 4);
    assert!(stderr.contains("EVENT_ID must not be empty"));
}

#[test]
fn test_invalid_after_value() {
    let mut cmd = today();
    if let Commands::Today { ref mut after, .. } = cmd {
        *after = some("nottime");
    }
    let (code, stderr) = run(cmd);
    assert_ne!(code, 0);
    assert!(stderr.contains("Invalid date") || stderr.contains("--after"));
}

#[test]
fn test_invalid_before_value() {
    let mut cmd = today();
    if let Commands::Today { ref mut before, .. } = cmd {
        *before = some("xyz");
    }
    let (code, stderr) = run(cmd);
    assert_ne!(code, 0);
    assert!(stderr.contains("Invalid date") || stderr.contains("--before"));
}

#[test]
fn test_invalid_sort_value() {
    let mut cmd = today();
    if let Commands::Today { ref mut sort, .. } = cmd {
        *sort = some("nonsense");
    }
    let (code, stderr) = run(cmd);
    assert_ne!(code, 0);
    assert!(stderr.contains("Unknown sort key") || stderr.contains("error"));
}

#[test]
fn test_no_header_no_color_accepted() {
    let mut cli = cli_with(today(), OutputFormat::Auto, None);
    cli.no_header = true;
    cli.no_color = true;
    let (_, stderr) = run_with(&cli, env());
    assert!(!stderr.contains("unexpected argument"));
}

fn focus_template(name: &str) -> StoredTemplate {
    let local = |h: u32| {
        let dt = Local
            .from_local_datetime(&NaiveDate::from_ymd_opt(2026, 3, 20).unwrap().and_hms_opt(h, 0, 0).unwrap())
            .earliest()
            .unwrap();
        Moment { timestamp: dt.timestamp(), offset: dt.offset().local_minus_utc() }
    };
    StoredTemplate {
        name: name.to_string(),
        draft: EventDraft {
            title: "Focus Block".to_string(),
            start: local(9),
            end: local(10),
            calendar: "Work".to_string(),
            calendar_id: "cal-1".to_string(),
            location: None,
            url: Some("https://example.com/focus".to_string()),
            notes: Some("Deep work".to_string()),
            all_day: false,
            alerts: vec![10, 30],
            recurrence_rule: None,
        },
        saved_at: local(12),
    }
}

#[test]
fn test_template_add_missing_is_local_error() {
    let cmd = Commands::Template {
        command: TemplateCommand::Add {
            name: s("missing"),
            title: None,
            start: s("2026-03-20 11:00"),
            end: None,
            calendar: None,
            drop_recurrence: false,
        },
    };
    let (code, stderr) = run(cmd);
    assert_eq!(code, 3);
    assert!(stderr.contains("Template not found"));
}

#[test]
fn test_template_add_invalid_start_is_local_error() {
    let cmd = Commands::Template {
        command: TemplateCommand::Add {
            name: s("focus"),
            title: None,
            start: s("notadate"),
            end: None,
            calendar: None,
            drop_recurrence: false,
        },
    };
    let mut e = env();
    e.templates = Ok(vec![focus_template("focus")]);
    let (code, stderr) = run_with(&cli_with(cmd, OutputFormat::Auto, None), e);
    assert_eq!(code, 4);
    assert!(stderr.contains("Invalid date"));
}

#[test]
fn test_template_save_rejects_overwrite_without_force() {
    let cmd = Commands::Template {
        command: TemplateCommand::Save {
            name: s("focus"),
            force: false,
            event_id: some("fake-id"),
            query: None,
            exact: false,
            interactive: false,
            in_calendar: None,
            from: None,
            to: None,
        },
    };
    let mut e = env();
    e.templates = Ok(vec![focus_template("focus")]);
    let (code, stderr) = run_with(&cli_with(cmd, OutputFormat::Auto, None), e);
    assert_eq!(code, 4);
    assert!(stderr.contains("already exists"));
    assert!(stderr.contains("--force"));
}

#[test]
fn test_template_show_blank_name_rejected() {
    let cmd = Commands::Template { command: TemplateCommand::Show { name: s(" ") } };
    let (code, stderr) = run(cmd);
    assert_eq!(code, 4);
    assert!(stderr.contains("template name must not be empty"));
}

#[test]
fn test_pending_undo_read_error_is_reported() {
    let mut e = env();
    e.pending_undo = Err(AppError::Io("unreadable".to_string()));
    let cmd = add("Title", "2026-03-20 10:00", "2026-03-20 11:00");
    let (code, stderr) = run_with(&cli_with(cmd, OutputFormat::Auto, None), e);
    assert_eq!(code, 6);
    assert!(stderr.contains("unreadable"));
}

#[test]
fn test_delete_dry_run_ignores_pending_undo() {
    let mut e = env();
    e.pending_undo = Ok(true);
    let (code, _) = run_with(&cli_with(delete(Some("fake-id"), true), OutputFormat::Auto, None), e);
    assert_eq!(code, 0);
}

#[test]
fn test_all_day_add_accepts_one_day() {
    let mut cmd = add("Holiday", "2026-03-25", "2026-03-25");
    if let Commands::Add { ref mut all_day, .. } = cmd {
        *all_day = true;
    }
    let (code, stderr) = run(cmd);
    assert_eq!(code, 0, "{stderr}");
}

#[test]
fn test_render_error_shows_hint_with_help_command() {
    let cli = cli_with(search(""), OutputFormat::Auto, None);
    let err = pre_validate(&cli, env()).unwrap_err();
    let text = render_error(&err, &help_hint(&cli));
    assert_eq!(
        text,
        "Error: Invalid argument\n  Why: query must not be empty\n  Hint: Run `calx search --help` for usage and examples.\n"
    );
}

#[test]
fn test_pre_validate_and_validate_command_agree() {
    let cli = cli_with(add("  ", "2026-03-20 10:00", "2026-03-20 11:00"), OutputFormat::Json, None);
    let direct = pre_validate(&cli, env()).unwrap_err();
    let checked = validate_command(&cli, env()).unwrap().unwrap_err();
    assert_eq!(direct, checked);
    assert_eq!(checked.why(), "--title must not be empty");
}

#[test]
fn test_validate_command_declines_a_clock_outside_the_calendar() {
    let cli = cli_with(add("Sync", "2026-03-20 10:00", "2026-03-20 11:00"), OutputFormat::Json, None);
    let mut far = env();
    far.now = Moment { timestamp: i64::MAX, offset: 0 };
    assert!(validate_command(&cli, far).is_none());
}
