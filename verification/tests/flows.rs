use calx::doctor::{doctor_lines, CalendarDiag};
use calx::error::AppError;
use calx::plan::{
    calendar_lines, conflict_warning_lines, created_undo_action, date_arg, event_range,
    event_window, slot_lines, update_bounds, update_undo_action, upcoming_window,
};
use calx::store::{EventDraft, FreeSlot, RecurrenceScope};
use calx::time::{Date, DateTime, Time};
use chrono::{Datelike, NaiveDate};
use calx::select::{
    event_lookup, parse_pick, pick_menu_lines, pick_prompt, pick_terminal_check,
    resolve_matches, EventLookup, MatchOutcome,
};
use calx::state::{find_template, StoredTemplate, UndoAction};
use calx::duplicate::{instantiate, instantiation_bounds_hold};
use calx::search::search_range_bounds_hold;
use calx::store::{CalendarInfo, EventInfo};
use calx::time::Moment;
use calx::undo::{
    finalize_failed_warning, restore_failed_warning, unavailable_undo_warning,
    undo_complete_text, undo_not_saved_warning, undo_plan,
};
use chrono::{Local, TimeZone};

fn local_dt(year: i32, month: u32, day: u32, hour: u32, minute: u32) -> Moment {
    let dt = Local.with_ymd_and_hms(year, month, day, hour, minute, 0).unwrap();
    Moment { timestamp: dt.timestamp(), offset: dt.offset().local_minus_utc() }
}

fn event(title: &str, start: Moment, end: Moment, all_day: bool) -> EventInfo {
    EventInfo {
        id: format!("{title}-id"),
        title: title.to_string(),
        start,
        end,
        calendar: "Work".to_string(),
        calendar_id: "cal-1".to_string(),
        location: None,
        url: None,
        notes: None,
        all_day,
        status: "confirmed".to_string(),
        availability: "busy".to_string(),
        organizer: None,
        created: None,
        modified: None,
        recurring: false,
        recurrence: None,
        recurrence_rule: None,
        alerts: Vec::new(),
    }
}

fn two_matches() -> Vec<EventInfo> {
    vec![
        event("Late", local_dt(2026, 3, 20, 15, 0), local_dt(2026, 3, 20, 16, 0), false),
        event("Early", local_dt(2026, 3, 20, 9, 0), local_dt(2026, 3, 20, 10, 0), false),
    ]
}

#[test]
fn test_event_lookup_needs_exactly_one_of_id_and_query() {
    assert!(matches!(event_lookup(Some("abc"), None), Ok(EventLookup::ById(id)) if id == "abc"));
    assert!(matches!(event_lookup(None, Some("sync")), Ok(EventLookup::ByQuery(q)) if q == "sync"));
    match event_lookup(Some("   "), None) {
        Err(e) => assert_eq!(e.why(), "EVENT_ID must not be empty"),
        _ => panic!("blank ID accepted"),
    }
    match event_lookup(Some("abc"), Some("sync")) {
        Err(e) => assert_eq!(e.why(), "Use either EVENT_ID or --query, not both."),
        _ => panic!("both accepted"),
    }
    match event_lookup(None, None) {
        Err(e) => assert_eq!(e.why(), "Provide EVENT_ID or --query."),
        _ => panic!("neither accepted"),
    }
}

#[test]
fn test_resolve_matches_none_one_and_many() {
    match resolve_matches(Vec::new(), "standup", false) {
        Err(e) => assert_eq!(e, AppError::EventNotFound("standup".to_string())),
        _ => panic!("no match accepted"),
    }
    let one = vec![event("Only", local_dt(2026, 3, 20, 9, 0), local_dt(2026, 3, 20, 10, 0), false)];
    assert!(matches!(resolve_matches(one, "only", false), Ok(MatchOutcome::Found(e)) if e.title == "Only"));
    match resolve_matches(two_matches(), "sync", true) {
        Ok(MatchOutcome::Choose(v)) => {
            let titles: Vec<&str> = v.iter().map(|e| e.title.as_str()).collect();
            assert_eq!(titles, vec!["Early", "Late"]);
        }
        _ => panic!("expected a menu"),
    }
    match resolve_matches(two_matches(), "sync", false) {
        Err(e) => assert_eq!(
            e.why(),
            "Query matched 2 events. Use -i to pick interactively, or narrow with --exact title/--in-calendar/--from/--to. Matches: Early [Work] 2026-03-20 09:00 (Early-id); Late [Work] 2026-03-20 15:00 (Late-id)"
        ),
        _ => panic!("ambiguous query accepted"),
    }
}

#[test]
fn test_resolve_matches_previews_at_most_five() {
    let many: Vec<EventInfo> = (0..7)
        .map(|i| event(&format!("E{i}"), local_dt(2026, 3, 20, 8 + i, 0), local_dt(2026, 3, 20, 8 + i, 30), false))
        .collect();
    match resolve_matches(many, "e", false) {
        Err(e) => {
            let why = e.why();
            assert!(why.starts_with("Query matched 7 events."));
            assert!(why.contains("E4 [Work]"));
            assert!(!why.contains("E5 [Work]"));
        }
        _ => panic!("ambiguous query accepted"),
    }
}

#[test]
fn test_pick_menu_and_prompt() {
    let events = vec![
        event("Early", local_dt(2026, 3, 20, 9, 0), local_dt(2026, 3, 20, 10, 0), false),
        event("Holiday", local_dt(2026, 3, 21, 0, 0), local_dt(2026, 3, 22, 0, 0), true),
    ];
    assert_eq!(
        pick_menu_lines(&events),
        vec![
            "Multiple events found. Pick one:".to_string(),
            String::new(),
            "    1)  2026-03-20 09:00 - 10:00  Early  (Work)".to_string(),
            "    2)  2026-03-21  [All Day]        Holiday  (Work)".to_string(),
        ]
    );
    assert_eq!(pick_prompt(2), "\nEnter number (1-2) or q to cancel: ");
}

#[test]
fn test_parse_pick_answers() {
    assert_eq!(parse_pick(" 2\n", 3).unwrap(), 1);
    assert_eq!(parse_pick("+1", 3).unwrap(), 0);
    assert_eq!(parse_pick("quit", 3).unwrap_err().why(), "Interactive selection cancelled.");
    assert_eq!(parse_pick("abc", 3).unwrap_err().why(), "Invalid number");
    assert_eq!(parse_pick("-1", 3).unwrap_err().why(), "Invalid number");
    assert_eq!(parse_pick("0", 3).unwrap_err().why(), "Number out of range: 0");
    assert_eq!(parse_pick("4", 3).unwrap_err().why(), "Number out of range: 4");
}

#[test]
fn test_pick_needs_a_terminal() {
    assert!(pick_terminal_check(true, true).is_ok());
    assert_eq!(
        pick_terminal_check(true, false).unwrap_err().why(),
        "Interactive selection requires a TTY. Narrow the query or omit -i."
    );
}

#[test]
fn test_undo_plan_names_and_unavailable_error() {
    let delete = UndoAction::DeleteCreated {
        event_id: "e1".to_string(),
        selected_start: local_dt(2026, 3, 20, 9, 0),
        scope: None,
    };
    assert_eq!(undo_plan(&delete).unwrap(), "delete_created");
    let gone = UndoAction::Unavailable { reason: "test fixture".to_string() };
    assert_eq!(
        undo_plan(&gone).unwrap_err().message(),
        "Invalid argument: Undo unavailable for the last action: test fixture"
    );
}

#[test]
fn test_undo_messages() {
    assert_eq!(undo_complete_text(Some("e1")), "Undo complete: e1");
    assert_eq!(undo_complete_text(None), "Undo complete.");
    let err = AppError::Io("disk full".to_string());
    assert_eq!(
        restore_failed_warning(&err),
        "Undo failed, and undo history could not be restored: I/O error: disk full"
    );
    assert_eq!(
        finalize_failed_warning(&err),
        "Undo succeeded, but pending undo state could not be cleared: I/O error: disk full"
    );
    assert_eq!(
        undo_not_saved_warning(&err),
        "Change succeeded, but undo history could not be saved: I/O error: disk full"
    );
    let gone = UndoAction::Unavailable { reason: "recurring".to_string() };
    assert_eq!(
        unavailable_undo_warning(&gone).unwrap(),
        "Change succeeded, but undo is unavailable: recurring"
    );
    let delete = UndoAction::DeleteCreated {
        event_id: "e1".to_string(),
        selected_start: local_dt(2026, 3, 20, 9, 0),
        scope: None,
    };
    assert!(unavailable_undo_warning(&delete).is_none());
}

#[test]
fn test_doctor_lines_without_access() {
    let lines = doctor_lines(&Err(AppError::AccessDenied), "UTC (+00:00)", &None, &Vec::new(), true);
    assert_eq!(
        lines,
        vec![
            "✗ Calendar access: Calendar access denied. Grant in System Settings > Privacy > Calendars."
                .to_string(),
            "✓ Timezone: UTC (+00:00)".to_string(),
        ]
    );
}

#[test]
fn test_doctor_lines_with_calendars() {
    let default = Some(CalendarInfo {
        id: "cal-1".to_string(),
        title: "Work".to_string(),
        source: "iCloud".to_string(),
    });
    let cals = vec![
        CalendarDiag {
            id: "cal-1".to_string(),
            title: "Work".to_string(),
            source: "iCloud".to_string(),
            writable: true,
        },
        CalendarDiag {
            id: "cal-2".to_string(),
            title: "Holidays".to_string(),
            source: "Other".to_string(),
            writable: false,
        },
    ];
    let lines = doctor_lines(&Ok(()), "JST (+09:00)", &default, &cals, true);
    assert_eq!(
        lines,
        vec![
            "✓ Calendar access: granted".to_string(),
            "✓ Timezone: JST (+09:00)".to_string(),
            "✓ Default calendar: Work  (iCloud)  cal-1".to_string(),
            String::new(),
            "Calendars (2):".to_string(),
            "  [rw] Work  (iCloud)  cal-1".to_string(),
            "  [ro] Holidays  (Other)  cal-2".to_string(),
        ]
    );
    let colored = doctor_lines(&Ok(()), "JST (+09:00)", &None, &Vec::new(), false);
    assert_eq!(colored[0], "\x1b[32m✓\x1b[0m Calendar access: \x1b[1mgranted\x1b[0m");
    assert_eq!(colored[2], "\x1b[31m✗\x1b[0m Default calendar: \x1b[1mnot set\x1b[0m");
}

fn day(year: i32, month: u32, d: u32) -> Date {
    Date { days: NaiveDate::from_ymd_opt(year, month, d).unwrap().num_days_from_ce() }
}

fn naive(year: i32, month: u32, d: u32, hour: u32, minute: u32) -> DateTime {
    DateTime { date: day(year, month, d), time: Time { secs: hour * 3600 + minute * 60 } }
}

#[test]
fn test_event_window_defaults_and_order() {
    let today = day(2026, 3, 20);
    assert_eq!(event_window(None, None, today, 7).unwrap(), (today, day(2026, 3, 27)));
    let from = day(2026, 4, 1);
    assert_eq!(event_window(Some(from), None, today, 5).unwrap(), (from, day(2026, 4, 6)));
    let err = event_window(Some(from), Some(day(2026, 3, 31)), today, 7).unwrap_err();
    assert_eq!(err.why(), "to date must be on or after from date");
    assert_eq!(upcoming_window(today, 3), (today, day(2026, 3, 23)));
}

#[test]
fn test_date_arg_reads_or_names_the_text() {
    let today = day(2026, 3, 20);
    assert_eq!(date_arg(Some("2026-04-02"), today).unwrap(), Some(day(2026, 4, 2)));
    assert_eq!(date_arg(None, today).unwrap(), None);
    assert_eq!(date_arg(Some("someday"), today).unwrap_err(), AppError::InvalidDate("someday".to_string()));
}

#[test]
fn test_event_range_all_day_and_timed() {
    let now = local_dt(2026, 3, 20, 12, 0);
    let (s, e) = event_range("2026-03-20", "2026-03-21", true, now).unwrap();
    assert_eq!(s, naive(2026, 3, 20, 0, 0));
    assert_eq!(e, naive(2026, 3, 22, 0, 0));
    assert_eq!(
        event_range("2026-03-21", "2026-03-20", true, now).unwrap_err().why(),
        "end date must be on or after start date"
    );
    let (s, e) = event_range("2026-03-20 14:00", "2026-03-20 15:30", false, now).unwrap();
    assert_eq!(s, naive(2026, 3, 20, 14, 0));
    assert_eq!(e, naive(2026, 3, 20, 15, 30));
    assert_eq!(
        event_range("2026-03-20 14:00", "2026-03-20 14:00", false, now).unwrap_err().why(),
        "end time must be after start time"
    );
    assert_eq!(
        event_range("nope", "2026-03-20 14:00", false, now).unwrap_err(),
        AppError::InvalidDate("nope".to_string())
    );
}

#[test]
fn test_update_bounds_reads_dates_for_all_day() {
    let now = local_dt(2026, 3, 20, 12, 0);
    let (s, e) = update_bounds(Some("2026-03-25"), None, Some(true), now).unwrap();
    assert_eq!(s, Some(naive(2026, 3, 25, 0, 0)));
    assert_eq!(e, None);
    let (s, e) = update_bounds(None, Some("2026-03-25 10:15"), None, now).unwrap();
    assert_eq!(s, None);
    assert_eq!(e, Some(naive(2026, 3, 25, 10, 15)));
    assert_eq!(
        update_bounds(Some("bad"), Some("worse"), None, now).unwrap_err(),
        AppError::InvalidDate("bad".to_string())
    );
}

fn sample_draft() -> EventDraft {
    EventDraft {
        title: "Planning".to_string(),
        start: local_dt(2026, 3, 20, 9, 0),
        end: local_dt(2026, 3, 20, 10, 0),
        calendar: "Work".to_string(),
        calendar_id: "cal-1".to_string(),
        location: None,
        url: None,
        notes: None,
        all_day: false,
        alerts: Vec::new(),
        recurrence_rule: None,
    }
}

#[test]
fn test_undo_actions_for_created_and_updated_events() {
    let mut ev = event("Weekly", local_dt(2026, 3, 20, 9, 0), local_dt(2026, 3, 20, 10, 0), false);
    ev.recurring = true;
    match created_undo_action(&ev) {
        UndoAction::DeleteCreated { event_id, selected_start, scope } => {
            assert_eq!(event_id, "Weekly-id");
            assert_eq!(selected_start, ev.start);
            assert!(matches!(scope, Some(RecurrenceScope::Future)));
        }
        _ => panic!("expected a delete"),
    }
    match update_undo_action(true, Some(RecurrenceScope::This), &ev, sample_draft()) {
        UndoAction::Unavailable { reason } => {
            assert_eq!(reason, "single recurring occurrences cannot be restored safely")
        }
        _ => panic!("expected unavailable"),
    }
    match update_undo_action(false, None, &ev, sample_draft()) {
        UndoAction::ReplaceWithDraft { current_event_id, current_scope, draft, .. } => {
            assert_eq!(current_event_id, "Weekly-id");
            assert!(matches!(current_scope, Some(RecurrenceScope::Future)));
            assert_eq!(draft.title, "Planning");
        }
        _ => panic!("expected a replace"),
    }
}

#[test]
fn test_slot_lines_plain_with_header() {
    let slots = vec![
        FreeSlot { start: local_dt(2026, 3, 20, 9, 0), end: local_dt(2026, 3, 20, 10, 30), duration_mins: 90 },
        FreeSlot { start: local_dt(2026, 3, 21, 14, 0), end: local_dt(2026, 3, 21, 17, 0), duration_mins: 180 },
    ];
    assert_eq!(
        slot_lines(&slots, true, false),
        vec![
            "    #  DATE        START  END    DURATION".to_string(),
            "    1  2026-03-20  09:00 - 10:30  1h 30m".to_string(),
            "    2  2026-03-21  14:00 - 17:00  3h".to_string(),
        ]
    );
    assert_eq!(slot_lines(&[], true, false), vec!["No free slots found.".to_string()]);
}

#[test]
fn test_calendar_lines_pad_titles_and_ids() {
    let cals = vec![
        CalendarInfo { id: "c1".to_string(), title: "Work".to_string(), source: "iCloud".to_string() },
        CalendarInfo { id: "c-22".to_string(), title: "Holidays".to_string(), source: "Other".to_string() },
    ];
    assert_eq!(
        calendar_lines(&cals, false, true, false),
        vec![
            "  TITLE     SOURCE".to_string(),
            "  Work      iCloud".to_string(),
            "  Holidays  Other".to_string(),
        ]
    );
    assert_eq!(
        calendar_lines(&cals, true, true, true),
        vec!["  Work      iCloud  c1  ".to_string(), "  Holidays  Other  c-22".to_string()]
    );
    assert_eq!(calendar_lines(&[], false, true, false), vec!["No calendars found.".to_string()]);
}

#[test]
fn test_conflict_warning_lines() {
    let events = vec![
        event("Sync", local_dt(2026, 3, 20, 14, 0), local_dt(2026, 3, 20, 15, 0), false),
        event("Trip", local_dt(2026, 3, 20, 0, 0), local_dt(2026, 3, 23, 0, 0), true),
        event("Holiday", local_dt(2026, 3, 20, 0, 0), local_dt(2026, 3, 21, 0, 0), true),
    ];
    assert_eq!(
        conflict_warning_lines(&events),
        vec![
            "Warning: 3 conflicting event(s) found:".to_string(),
            "  14:00 - 15:00 | Sync".to_string(),
            "  2026-03-20 to 2026-03-22 | Trip".to_string(),
            "  2026-03-20 | Holiday".to_string(),
            String::new(),
        ]
    );
}

fn stored(name: &str, title: &str) -> StoredTemplate {
    let mut d = sample_draft();
    d.title = title.to_string();
    StoredTemplate { name: name.to_string(), draft: d, saved_at: local_dt(2026, 3, 19, 8, 0) }
}

#[test]
fn test_find_template_takes_the_first_of_a_name() {
    let ts = vec![stored("b", "first b"), stored("a", "only a"), stored("b", "second b")];
    assert_eq!(find_template(&ts, "b").unwrap().draft.title, "first b");
    assert_eq!(find_template(&ts, "a").unwrap().draft.title, "only a");
    assert!(find_template(&ts, "c").is_none());
}

#[test]
fn test_instantiate_keeps_the_length_when_only_the_start_moves() {
    let draft = sample_draft();
    let now = local_dt(2026, 3, 20, 12, 0);
    assert!(instantiation_bounds_hold(&draft, Some("2026-04-01 10:00"), None, now));
    let (s, e) = instantiate(&draft, Some("2026-04-01 10:00"), None, now).unwrap().unwrap();
    assert_eq!(s, local_dt(2026, 4, 1, 10, 0));
    assert_eq!(e.timestamp - s.timestamp, 3600);
    let far = Moment { timestamp: i64::MAX, offset: 0 };
    assert!(!instantiation_bounds_hold(&draft, None, None, far));
    assert!(instantiate(&draft, None, None, far).is_none());
}

#[test]
fn test_search_range_bounds_hold_for_ordinary_dates() {
    let today = day(2026, 3, 20);
    assert!(search_range_bounds_hold(None, None, today));
    assert!(search_range_bounds_hold(Some("2026-01-01"), None, today));
    assert!(search_range_bounds_hold(None, Some("not a date"), today));
}
