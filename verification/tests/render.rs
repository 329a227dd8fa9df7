use calx::agenda::agenda_lines;
use calx::events::DisplayOpts;
use calx::listing::{event_lines, first_line_of};
use calx::state::StoredTemplate;
use calx::store::{
    alarm_minutes, availability_name, calendar_selected, check_event_times, conflicting_events,
    created_scope, day_bounds, recurrence_end_for_rule, recurrence_rule_info,
    recurrence_summary_text, status_name, update_dates, window_free_slots, Availability,
    EventDraft, EventInfo, EventStatus, Frequency, RecurrenceEnd, RecurrenceRuleInfo,
    RecurrenceScope, RuleEnd,
};
use calx::table::{checked_table_lines, table_lines};
use calx::template::show_lines;
use calx::time::{format_long_date, format_ymd, Date, DateTime, Moment, Time, MAX_CE, MIN_CE};
use chrono::{Datelike, Local, NaiveDate, TimeZone};

fn moment_of(dt: chrono::DateTime<Local>) -> Moment {
    Moment { timestamp: dt.timestamp(), offset: dt.offset().local_minus_utc() }
}

fn local_dt(year: i32, month: u32, day: u32, hour: u32, minute: u32) -> Moment {
    moment_of(Local.with_ymd_and_hms(year, month, day, hour, minute, 0).unwrap())
}

fn date(year: i32, month: u32, day: u32) -> Date {
    Date { days: NaiveDate::from_ymd_opt(year, month, day).unwrap().num_days_from_ce() }
}

fn naive(year: i32, month: u32, day: u32, hour: u32, minute: u32) -> DateTime {
    DateTime { date: date(year, month, day), time: Time { secs: hour * 3600 + minute * 60 } }
}

fn strings(v: &[&str]) -> Vec<String> {
    v.iter().map(|s| s.to_string()).collect()
}

fn event(title: &str, start: Moment, end: Moment, all_day: bool) -> EventInfo {
    EventInfo {
        id: format!("{title}-id"),
        title: title.to_string(),
        start,
        end,
        calendar: "Work".to_string(),
        calendar_id: "cal-1".to_string(),
        location: None,
        url: None,
        notes: None,
        all_day,
        status: "confirmed".to_string(),
        availability: "busy".to_string(),
        organizer: None,
        created: None,
        modified: None,
        recurring: false,
        recurrence: None,
        recurrence_rule: None,
        alerts: Vec::new(),
    }
}

fn pad(s: &str, width: usize) -> String {
    format!("{s:<width$}")
}

#[test]
fn test_table_lines_draws_borders_and_pads_wide_characters() {
    let keys = strings(&["name", "id"]);
    let rows = vec![strings(&["Work", "c1"]), strings(&["日本", "c22"])];
    let lines = table_lines(&keys, &rows);
    assert_eq!(
        lines,
        strings(&[
            "┌──────┬─────┐",
            "│ NAME │ ID  │",
            "├──────┼─────┤",
            "│ Work │ c1  │",
            "│ 日本 │ c22 │",
            "└──────┴─────┘",
        ])
    );
}

#[test]
fn test_table_lines_without_rows_draws_nothing() {
    let keys = strings(&["title"]);
    let lines = table_lines(&keys, &Vec::new());
    assert!(lines.is_empty());
}

#[test]
fn test_checked_table_lines_refuses_header_wider_than_column() {
    let keys = strings(&["straße"]);
    assert!(checked_table_lines(&keys, &vec![strings(&["x"])]).is_none());
    let lines = checked_table_lines(&keys, &vec![strings(&["longer!"])]).unwrap();
    assert_eq!(lines[1], "│ STRASSE │");
    assert_eq!(lines[3], "│ longer! │");
}

#[test]
fn test_event_lines_empty_listing() {
    let opts = DisplayOpts::new();
    assert_eq!(event_lines(&[], &opts, local_dt(2026, 3, 19, 12, 0)), strings(&["No events found."]));
}

#[test]
fn test_event_lines_plain_rows_with_header() {
    let mut opts = DisplayOpts::new();
    opts.no_color = true;
    let events = vec![
        event("Retro", local_dt(2026, 3, 18, 9, 0), local_dt(2026, 3, 18, 9, 30), false),
        event("Standup", local_dt(2026, 3, 20, 14, 0), local_dt(2026, 3, 20, 15, 0), false),
    ];
    let lines = event_lines(&events, &opts, local_dt(2026, 3, 19, 12, 0));
    let header = format!(
        "  {:>3}  {:<10}  {:<15}  {:<7}  {:<8}  DURATION",
        "#", "DATE", "TIME", "TITLE", "CALENDAR"
    );
    let first = format!(
        "  {:>3}  {}  {}  {}  {}  {}",
        1,
        "2026-03-18",
        pad("09:00 - 09:30", 15),
        pad("Retro", 7),
        pad("Work", 8),
        "30m"
    );
    let second = format!(
        "  {:>3}  {}  {}  {}  {}  {}",
        2,
        "2026-03-20",
        pad("14:00 - 15:00", 15),
        pad("Standup", 7),
        pad("Work", 8),
        "1h"
    );
    assert_eq!(lines, vec![header, first, second]);
}

#[test]
fn test_event_lines_all_day_without_header() {
    let mut opts = DisplayOpts::new();
    opts.no_color = true;
    opts.no_header = true;
    let events =
        vec![event("Holiday", local_dt(2026, 3, 20, 0, 0), local_dt(2026, 3, 22, 0, 0), true)];
    let lines = event_lines(&events, &opts, local_dt(2026, 3, 19, 12, 0));
    let row = format!(
        "  {:>3}  {}  {}  {}  {}  {}",
        1,
        "2026-03-20",
        pad("all day", 15),
        pad("Holiday", 7),
        pad("Work", 8),
        "2d"
    );
    assert_eq!(lines, vec![row]);
}

#[test]
fn test_first_line_of_takes_text_before_newline() {
    assert_eq!(first_line_of("Room 4\nsecond floor").into_iter().collect::<String>(), "Room 4");
    assert_eq!(first_line_of("").into_iter().collect::<String>(), "");
}

#[test]
fn test_agenda_lines_empty_day() {
    assert_eq!(
        agenda_lines(Vec::new(), local_dt(2026, 3, 20, 12, 0), true),
        strings(&["No events today."])
    );
}

#[test]
fn test_agenda_lines_shows_gaps_now_and_summary() {
    let mut lunch = event("Lunch", local_dt(2026, 3, 20, 11, 30), local_dt(2026, 3, 20, 12, 30), false);
    lunch.location = Some("Cafe\nFloor 2".to_string());
    let events = vec![
        event("Late", local_dt(2026, 3, 20, 15, 0), local_dt(2026, 3, 20, 16, 0), false),
        lunch,
        event("Holiday", local_dt(2026, 3, 20, 0, 0), local_dt(2026, 3, 21, 0, 0), true),
        event("Early", local_dt(2026, 3, 20, 9, 0), local_dt(2026, 3, 20, 10, 0), false),
    ];
    let lines = agenda_lines(events, local_dt(2026, 3, 20, 12, 0), true);
    assert_eq!(
        lines,
        strings(&[
            "Friday, March 20, 2026",
            "",
            "  ┄┄┄ all day ┄┄┄  Holiday  Work",
            "",
            "  ✓ 09:00 - 10:00  Early",
            "    ── 1h 30m gap ──",
            "  ▶ 11:30 - 12:30  Lunch  Work",
            "    ← now (30m left)",
            "    📍 Cafe",
            "    ── 2h 30m gap ──",
            "  · 15:00 - 16:00  Late  Work  in 3h",
            "",
            "1 all-day, 1 timed done, 2 timed remaining",
        ])
    );
}

#[test]
fn test_format_long_date_spells_weekday_and_month() {
    let text: String = format_long_date(date(2026, 3, 1)).into_iter().collect();
    assert_eq!(text, "Sunday, March 1, 2026");
    let text: String = format_long_date(date(2024, 12, 25)).into_iter().collect();
    assert_eq!(text, "Wednesday, December 25, 2024");
}

fn draft(all_day: bool, start: Moment, end: Moment) -> EventDraft {
    EventDraft {
        title: "Planning".to_string(),
        start,
        end,
        calendar: "Work".to_string(),
        calendar_id: "cal-1".to_string(),
        location: None,
        url: None,
        notes: None,
        all_day,
        alerts: Vec::new(),
        recurrence_rule: None,
    }
}

#[test]
fn test_show_lines_timed_template_with_details() {
    let mut d = draft(false, local_dt(2026, 3, 20, 9, 0), local_dt(2026, 3, 20, 10, 30));
    d.location = Some("Room 4".to_string());
    d.url = Some("https://example.com".to_string());
    d.notes = Some("Bring slides".to_string());
    d.alerts = vec![10, 60];
    d.recurrence_rule = Some(RecurrenceRuleInfo {
        frequency: "weekly".to_string(),
        interval: 2,
        count: Some(5),
        until: None,
    });
    let t = StoredTemplate { name: "plan".to_string(), draft: d, saved_at: local_dt(2026, 3, 19, 8, 0) };
    assert_eq!(
        show_lines(&t),
        strings(&[
            "Template: plan",
            "Title: Planning",
            "Calendar: Work",
            "When: 2026-03-20 09:00 -> 2026-03-20 10:30",
            "Location: Room 4",
            "URL: https://example.com",
            "Notes: Bring slides",
            "Alerts: 10m, 60m",
            "Repeat: every 2 weekly (5 times)",
        ])
    );
}

#[test]
fn test_show_lines_all_day_templates_use_inclusive_dates() {
    let one = draft(true, local_dt(2026, 3, 20, 0, 0), local_dt(2026, 3, 21, 0, 0));
    let t = StoredTemplate { name: "off".to_string(), draft: one, saved_at: local_dt(2026, 3, 19, 8, 0) };
    assert_eq!(show_lines(&t)[3], "When: 2026-03-20 (All Day)");
    let three = draft(true, local_dt(2026, 3, 20, 0, 0), local_dt(2026, 3, 23, 0, 0));
    let t = StoredTemplate { name: "trip".to_string(), draft: three, saved_at: local_dt(2026, 3, 19, 8, 0) };
    assert_eq!(show_lines(&t)[3], "When: 2026-03-20 to 2026-03-22 (All Day)");
}

#[test]
fn test_alarm_minutes_sorts_dedups_and_drops_negative_offsets() {
    assert_eq!(alarm_minutes(&[30, -5, 10, 30, 0]), vec![0, 10, 30]);
    assert_eq!(alarm_minutes(&[]), Vec::<i64>::new());
}

#[test]
fn test_recurrence_summary_text_variants() {
    assert_eq!(recurrence_summary_text(Some(Frequency::Weekly), 1, None), "Every week");
    assert_eq!(recurrence_summary_text(Some(Frequency::Daily), 3, None), "Every 3 days");
    assert_eq!(
        recurrence_summary_text(
            Some(Frequency::Monthly),
            2,
            Some(RecurrenceEnd { occurrences: 4, until: None })
        ),
        "Every 2 months for 4 occurrences"
    );
    assert_eq!(
        recurrence_summary_text(
            None,
            0,
            Some(RecurrenceEnd { occurrences: 0, until: Some(date(2026, 6, 30)) })
        ),
        "Every interval until 2026-06-30"
    );
}

#[test]
fn test_recurrence_rule_info_names_frequency_and_end() {
    let info = recurrence_rule_info(
        Some(Frequency::Yearly),
        0,
        Some(RecurrenceEnd { occurrences: 0, until: Some(date(2030, 1, 1)) }),
    );
    assert_eq!(info.frequency, "yearly");
    assert_eq!(info.interval, 1);
    assert_eq!(info.count, None);
    assert_eq!(info.until, Some(date(2030, 1, 1)));
    let info = recurrence_rule_info(None, 3, Some(RecurrenceEnd { occurrences: 6, until: None }));
    assert_eq!(info.frequency, "custom");
    assert_eq!(info.interval, 3);
    assert_eq!(info.count, Some(6));
}

#[test]
fn test_status_and_availability_names() {
    assert_eq!(status_name(EventStatus::Confirmed), "confirmed");
    assert_eq!(status_name(EventStatus::Tentative), "tentative");
    assert_eq!(status_name(EventStatus::Canceled), "canceled");
    assert_eq!(status_name(EventStatus::Other), "none");
    assert_eq!(availability_name(Availability::Busy), "busy");
    assert_eq!(availability_name(Availability::Free), "free");
    assert_eq!(availability_name(Availability::Tentative), "tentative");
    assert_eq!(availability_name(Availability::Unavailable), "unavailable");
    assert_eq!(availability_name(Availability::Other), "not supported");
}

#[test]
fn test_calendar_selected_by_title_or_id() {
    assert!(calendar_selected("Work", "cal-1", None));
    assert!(calendar_selected("Work", "cal-1", Some("Work")));
    assert!(calendar_selected("Work", "cal-1", Some("cal-1")));
    assert!(!calendar_selected("Work", "cal-1", Some("Home")));
}

#[test]
fn test_day_bounds_cover_whole_days() {
    let (a, b) = day_bounds(date(2026, 3, 20), date(2026, 3, 21)).unwrap();
    assert_eq!(a, local_dt(2026, 3, 20, 0, 0));
    assert_eq!(b.timestamp, local_dt(2026, 3, 21, 23, 59).timestamp + 59);
}

#[test]
fn test_conflicting_events_keeps_busy_overlaps_in_order() {
    let mut free = event("FYI", local_dt(2026, 3, 20, 10, 0), local_dt(2026, 3, 20, 11, 0), false);
    free.availability = "free".to_string();
    let events = vec![
        event("Before", local_dt(2026, 3, 20, 8, 0), local_dt(2026, 3, 20, 9, 0), false),
        event("Overlap", local_dt(2026, 3, 20, 9, 30), local_dt(2026, 3, 20, 10, 30), false),
        free,
        event("Inside", local_dt(2026, 3, 20, 10, 15), local_dt(2026, 3, 20, 10, 45), false),
    ];
    let hits = conflicting_events(events, local_dt(2026, 3, 20, 9, 0), local_dt(2026, 3, 20, 11, 0));
    let titles: Vec<&str> = hits.iter().map(|e| e.title.as_str()).collect();
    assert_eq!(titles, vec!["Overlap", "Inside"]);
}

#[test]
fn test_check_event_times_rejects_non_positive_timed_range() {
    let start = local_dt(2026, 3, 20, 10, 0);
    assert!(check_event_times(start, local_dt(2026, 3, 20, 11, 0), false).is_ok());
    let err = check_event_times(start, start, false).unwrap_err();
    assert_eq!(
        err.message(),
        "Invalid date: end time must be after start time. Use YYYY-MM-DD, YYYY-MM-DD HH:MM, or natural language"
    );
    assert!(check_event_times(start, start, true).is_ok());
}

#[test]
fn test_recurrence_end_for_rule_variants() {
    let counted = RecurrenceRuleInfo { frequency: "daily".to_string(), interval: 1, count: Some(3), until: None };
    assert!(matches!(recurrence_end_for_rule(&counted), Ok(Some(RuleEnd::Count(3)))));
    let open = RecurrenceRuleInfo { frequency: "daily".to_string(), interval: 1, count: None, until: None };
    assert!(matches!(recurrence_end_for_rule(&open), Ok(None)));
    let until = RecurrenceRuleInfo {
        frequency: "daily".to_string(),
        interval: 1,
        count: None,
        until: Some(date(2026, 4, 1)),
    };
    match recurrence_end_for_rule(&until) {
        Ok(Some(RuleEnd::Until(m))) => {
            assert_eq!(m.timestamp, local_dt(2026, 4, 1, 23, 59).timestamp + 59)
        }
        _ => panic!("expected an end date"),
    }
}

#[test]
fn test_created_scope_for_recurring_events() {
    assert!(matches!(created_scope(true), Some(RecurrenceScope::Future)));
    assert!(created_scope(false).is_none());
}

#[test]
fn test_update_dates_without_changes_is_none() {
    let start = local_dt(2026, 3, 20, 10, 0);
    let end = local_dt(2026, 3, 20, 11, 0);
    assert!(matches!(update_dates(false, start, end, None, None, None), Ok(None)));
}

#[test]
fn test_update_dates_moves_timed_start_and_end() {
    let start = local_dt(2026, 3, 20, 10, 0);
    let end = local_dt(2026, 3, 20, 11, 0);
    let (s, e) = update_dates(
        false,
        start,
        end,
        Some(naive(2026, 3, 21, 9, 0)),
        Some(naive(2026, 3, 21, 9, 45)),
        None,
    )
    .unwrap()
    .unwrap();
    assert_eq!(s, local_dt(2026, 3, 21, 9, 0));
    assert_eq!(e, local_dt(2026, 3, 21, 9, 45));
}

#[test]
fn test_update_dates_all_day_end_is_last_day_midnight() {
    let start = local_dt(2026, 3, 20, 10, 0);
    let end = local_dt(2026, 3, 20, 11, 0);
    let (s, e) = update_dates(
        false,
        start,
        end,
        Some(naive(2026, 3, 20, 0, 0)),
        Some(naive(2026, 3, 22, 0, 0)),
        Some(true),
    )
    .unwrap()
    .unwrap();
    assert_eq!(s, local_dt(2026, 3, 20, 0, 0));
    assert_eq!(e.timestamp, local_dt(2026, 3, 22, 0, 0).timestamp);
}

#[test]
fn test_update_dates_all_day_to_timed_needs_both_bounds() {
    let start = local_dt(2026, 3, 20, 0, 0);
    let end = local_dt(2026, 3, 21, 0, 0);
    let err = update_dates(true, start, end, Some(naive(2026, 3, 20, 9, 0)), None, Some(false))
        .unwrap_err();
    assert_eq!(
        err.message(),
        "Invalid argument: Converting an all-day event to a timed event requires both --start and --end."
    );
}

#[test]
fn test_free_slots_never_meet_busy_events() {
    let ws = local_dt(2026, 3, 20, 9, 0);
    let we = local_dt(2026, 3, 20, 17, 0);
    let events = vec![
        event("B", local_dt(2026, 3, 20, 13, 0), local_dt(2026, 3, 20, 14, 0), false),
        event("A", local_dt(2026, 3, 20, 10, 0), local_dt(2026, 3, 20, 11, 30), false),
        event("C", local_dt(2026, 3, 20, 11, 0), local_dt(2026, 3, 20, 12, 0), false),
    ];
    let slots = window_free_slots(&events, ws, we, 30);
    let spans: Vec<(Moment, Moment, u32)> = slots.iter().map(|s| (s.start, s.end, s.duration_mins)).collect();
    assert_eq!(
        spans,
        vec![
            (ws, local_dt(2026, 3, 20, 10, 0), 60),
            (local_dt(2026, 3, 20, 12, 0), local_dt(2026, 3, 20, 13, 0), 60),
            (local_dt(2026, 3, 20, 14, 0), we, 180),
        ]
    );
    for s in &slots {
        assert!(s.end.timestamp - s.start.timestamp >= 30 * 60);
        for e in &events {
            assert!(s.end.timestamp <= e.start.timestamp || e.end.timestamp <= s.start.timestamp);
        }
    }
}

#[test]
fn test_format_ymd_agrees_with_the_calendar() {
    let mut days: Vec<i32> = vec![MIN_CE, MIN_CE + 1, MAX_CE - 1, MAX_CE, 0, 1, -1, 59, 60, 365, 366];
    let mut d = -1_000_000;
    while d <= 1_000_000 {
        days.push(d);
        d += 997;
    }
    for y in [1600, 1700, 1900, 2000, 2024, 2026, 2100] {
        for (m, day) in [(1, 1), (2, 28), (2, 29), (3, 1), (12, 31)] {
            if let Some(nd) = NaiveDate::from_ymd_opt(y, m, day) {
                days.push(nd.num_days_from_ce());
            }
        }
    }
    for n in days {
        let text: String = format_ymd(Date { days: n }).into_iter().collect();
        let expected = NaiveDate::from_num_days_from_ce_opt(n).unwrap().format("%Y-%m-%d").to_string();
        assert_eq!(text, expected, "day {n}");
    }
}

#[test]
fn test_event_lines_without_color_hold_no_escape() {
    let mut opts = DisplayOpts::new();
    opts.no_color = true;
    opts.verbose = true;
    let now = local_dt(2026, 3, 20, 14, 30);
    let events = vec![
        event("Past", local_dt(2026, 3, 18, 9, 0), local_dt(2026, 3, 18, 9, 30), false),
        event("Now", local_dt(2026, 3, 20, 14, 0), local_dt(2026, 3, 20, 15, 0), false),
        event("Holiday", local_dt(2026, 3, 21, 0, 0), local_dt(2026, 3, 22, 0, 0), true),
        event("Later", local_dt(2026, 3, 25, 9, 0), local_dt(2026, 3, 25, 10, 0), false),
    ];
    let plain = event_lines(&events, &opts, now);
    assert_eq!(plain.len(), 5);
    assert!(plain.iter().all(|l| !l.contains('\x1b')));
    opts.no_color = false;
    let colored = event_lines(&events, &opts, now);
    assert!(colored.iter().any(|l| l.contains("\x1b[")));
}

#[test]
fn test_event_lines_no_header_drops_only_the_header() {
    let mut opts = DisplayOpts::new();
    opts.no_color = true;
    let now = local_dt(2026, 3, 19, 12, 0);
    let events = vec![
        event("Retro", local_dt(2026, 3, 18, 9, 0), local_dt(2026, 3, 18, 9, 30), false),
        event("Standup", local_dt(2026, 3, 20, 14, 0), local_dt(2026, 3, 20, 15, 0), false),
    ];
    let with_header = event_lines(&events, &opts, now);
    opts.no_header = true;
    let without = event_lines(&events, &opts, now);
    assert_eq!(with_header.len(), without.len() + 1);
    assert_eq!(&with_header[1..], &without[..]);
    assert!(with_header.iter().chain(without.iter()).all(|l| !l.contains("\x1b[")));
    assert_eq!(event_lines(&[], &opts, now), vec!["No events found.".to_string()]);
}
