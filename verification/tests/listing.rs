use calx::agenda::{format_relative, ordered_agenda_events, split_agenda_events, summary_counts};
use calx::delete::{delete_undo_action, dry_run_description};
use calx::events::{
    arrange_events, selected_fields, event_display_state, event_matches_time_filters, format_duration,
    format_event_duration, pad_right, time_segment_overlaps, visible_events, DisplayOpts,
    EventDisplayState,
};
use calx::free::{format_slot_duration, parse_hhmm, validate_time_window};
use calx::next::select_next_event;
use calx::search::resolve_search_range;
use calx::state::UndoAction;
use calx::store::{EventDraft, EventInfo, RecurrenceScope};
use calx::time::{Date, Moment, Time};
use calx::duplicate::resolve_instantiation_times;
use chrono::{Datelike, Local, NaiveDate, TimeZone};

fn moment_of(dt: chrono::DateTime<Local>) -> Moment {
    Moment { timestamp: dt.timestamp(), offset: dt.offset().local_minus_utc() }
}

fn local_dt(year: i32, month: u32, day: u32, hour: u32, minute: u32) -> Moment {
    let naive = NaiveDate::from_ymd_opt(year, month, day).unwrap().and_hms_opt(hour, minute, 0).unwrap();
    moment_of(Local.from_local_datetime(&naive).earliest().unwrap())
}

fn date(year: i32, month: u32, day: u32) -> Date {
    Date { days: NaiveDate::from_ymd_opt(year, month, day).unwrap().num_days_from_ce() }
}

fn hm(hour: u32, minute: u32) -> Time {
    Time { secs: hour * 3600 + minute * 60 }
}

fn now() -> Moment {
    moment_of(Local::now())
}

fn today() -> Date {
    Date { days: Local::now().date_naive().num_days_from_ce() }
}

fn local_date(m: Moment) -> NaiveDate {
    chrono::DateTime::from_timestamp(m.timestamp, 0).unwrap().with_timezone(&Local).date_naive()
}

fn event(title: &str, start: Moment, end: Moment, all_day: bool) -> EventInfo {
    EventInfo {
        id: title.to_string(),
        title: title.to_string(),
        start,
        end,
        calendar: "Work".to_string(),
        calendar_id: "cal-1".to_string(),
        location: None,
        url: None,
        notes: None,
        all_day,
        status: "confirmed".to_string(),
        availability: "busy".to_string(),
        organizer: None,
        created: None,
        modified: None,
        recurring: false,
        recurrence: None,
        recurrence_rule: None,
        alerts: Vec::new(),
    }
}

fn make_event(title: &str) -> EventInfo {
    event(title, local_dt(2026, 3, 20, 14, 0), local_dt(2026, 3, 20, 15, 0), false)
}

#[test]
fn test_format_duration_minutes() {
    assert_eq!(format_duration(chrono::Duration::minutes(30).num_seconds()), "30m");
    assert_eq!(format_duration(chrono::Duration::minutes(5).num_seconds()), "5m");
    assert_eq!(format_duration(chrono::Duration::minutes(0).num_seconds()), "0m");
}

#[test]
fn test_format_duration_hours() {
    assert_eq!(format_duration(chrono::Duration::hours(1).num_seconds()), "1h");
    assert_eq!(format_duration(chrono::Duration::hours(3).num_seconds()), "3h");
}

#[test]
fn test_format_duration_mixed() {
    assert_eq!(format_duration(chrono::Duration::minutes(90).num_seconds()), "1h 30m");
    assert_eq!(format_duration(chrono::Duration::minutes(150).num_seconds()), "2h 30m");
}

#[test]
fn test_format_duration_negative_and_partial_minutes() {
    assert_eq!(format_duration(-90), "-1m");
    assert_eq!(format_duration(119), "1m");
}

#[test]
fn test_pad_right_ascii() {
    assert_eq!(pad_right("abc", 6), "abc   ");
    assert_eq!(pad_right("abc", 3), "abc");
    assert_eq!(pad_right("abc", 1), "abc");
}

#[test]
fn test_pad_right_cjk() {
    assert_eq!(pad_right("会議", 6), "会議  ");
    assert_eq!(pad_right("会議", 4), "会議");
}

#[test]
fn test_visible_events_filters_canceled() {
    let mut canceled = make_event("Canceled");
    canceled.status = "canceled".to_string();
    let visible = make_event("Visible");
    let events = visible_events(vec![canceled, visible.clone()]);
    assert_eq!(events.len(), 1);
    assert_eq!(events[0].title, visible.title);
}

#[test]
fn test_event_display_state_prefers_all_day_over_now() {
    let now = local_dt(2026, 3, 20, 12, 0);
    let e = event("Holiday", local_dt(2026, 3, 20, 0, 0), local_dt(2026, 3, 21, 0, 0), true);
    assert_eq!(event_display_state(&e, now), EventDisplayState::AllDay);
}

#[test]
fn test_event_display_state_past_now_upcoming() {
    let e = make_event("Meeting");
    assert_eq!(event_display_state(&e, local_dt(2026, 3, 20, 16, 0)), EventDisplayState::Past);
    assert_eq!(event_display_state(&e, local_dt(2026, 3, 20, 14, 30)), EventDisplayState::Now);
    assert_eq!(event_display_state(&e, local_dt(2026, 3, 20, 13, 0)), EventDisplayState::Upcoming);
}

#[test]
fn test_event_matches_time_filters_uses_overlap_after() {
    let e = event("Overlap", local_dt(2026, 3, 20, 8, 30), local_dt(2026, 3, 20, 10, 0), false);
    assert!(event_matches_time_filters(&e, Some(hm(9, 0)), None));
}

#[test]
fn test_event_matches_time_filters_uses_overlap_before() {
    let e = event("Overlap", local_dt(2026, 3, 20, 16, 30), local_dt(2026, 3, 20, 18, 30), false);
    assert!(event_matches_time_filters(&e, None, Some(hm(17, 0))));
}

#[test]
fn test_event_matches_time_filters_excludes_non_overlapping_event() {
    let e = event("Late", local_dt(2026, 3, 20, 18, 0), local_dt(2026, 3, 20, 19, 0), false);
    assert!(!event_matches_time_filters(&e, Some(hm(9, 0)), Some(hm(17, 0))));
}

#[test]
fn test_event_matches_time_filters_handles_cross_midnight_overlap() {
    let e = event("Overnight", local_dt(2026, 3, 20, 23, 30), local_dt(2026, 3, 21, 0, 15), false);
    assert!(event_matches_time_filters(&e, None, Some(hm(9, 0))));
    assert!(event_matches_time_filters(&e, Some(hm(22, 0)), None));
    assert!(!event_matches_time_filters(&e, Some(hm(1, 0)), Some(hm(22, 0))));
}

#[test]
fn test_time_segment_overlaps_is_half_open() {
    assert!(time_segment_overlaps(0, 10, 5, 20));
    assert!(!time_segment_overlaps(0, 10, 10, 20));
    assert!(!time_segment_overlaps(20, 30, 10, 20));
}

#[test]
fn test_arrange_events_sorts_filters_and_limits() {
    let mut canceled = make_event("Zed");
    canceled.status = "canceled".to_string();
    let b = event("Beta", local_dt(2026, 3, 20, 9, 0), local_dt(2026, 3, 20, 12, 0), false);
    let a = event("Alpha", local_dt(2026, 3, 20, 13, 0), local_dt(2026, 3, 20, 13, 30), false);
    let c = event("Gamma", local_dt(2026, 3, 20, 18, 0), local_dt(2026, 3, 20, 19, 0), false);
    let mut opts = DisplayOpts::new();
    opts.sort = Some("title");
    let titles = |v: Vec<EventInfo>| v.into_iter().map(|e| e.title).collect::<Vec<_>>();
    assert_eq!(
        titles(arrange_events(vec![canceled.clone(), b.clone(), a.clone(), c.clone()], &opts)),
        vec!["Alpha", "Beta", "Gamma"]
    );
    opts.sort = Some("duration");
    opts.limit = Some(2);
    assert_eq!(titles(arrange_events(vec![b.clone(), a.clone(), c.clone()], &opts)), vec!["Alpha", "Gamma"]);
    let mut window = DisplayOpts::new();
    window.before = Some("17:00");
    assert_eq!(titles(arrange_events(vec![b, a, c], &window)), vec!["Beta", "Alpha"]);
}

#[test]
fn test_format_event_duration_all_day_and_timed() {
    let e = event("Trip", local_dt(2026, 3, 20, 0, 0), local_dt(2026, 3, 23, 0, 0), true);
    assert_eq!(format_event_duration(&e), "3d");
    let same_day = event("Day", local_dt(2026, 3, 20, 0, 0), local_dt(2026, 3, 20, 0, 0), true);
    assert_eq!(format_event_duration(&same_day), "1d");
    assert_eq!(format_event_duration(&make_event("Meeting")), "1h");
}

#[test]
fn test_split_agenda_events_sorts_timed_events_by_start() {
    let late = event("Late", local_dt(2026, 3, 20, 15, 0), local_dt(2026, 3, 20, 16, 0), false);
    let early = event("Early", local_dt(2026, 3, 20, 9, 0), local_dt(2026, 3, 20, 10, 0), false);
    let all_day = event("Holiday", local_dt(2026, 3, 20, 0, 0), local_dt(2026, 3, 21, 0, 0), true);
    let events = vec![late, all_day.clone(), early.clone()];
    let (all_day_events, timed) = split_agenda_events(events);
    assert_eq!(all_day_events[0].title, all_day.title);
    assert_eq!(timed[0].title, early.title);
    assert_eq!(timed[1].title, "Late");
}

#[test]
fn test_split_agenda_events_keeps_non_canceled_events_orderable() {
    let mut canceled = event("Canceled", local_dt(2026, 3, 20, 8, 0), local_dt(2026, 3, 20, 9, 0), false);
    canceled.status = "canceled".to_string();
    let visible = event("Visible", local_dt(2026, 3, 20, 10, 0), local_dt(2026, 3, 20, 11, 0), false);
    let events: Vec<EventInfo> = vec![canceled, visible.clone()]
        .into_iter()
        .filter(|event| event.status != "canceled")
        .collect();
    let (_, timed) = split_agenda_events(events);
    assert_eq!(timed.len(), 1);
    assert_eq!(timed[0].title, visible.title);
}

#[test]
fn test_ordered_agenda_events_matches_human_order() {
    let late = event("Late", local_dt(2026, 3, 20, 15, 0), local_dt(2026, 3, 20, 16, 0), false);
    let early = event("Early", local_dt(2026, 3, 20, 9, 0), local_dt(2026, 3, 20, 10, 0), false);
    let all_day = event("Holiday", local_dt(2026, 3, 20, 0, 0), local_dt(2026, 3, 21, 0, 0), true);
    let ordered = ordered_agenda_events(vec![late, all_day, early]);
    let titles: Vec<&str> = ordered.iter().map(|event| event.title.as_str()).collect();
    assert_eq!(titles, vec!["Holiday", "Early", "Late"]);
}

#[test]
fn test_summary_counts_include_all_day_events() {
    let now = local_dt(2026, 3, 20, 10, 0);
    let all_day = event("Holiday", local_dt(2026, 3, 20, 0, 0), local_dt(2026, 3, 21, 0, 0), true);
    let done = event("Done", local_dt(2026, 3, 20, 8, 0), local_dt(2026, 3, 20, 9, 0), false);
    let upcoming = event("Upcoming", local_dt(2026, 3, 20, 11, 0), local_dt(2026, 3, 20, 12, 0), false);
    let (all_day_events, timed) = split_agenda_events(vec![all_day, done, upcoming]);
    let (all_day_count, done_count, remaining_count) = summary_counts(&all_day_events, &timed, now);
    assert_eq!(all_day_count, 1);
    assert_eq!(done_count, 1);
    assert_eq!(remaining_count, 1);
}

#[test]
fn test_format_relative_values() {
    assert_eq!(format_relative(45), "45m");
    assert_eq!(format_relative(120), "2h");
    assert_eq!(format_relative(75), "1h 15m");
}

#[test]
fn test_select_next_event_skips_canceled() {
    let now = local_dt(2026, 3, 20, 10, 30);
    let mut canceled = event("Canceled", local_dt(2026, 3, 20, 11, 0), local_dt(2026, 3, 20, 12, 0), false);
    canceled.status = "canceled".to_string();
    let confirmed = event("Confirmed", local_dt(2026, 3, 20, 12, 0), local_dt(2026, 3, 20, 13, 0), false);
    let events = vec![canceled, confirmed];
    let next = select_next_event(&events, now).expect("expected next event");
    assert_eq!(next.title, "Confirmed");
}

#[test]
fn test_select_next_event_ignores_current_event() {
    let now = local_dt(2026, 3, 20, 10, 30);
    let current = event("Current", local_dt(2026, 3, 20, 10, 0), local_dt(2026, 3, 20, 11, 0), false);
    let upcoming = event("Upcoming", local_dt(2026, 3, 20, 12, 0), local_dt(2026, 3, 20, 13, 0), false);
    let events = vec![current, upcoming];
    let next = select_next_event(&events, now).expect("expected next event");
    assert_eq!(next.title, "Upcoming");
}

#[test]
fn test_select_next_event_takes_first_of_ties_and_none_when_empty() {
    let now = local_dt(2026, 3, 20, 8, 0);
    let a = event("A", local_dt(2026, 3, 20, 9, 0), local_dt(2026, 3, 20, 10, 0), false);
    let b = event("B", local_dt(2026, 3, 20, 9, 0), local_dt(2026, 3, 20, 9, 30), false);
    let events = vec![a, b];
    assert_eq!(select_next_event(&events, now).unwrap().title, "A");
    assert!(select_next_event(&[], now).is_none());
}

#[test]
fn test_dry_run_description_formats_single_day_all_day_event() {
    let e = event("Holiday", local_dt(2026, 3, 20, 0, 0), local_dt(2026, 3, 21, 0, 0), true);
    assert_eq!(dry_run_description(&e), "Would delete: Holiday (2026-03-20 00:00 - 24:00)");
}

#[test]
fn test_dry_run_description_formats_multi_day_all_day_event() {
    let e = event("Trip", local_dt(2026, 3, 20, 0, 0), local_dt(2026, 3, 23, 0, 0), true);
    assert_eq!(dry_run_description(&e), "Would delete: Trip (2026-03-20 to 2026-03-22 00:00 - 24:00)");
}

#[test]
fn test_dry_run_description_formats_timed_event() {
    assert_eq!(dry_run_description(&make_event("Sync")), "Would delete: Sync (2026-03-20 14:00 - 15:00)");
}

fn draft(all_day: bool) -> EventDraft {
    let (start, end) = if all_day {
        (local_dt(2026, 3, 20, 0, 0), local_dt(2026, 3, 22, 0, 0))
    } else {
        (local_dt(2026, 3, 20, 9, 0), local_dt(2026, 3, 20, 10, 30))
    };
    EventDraft {
        title: if all_day { "Trip" } else { "Focus" }.to_string(),
        start,
        end,
        calendar: "Work".to_string(),
        calendar_id: "cal-1".to_string(),
        location: None,
        url: None,
        notes: None,
        all_day,
        alerts: if all_day { vec![] } else { vec![10] },
        recurrence_rule: None,
    }
}

#[test]
fn test_delete_undo_action_for_single_occurrence_is_unavailable() {
    match delete_undo_action(true, Some(RecurrenceScope::This), draft(false)) {
        UndoAction::Unavailable { reason } => {
            assert_eq!(reason, "single recurring occurrences cannot be restored safely")
        }
        _ => panic!("unexpected undo action"),
    }
    assert!(matches!(
        delete_undo_action(true, Some(RecurrenceScope::Future), draft(false)),
        UndoAction::RestoreDeleted { .. }
    ));
}

#[test]
fn test_resolve_instantiation_times_preserves_duration_for_timed_start_override() {
    let (start, end) = resolve_instantiation_times(&draft(false), Some("2026-03-21 13:00"), None, now()).unwrap();
    assert_eq!(start, local_dt(2026, 3, 21, 13, 0));
    assert_eq!(end, local_dt(2026, 3, 21, 14, 30));
}

#[test]
fn test_resolve_instantiation_times_preserves_all_day_span() {
    let (start, end) = resolve_instantiation_times(&draft(true), Some("2026-03-25"), None, now()).unwrap();
    assert_eq!(local_date(start), NaiveDate::from_ymd_opt(2026, 3, 25).unwrap());
    assert_eq!(local_date(end), NaiveDate::from_ymd_opt(2026, 3, 27).unwrap());
}

#[test]
fn test_resolve_instantiation_times_rejects_reversed_range() {
    let err = resolve_instantiation_times(&draft(false), Some("2026-03-21 13:00"), Some("2026-03-21 12:00"), now())
        .unwrap_err();
    assert_eq!(err.why(), "end time must be after start time");
    let err = resolve_instantiation_times(&draft(true), Some("2026-03-25"), Some("2026-03-24"), now()).unwrap_err();
    assert_eq!(err.why(), "end date must be on or after start date");
}

#[test]
fn test_validate_time_window_rejects_reversed_bounds() {
    assert!(validate_time_window(Some(hm(17, 0)), Some(hm(9, 0))).is_err());
}

#[test]
fn test_validate_time_window_rejects_equal_bounds() {
    assert!(validate_time_window(Some(hm(9, 0)), Some(hm(9, 0))).is_err());
}

#[test]
fn test_parse_hhmm_errors() {
    assert_eq!(parse_hhmm("09:30").unwrap(), hm(9, 30));
    assert_eq!(parse_hhmm("930").unwrap_err().why(), "930 (expects HH:MM)");
    assert_eq!(parse_hhmm("25:00").unwrap_err().why(), "25:00 (invalid time)");
}

#[test]
fn test_format_slot_duration_values() {
    assert_eq!(format_slot_duration(45), "45m");
    assert_eq!(format_slot_duration(60), "1h");
    assert_eq!(format_slot_duration(135), "2h 15m");
}

#[test]
fn test_resolve_search_range_defaults_around_today() {
    let t = today();
    let (from, to) = resolve_search_range(None, None, t).unwrap();
    assert_eq!(from.days, t.days - 30);
    assert_eq!(to.days, t.days + 90);
}

#[test]
fn test_resolve_search_range_with_only_from() {
    let (from, to) = resolve_search_range(Some("2026-03-20"), None, today()).unwrap();
    assert_eq!(from, date(2026, 3, 20));
    assert_eq!(to.days, from.days + 90);
}

#[test]
fn test_resolve_search_range_with_only_to() {
    let (from, to) = resolve_search_range(None, Some("2026-03-20"), today()).unwrap();
    assert_eq!(to, date(2026, 3, 20));
    assert_eq!(from.days, to.days - 30);
}

#[test]
fn test_sort_events_by_keys_keep_ties_in_order() {
    let mut a = event("Retro", local_dt(2026, 3, 20, 15, 0), local_dt(2026, 3, 20, 16, 30), false);
    a.calendar = "Work".to_string();
    let mut b = event("Lunch", local_dt(2026, 3, 20, 12, 0), local_dt(2026, 3, 20, 13, 0), false);
    b.calendar = "Home".to_string();
    let mut c = event("Lunch", local_dt(2026, 3, 20, 9, 0), local_dt(2026, 3, 20, 9, 15), false);
    c.calendar = "Alpha".to_string();
    let events = vec![a.clone(), b.clone(), c.clone()];
    let by = |key: &str| -> Vec<(String, String)> {
        calx::events::sort_events_by(events.clone(), key)
            .into_iter()
            .map(|e| (e.title, e.calendar))
            .collect()
    };
    let pair = |t: &str, cal: &str| (t.to_string(), cal.to_string());
    assert_eq!(by("title"), vec![pair("Lunch", "Home"), pair("Lunch", "Alpha"), pair("Retro", "Work")]);
    assert_eq!(by("start"), vec![pair("Lunch", "Alpha"), pair("Lunch", "Home"), pair("Retro", "Work")]);
    assert_eq!(by("calendar"), vec![pair("Lunch", "Alpha"), pair("Lunch", "Home"), pair("Retro", "Work")]);
    assert_eq!(by("duration"), vec![pair("Lunch", "Alpha"), pair("Lunch", "Home"), pair("Retro", "Work")]);
    assert_eq!(by("none"), vec![pair("Retro", "Work"), pair("Lunch", "Home"), pair("Lunch", "Alpha")]);
}

#[test]
fn test_selected_fields_keeps_requested_known_fields_in_order() {
    let available: Vec<String> = ["id", "title", "start", "end", "calendar"].iter().map(|s| s.to_string()).collect();
    assert_eq!(selected_fields(" title , id,location", &available), vec!["title".to_string(), "id".to_string()]);
    assert_eq!(selected_fields("notes", &available), Vec::<String>::new());
}
