use calx::error::AppError;
use calx::store::{
    blocked_interval_for_window, calculate_free_slots, current_all_day_end_date,
    event_blocks_schedule, event_conflicts_range, event_matches_query, eventkit_update_range,
    filter_search_matches, free_slots_at, search_matches, normalize_all_day_end, recurrence_frequency_from_str,
    recurrence_save_span, recurrence_spec_from_inputs, resolve_calendar_identifier,
    validate_alert_minutes, validate_all_day_transition, validate_repeat_configuration,
    validate_updated_time_range, window_free_slots, CalendarInfo, EventInfo, Frequency,
    RecurrenceScope, Span,
};
use calx::time::{Date, DateTime, Moment, Time};
use chrono::{Datelike, Local, NaiveDate, TimeZone};

fn moment_of(dt: chrono::DateTime<Local>) -> Moment {
    Moment { timestamp: dt.timestamp(), offset: dt.offset().local_minus_utc() }
}

fn local_dt(year: i32, month: u32, day: u32, hour: u32, minute: u32) -> Moment {
    let naive = NaiveDate::from_ymd_opt(year, month, day).unwrap().and_hms_opt(hour, minute, 0).unwrap();
    moment_of(Local.from_local_datetime(&naive).earliest().unwrap())
}

fn date(year: i32, month: u32, day: u32) -> Date {
    Date { days: NaiveDate::from_ymd_opt(year, month, day).unwrap().num_days_from_ce() }
}

fn naive(year: i32, month: u32, day: u32, hour: u32, minute: u32) -> DateTime {
    DateTime { date: date(year, month, day), time: Time { secs: hour * 3600 + minute * 60 } }
}

fn hm(hour: u32, minute: u32) -> Time {
    Time { secs: hour * 3600 + minute * 60 }
}

fn local_date(m: Moment) -> NaiveDate {
    chrono::DateTime::from_timestamp(m.timestamp, 0).unwrap().with_timezone(&Local).date_naive()
}

fn make_event(title: &str, calendar: &str, notes: Option<&str>) -> EventInfo {
    EventInfo {
        id: "event-1".to_string(),
        title: title.to_string(),
        start: local_dt(2026, 3, 20, 10, 0),
        end: local_dt(2026, 3, 20, 11, 0),
        calendar: calendar.to_string(),
        calendar_id: "cal-1".to_string(),
        location: Some("Room 1".to_string()),
        url: Some("https://example.com".to_string()),
        notes: notes.map(str::to_string),
        all_day: false,
        status: "confirmed".to_string(),
        availability: "busy".to_string(),
        organizer: None,
        created: None,
        modified: None,
        recurring: false,
        recurrence: None,
        recurrence_rule: None,
        alerts: Vec::new(),
    }
}

#[test]
fn test_validate_updated_time_range_rejects_start_after_current_end() {
    let current_start = local_dt(2026, 3, 20, 10, 0);
    let current_end = local_dt(2026, 3, 20, 11, 0);
    let new_start = naive(2026, 3, 20, 12, 0);
    let err = validate_updated_time_range(current_start, current_end, Some(new_start), None, false)
        .unwrap_err();
    assert!(matches!(err, AppError::InvalidDate(_)));
}

#[test]
fn test_resolve_calendar_identifier_prefers_exact_id() {
    let calendars = vec![
        CalendarInfo { id: "cal-1".to_string(), title: "Work".to_string(), source: "iCloud".to_string() },
        CalendarInfo { id: "cal-2".to_string(), title: "Work".to_string(), source: "Exchange".to_string() },
    ];
    assert_eq!(resolve_calendar_identifier("cal-2", &calendars).unwrap(), "cal-2");
}

#[test]
fn test_resolve_calendar_identifier_rejects_ambiguous_title() {
    let calendars = vec![
        CalendarInfo { id: "cal-1".to_string(), title: "Work".to_string(), source: "iCloud".to_string() },
        CalendarInfo { id: "cal-2".to_string(), title: "Work".to_string(), source: "Exchange".to_string() },
    ];
    let err = resolve_calendar_identifier("Work", &calendars).unwrap_err();
    assert!(matches!(err, AppError::InvalidArgument(_)));
}

#[test]
fn test_resolve_calendar_identifier_ambiguity_lists_matches() {
    let calendars = vec![
        CalendarInfo { id: "cal-1".to_string(), title: "Work".to_string(), source: "iCloud".to_string() },
        CalendarInfo { id: "cal-2".to_string(), title: "Work".to_string(), source: "Exchange".to_string() },
    ];
    let err = resolve_calendar_identifier("Work", &calendars).unwrap_err();
    assert_eq!(
        err,
        AppError::InvalidArgument(
            "Calendar name 'Work' is ambiguous. Use a calendar ID instead. Matches: Work [iCloud] (cal-1); Work [Exchange] (cal-2)"
                .to_string()
        )
    );
}

#[test]
fn test_resolve_calendar_identifier_by_unique_title_and_missing() {
    let calendars = vec![
        CalendarInfo { id: "cal-1".to_string(), title: "Work".to_string(), source: "iCloud".to_string() },
        CalendarInfo { id: "cal-2".to_string(), title: "Home".to_string(), source: "iCloud".to_string() },
    ];
    assert_eq!(resolve_calendar_identifier("Home", &calendars).unwrap(), "cal-2");
    assert_eq!(
        resolve_calendar_identifier("Gym", &calendars).unwrap_err(),
        AppError::CalendarNotFound("Gym".to_string())
    );
}

#[test]
fn test_filter_search_matches_skips_canceled_events() {
    let mut canceled = make_event("Review", "Work", None);
    canceled.status = "canceled".to_string();
    let visible = make_event("Review", "Work", None);
    let matches = filter_search_matches(vec![canceled, visible.clone()], "review", false);
    assert_eq!(matches.len(), 1);
    assert_eq!(matches[0].title, visible.title);
}

#[test]
fn test_validate_updated_time_range_rejects_end_before_current_start() {
    let current_start = local_dt(2026, 3, 20, 10, 0);
    let current_end = local_dt(2026, 3, 20, 11, 0);
    let new_end = naive(2026, 3, 20, 9, 0);
    let err = validate_updated_time_range(current_start, current_end, None, Some(new_end), false)
        .unwrap_err();
    assert!(matches!(err, AppError::InvalidDate(_)));
}

#[test]
fn test_validate_updated_time_range_normalizes_all_day_end_exclusive() {
    let current_start = local_dt(2026, 3, 20, 0, 0);
    let current_end = local_dt(2026, 3, 21, 0, 0);
    let new_end = naive(2026, 3, 22, 0, 0);
    let (updated_start, updated_end) =
        validate_updated_time_range(current_start, current_end, None, Some(new_end), true).unwrap();
    assert_eq!(local_date(updated_start), NaiveDate::from_ymd_opt(2026, 3, 20).unwrap());
    assert_eq!(local_date(updated_end), NaiveDate::from_ymd_opt(2026, 3, 23).unwrap());
}

#[test]
fn test_validate_updated_time_range_rejects_timed_values_for_all_day() {
    let current_start = local_dt(2026, 3, 20, 0, 0);
    let current_end = local_dt(2026, 3, 21, 0, 0);
    let timed = naive(2026, 3, 22, 14, 0);
    let err = validate_updated_time_range(current_start, current_end, Some(timed), None, true)
        .unwrap_err();
    assert!(matches!(err, AppError::InvalidArgument(_)));
}

#[test]
fn test_validate_updated_time_range_keeps_current_bounds() {
    let current_start = local_dt(2026, 3, 20, 10, 0);
    let current_end = local_dt(2026, 3, 20, 11, 0);
    let (s, e) = validate_updated_time_range(current_start, current_end, None, None, false).unwrap();
    assert_eq!(s, current_start);
    assert_eq!(e, current_end);
}

#[test]
fn test_normalize_all_day_end_converts_inclusive_last_second() {
    let end = local_dt(2026, 3, 20, 23, 59);
    let end = Moment { timestamp: end.timestamp + 59, offset: end.offset };
    let normalized = normalize_all_day_end(end, true);
    assert_eq!(local_date(normalized), NaiveDate::from_ymd_opt(2026, 3, 21).unwrap());
    assert_eq!(normalized, local_dt(2026, 3, 21, 0, 0));
}

#[test]
fn test_normalize_all_day_end_leaves_timed_events() {
    let end = local_dt(2026, 3, 20, 23, 59);
    let end = Moment { timestamp: end.timestamp + 59, offset: end.offset };
    assert_eq!(normalize_all_day_end(end, false), end);
}

#[test]
fn test_event_matches_query_partial() {
    let event = make_event("Weekly Standup", "Work", Some("notes"));
    assert!(event_matches_query(&event, "stand", false));
    assert!(event_matches_query(&event, "room", false));
}

#[test]
fn test_event_matches_query_exact() {
    let event = make_event("Weekly Standup", "Work", Some("notes"));
    assert!(event_matches_query(&event, "weekly standup", true));
    assert!(!event_matches_query(&event, "stand", true));
    assert!(!event_matches_query(&event, "room 1", true));
}

#[test]
fn test_calculate_free_slots_blocks_all_day_events() {
    let day = date(2026, 3, 20);
    let mut event = make_event("PTO", "Work", None);
    event.all_day = true;
    event.start = local_dt(2026, 3, 20, 0, 0);
    event.end = local_dt(2026, 3, 21, 0, 0);
    let slots = calculate_free_slots(&[event], day, day, Some(hm(9, 0)), Some(hm(17, 0)), 30);
    assert!(slots.is_empty());
}

#[test]
fn test_calculate_free_slots_blocks_multi_day_all_day_events_each_day() {
    let mut event = make_event("Trip", "Work", None);
    event.all_day = true;
    event.start = local_dt(2026, 3, 20, 0, 0);
    event.end = local_dt(2026, 3, 22, 0, 0);
    let slots = calculate_free_slots(
        &[event],
        date(2026, 3, 20),
        date(2026, 3, 21),
        Some(hm(9, 0)),
        Some(hm(17, 0)),
        30,
    );
    assert!(slots.is_empty());
}

#[test]
fn test_event_blocks_schedule_ignores_canceled_and_free_events() {
    let mut canceled = make_event("Canceled", "Work", None);
    canceled.status = "canceled".to_string();
    assert!(!event_blocks_schedule(&canceled));
    let mut free = make_event("FYI", "Work", None);
    free.availability = "free".to_string();
    assert!(!event_blocks_schedule(&free));
    let busy = make_event("Busy", "Work", None);
    assert!(event_blocks_schedule(&busy));
}

#[test]
fn test_validate_all_day_transition_requires_both_bounds_when_disabling_all_day() {
    let start = naive(2026, 3, 20, 10, 0);
    assert!(validate_all_day_transition(true, false, Some(start), None).is_err());
    assert!(validate_all_day_transition(true, false, None, Some(start)).is_err());
    assert!(validate_all_day_transition(true, false, Some(start), Some(start)).is_ok());
    assert!(validate_all_day_transition(false, false, None, None).is_ok());
}

#[test]
fn test_event_conflicts_range_matches_all_day_overlap() {
    let mut event = make_event("PTO", "Work", None);
    event.all_day = true;
    event.start = local_dt(2026, 3, 20, 0, 0);
    event.end = local_dt(2026, 3, 21, 0, 0);
    assert!(event_conflicts_range(&event, local_dt(2026, 3, 20, 10, 0), local_dt(2026, 3, 20, 11, 0)));
}

#[test]
fn test_event_conflicts_range_skips_canceled_events() {
    let mut event = make_event("Canceled", "Work", None);
    event.status = "canceled".to_string();
    assert!(!event_conflicts_range(&event, local_dt(2026, 3, 20, 10, 0), local_dt(2026, 3, 20, 11, 0)));
}

#[test]
fn test_blocked_interval_skips_non_blocking_events() {
    let window_start = local_dt(2026, 3, 20, 9, 0);
    let window_end = local_dt(2026, 3, 20, 17, 0);
    let mut canceled = make_event("Canceled", "Work", None);
    canceled.status = "canceled".to_string();
    assert!(blocked_interval_for_window(&canceled, window_start, window_end).is_none());
    let mut free = make_event("FYI", "Work", None);
    free.availability = "free".to_string();
    assert!(blocked_interval_for_window(&free, window_start, window_end).is_none());
}

#[test]
fn test_blocked_interval_clips_to_window() {
    let window_start = local_dt(2026, 3, 20, 10, 30);
    let window_end = local_dt(2026, 3, 20, 17, 0);
    let event = make_event("Busy", "Work", None);
    let (s, e) = blocked_interval_for_window(&event, window_start, window_end).unwrap();
    assert_eq!(s, window_start);
    assert_eq!(e, local_dt(2026, 3, 20, 11, 0));
}

#[test]
fn test_calculate_free_slots_ignores_free_and_canceled_events() {
    let day = date(2026, 3, 20);
    let mut free = make_event("FYI", "Work", None);
    free.availability = "free".to_string();
    let mut canceled = make_event("Canceled", "Work", None);
    canceled.status = "canceled".to_string();
    let slots = calculate_free_slots(&[free, canceled], day, day, Some(hm(9, 0)), Some(hm(17, 0)), 30);
    assert_eq!(slots.len(), 1);
    assert_eq!(slots[0].start, local_dt(2026, 3, 20, 9, 0));
    assert_eq!(slots[0].end, local_dt(2026, 3, 20, 17, 0));
}

#[test]
fn test_free_slots_split_around_busy_events_in_start_order() {
    let mut late = make_event("Late", "Work", None);
    late.start = local_dt(2026, 3, 20, 14, 0);
    late.end = local_dt(2026, 3, 20, 15, 0);
    let early = make_event("Early", "Work", None);
    let slots = window_free_slots(
        &[late, early],
        local_dt(2026, 3, 20, 9, 0),
        local_dt(2026, 3, 20, 17, 0),
        30,
    );
    assert_eq!(slots.len(), 3);
    assert_eq!((slots[0].start, slots[0].end, slots[0].duration_mins), (local_dt(2026, 3, 20, 9, 0), local_dt(2026, 3, 20, 10, 0), 60));
    assert_eq!((slots[1].start, slots[1].end, slots[1].duration_mins), (local_dt(2026, 3, 20, 11, 0), local_dt(2026, 3, 20, 14, 0), 180));
    assert_eq!((slots[2].start, slots[2].end, slots[2].duration_mins), (local_dt(2026, 3, 20, 15, 0), local_dt(2026, 3, 20, 17, 0), 120));
}

#[test]
fn test_free_slots_drop_short_gaps() {
    let mut first = make_event("First", "Work", None);
    first.start = local_dt(2026, 3, 20, 9, 0);
    first.end = local_dt(2026, 3, 20, 9, 50);
    let mut second = make_event("Second", "Work", None);
    second.start = local_dt(2026, 3, 20, 10, 0);
    second.end = local_dt(2026, 3, 20, 17, 0);
    let slots = window_free_slots(
        &[first, second],
        local_dt(2026, 3, 20, 9, 0),
        local_dt(2026, 3, 20, 17, 0),
        30,
    );
    assert!(slots.is_empty());
}

#[test]
fn test_free_slots_default_window_is_nine_to_five() {
    let day = date(2026, 3, 20);
    let slots = calculate_free_slots(&[], day, day, None, None, 30);
    assert_eq!(slots.len(), 1);
    assert_eq!(slots[0].start, local_dt(2026, 3, 20, 9, 0));
    assert_eq!(slots[0].end, local_dt(2026, 3, 20, 17, 0));
    assert_eq!(slots[0].duration_mins, 480);
}

#[test]
fn test_validate_repeat_configuration_cases() {
    assert!(validate_repeat_configuration(None, None, None).is_ok());
    assert_eq!(
        validate_repeat_configuration(None, Some(3), None).unwrap_err(),
        AppError::InvalidArgument("--repeat-count requires --repeat".to_string())
    );
    assert_eq!(
        validate_repeat_configuration(Some("weekly"), None, Some(0)).unwrap_err(),
        AppError::InvalidArgument("--repeat-interval must be greater than 0".to_string())
    );
    assert!(validate_repeat_configuration(Some("weekly"), Some(2), Some(3)).is_ok());
}

#[test]
fn test_validate_alert_minutes_names_first_negative() {
    assert!(validate_alert_minutes(&[0, 10]).is_ok());
    assert_eq!(
        validate_alert_minutes(&[5, -3, -7]).unwrap_err(),
        AppError::InvalidArgument("--alert expects minutes before the event; got -3".to_string())
    );
}

#[test]
fn test_recurrence_spec_from_inputs_defaults_interval() {
    let rule = recurrence_spec_from_inputs(Some("weekly"), Some(10), None).unwrap().unwrap();
    assert_eq!(rule.frequency, "weekly");
    assert_eq!(rule.interval, 1);
    assert_eq!(rule.count, Some(10));
    assert!(rule.until.is_none());
    assert!(recurrence_spec_from_inputs(None, None, None).unwrap().is_none());
}

#[test]
fn test_recurrence_frequency_from_str_cases() {
    assert_eq!(recurrence_frequency_from_str("daily").unwrap(), Frequency::Daily);
    assert_eq!(recurrence_frequency_from_str("yearly").unwrap(), Frequency::Yearly);
    assert_eq!(
        recurrence_frequency_from_str("hourly").unwrap_err(),
        AppError::InvalidArgument(
            "Unknown repeat frequency: hourly. Use daily, weekly, monthly, or yearly.".to_string()
        )
    );
}

#[test]
fn test_recurrence_save_span_cases() {
    assert_eq!(recurrence_save_span(false, None).unwrap(), Span::ThisEvent);
    assert_eq!(recurrence_save_span(true, Some(RecurrenceScope::Future)).unwrap(), Span::FutureEvents);
    assert_eq!(recurrence_save_span(true, Some(RecurrenceScope::This)).unwrap(), Span::ThisEvent);
    assert_eq!(
        recurrence_save_span(true, None).unwrap_err(),
        AppError::InvalidArgument("Recurring events require --scope this or --scope future.".to_string())
    );
}

#[test]
fn test_eventkit_update_range_moves_all_day_end_back_a_day() {
    let start = local_dt(2026, 3, 20, 0, 0);
    let end = local_dt(2026, 3, 22, 0, 0);
    let (s, e) = eventkit_update_range(start, end, true);
    assert_eq!(s, start);
    assert_eq!(e, local_dt(2026, 3, 21, 0, 0));
    assert_eq!(eventkit_update_range(start, end, false), (start, end));
}

#[test]
fn test_current_all_day_end_date_uses_last_day() {
    assert_eq!(
        current_all_day_end_date(local_dt(2026, 3, 20, 0, 0), local_dt(2026, 3, 22, 0, 0)),
        date(2026, 3, 21)
    );
    assert_eq!(
        current_all_day_end_date(local_dt(2026, 3, 20, 0, 0), local_dt(2026, 3, 20, 0, 0)),
        date(2026, 3, 20)
    );
}

#[test]
fn test_search_matches_ignores_query_case() {
    let event = make_event("Weekly Standup", "Work", Some("Room 4B"));
    let other = make_event("Lunch", "Home", None);
    let upper = search_matches(vec![event.clone(), other.clone()], "STANDUP", false);
    assert_eq!(upper.len(), 1);
    assert_eq!(upper[0].title, "Weekly Standup");
    let mixed = search_matches(vec![event.clone(), other.clone()], "room 4b", false);
    assert_eq!(mixed.len(), 1);
    let exact = search_matches(vec![event, other], "WEEKLY standup", true);
    assert_eq!(exact.len(), 1);
}

#[test]
fn test_window_free_slots_are_ordered_and_leave_no_gap() {
    let mut a = make_event("A", "Work", None);
    a.start = local_dt(2026, 3, 20, 10, 0);
    a.end = local_dt(2026, 3, 20, 12, 0);
    let mut b = make_event("B", "Work", None);
    b.start = local_dt(2026, 3, 20, 11, 0);
    b.end = local_dt(2026, 3, 20, 13, 0);
    let slots = window_free_slots(&[b, a], local_dt(2026, 3, 20, 9, 0), local_dt(2026, 3, 20, 17, 0), 30);
    assert_eq!(slots.len(), 2);
    assert!(slots[0].end.timestamp <= slots[1].start.timestamp);
    assert_eq!((slots[0].start, slots[0].end), (local_dt(2026, 3, 20, 9, 0), local_dt(2026, 3, 20, 10, 0)));
    assert_eq!((slots[1].start, slots[1].end), (local_dt(2026, 3, 20, 13, 0), local_dt(2026, 3, 20, 17, 0)));
}

#[test]
fn test_free_slots_at_uses_each_days_hours() {
    let mut busy = make_event("Busy", "Work", None);
    busy.start = local_dt(2026, 3, 21, 12, 0);
    busy.end = local_dt(2026, 3, 21, 13, 0);
    let now = local_dt(2026, 3, 1, 8, 0);
    let slots = free_slots_at(&[busy], date(2026, 3, 20), date(2026, 3, 21), Some(hm(10, 0)), Some(hm(14, 0)), 30, now);
    let spans: Vec<(Moment, Moment)> = slots.iter().map(|s| (s.start, s.end)).collect();
    assert_eq!(
        spans,
        vec![
            (local_dt(2026, 3, 20, 10, 0), local_dt(2026, 3, 20, 14, 0)),
            (local_dt(2026, 3, 21, 10, 0), local_dt(2026, 3, 21, 12, 0)),
            (local_dt(2026, 3, 21, 13, 0), local_dt(2026, 3, 21, 14, 0)),
        ]
    );
    let defaults = free_slots_at(&[], date(2026, 3, 20), date(2026, 3, 20), None, None, 30, now);
    assert_eq!(defaults.len(), 1);
    assert_eq!((defaults[0].start, defaults[0].end, defaults[0].duration_mins), (local_dt(2026, 3, 20, 9, 0), local_dt(2026, 3, 20, 17, 0), 480));
}
