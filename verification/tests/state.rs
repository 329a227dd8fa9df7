use calx::dateparse::{parse_date_at, parse_datetime, parse_datetime_at, parse_jp_time, parse_time_str};
use calx::error::AppError;
use calx::state::{
    claim_is_stale, clear_undo, delete_template, ensure_no_pending_undo, get_template,
    list_templates, load_undo, pending_claim_to_clear, records_match, restore_undo_record,
    save_template, save_undo, take_undo, StoredTemplate, UndoAction, UndoRecord,
};
use calx::store::{EventDraft, RecurrenceRuleInfo};
use calx::template::{delete, list, list_line, recurrence_rule_summary};
use calx::time::{Date, DateTime, Moment, Time};
use chrono::{Datelike, Local, NaiveDate, TimeZone};

fn moment_of(dt: chrono::DateTime<Local>) -> Moment {
    Moment { timestamp: dt.timestamp(), offset: dt.offset().local_minus_utc() }
}

fn at(hour: u32) -> Moment {
    moment_of(Local.with_ymd_and_hms(2026, 3, 22, hour, 0, 0).unwrap())
}

fn unavailable_record(reason: &str) -> UndoRecord {
    UndoRecord { action: UndoAction::Unavailable { reason: reason.to_string() }, recorded_at: at(12) }
}

fn reason_of(record: &UndoRecord) -> &str {
    match &record.action {
        UndoAction::Unavailable { reason } => reason.as_str(),
        _ => panic!("unexpected undo action"),
    }
}

fn sample_draft(title: &str) -> EventDraft {
    EventDraft {
        title: title.to_string(),
        start: at(9),
        end: at(10),
        calendar: "Work".to_string(),
        calendar_id: "cal-1".to_string(),
        location: None,
        url: None,
        notes: None,
        all_day: false,
        alerts: vec![10],
        recurrence_rule: None,
    }
}

fn template(name: &str, title: &str) -> StoredTemplate {
    StoredTemplate { name: name.to_string(), draft: sample_draft(title), saved_at: at(8) }
}

#[test]
fn test_save_undo_preserves_stack_and_loads_latest() {
    let mut stack = Vec::new();
    save_undo(&mut stack, false, unavailable_record("first").action, at(12)).unwrap();
    save_undo(&mut stack, false, unavailable_record("second").action, at(13)).unwrap();
    assert_eq!(reason_of(load_undo(&stack).unwrap()), "second");
    assert_eq!(stack.len(), 2);
}

#[test]
fn test_save_undo_keeps_last_twenty() {
    let mut stack = Vec::new();
    for i in 0..25 {
        save_undo(&mut stack, false, unavailable_record(&format!("r{i}")).action, at(12)).unwrap();
    }
    assert_eq!(stack.len(), 20);
    assert_eq!(reason_of(&stack[0]), "r5");
    assert_eq!(reason_of(load_undo(&stack).unwrap()), "r24");
}

#[test]
fn test_save_undo_rejects_pending_claim() {
    let mut stack = Vec::new();
    let err = save_undo(&mut stack, true, unavailable_record("new").action, at(12)).unwrap_err();
    assert!(err.message().contains("Undo is already in progress"));
    assert!(stack.is_empty());
}

#[test]
fn test_clear_undo_pops_latest_record() {
    let mut stack = Vec::new();
    save_undo(&mut stack, false, unavailable_record("first").action, at(12)).unwrap();
    save_undo(&mut stack, false, unavailable_record("second").action, at(13)).unwrap();
    clear_undo(&mut stack);
    assert_eq!(reason_of(load_undo(&stack).unwrap()), "first");
    clear_undo(&mut stack);
    assert!(load_undo(&stack).is_none());
}

#[test]
fn test_take_undo_claims_latest_record() {
    let mut stack = vec![unavailable_record("first"), unavailable_record("second")];
    let claimed = take_undo(&mut stack, None, false).unwrap().unwrap();
    assert_eq!(reason_of(&claimed), "second");
    assert_eq!(reason_of(load_undo(&stack).unwrap()), "first");
}

#[test]
fn test_restore_undo_record_pushes_record_back() {
    let mut stack = vec![unavailable_record("first")];
    let record = take_undo(&mut stack, None, false).unwrap().unwrap();
    assert!(stack.is_empty());
    restore_undo_record(&mut stack, record);
    assert_eq!(reason_of(load_undo(&stack).unwrap()), "first");
    assert_eq!(stack.len(), 1);
}

#[test]
fn test_take_undo_reclaims_stale_pending_claim() {
    let mut stack = vec![unavailable_record("older")];
    let taken = take_undo(&mut stack, Some(unavailable_record("stale")), true).unwrap().unwrap();
    assert_eq!(reason_of(&taken), "stale");
    assert_eq!(stack.len(), 1);
}

#[test]
fn test_take_undo_rejects_active_pending_claim() {
    let mut stack = Vec::new();
    let err = take_undo(&mut stack, Some(unavailable_record("active")), false).unwrap_err();
    assert!(err.message().contains("already in progress"));
}

#[test]
fn test_take_undo_on_empty_history() {
    let mut stack: Vec<UndoRecord> = Vec::new();
    assert!(take_undo(&mut stack, None, false).unwrap().is_none());
}

#[test]
fn test_ensure_no_pending_undo_message() {
    assert!(ensure_no_pending_undo(false).is_ok());
    assert_eq!(
        ensure_no_pending_undo(true).unwrap_err(),
        AppError::InvalidArgument(
            "Undo is already in progress. Finish it with `calx undo` before making another change."
                .to_string()
        )
    );
}

#[test]
fn test_claim_is_stale_after_five_minutes() {
    assert!(!claim_is_stale(1_000_000, 900_000));
    assert!(claim_is_stale(1_300_001, 1_000_000));
    assert!(!claim_is_stale(1_000, 2_000));
}

#[test]
fn test_save_template_rejects_overwrite_without_force() {
    let mut templates = vec![template("focus", "Focus")];
    let err = save_template(&mut templates, "focus", sample_draft("Focus 2"), false, at(9)).unwrap_err();
    assert!(err.message().contains("--force"));
    assert_eq!(templates[0].draft.title, "Focus");
}

#[test]
fn test_save_template_overwrites_with_force() {
    let mut templates = vec![template("focus", "Focus")];
    save_template(&mut templates, "focus", sample_draft("Focus 2"), true, at(9)).unwrap();
    let stored = get_template(templates, "focus").unwrap();
    assert_eq!(stored.draft.title, "Focus 2");
}

#[test]
fn test_save_then_get_new_template() {
    let mut templates = vec![template("zeta", "Z")];
    save_template(&mut templates, "alpha", sample_draft("A"), false, at(11)).unwrap();
    assert_eq!(templates.len(), 2);
    let stored = get_template(templates, "alpha").unwrap();
    assert_eq!(stored.draft.title, "A");
    assert_eq!(stored.saved_at, at(11));
}

#[test]
fn test_list_templates_sorted_by_name() {
    let templates = vec![template("b", "B"), template("a", "A"), template("c", "C")];
    let names: Vec<String> = list_templates(templates).into_iter().map(|t| t.name).collect();
    assert_eq!(names, vec!["a", "b", "c"]);
}

#[test]
fn test_delete_template_missing_and_present() {
    let mut templates = vec![template("focus", "Focus"), template("other", "Other")];
    assert_eq!(
        delete_template(&mut templates, "missing").unwrap_err(),
        AppError::TemplateNotFound("missing".to_string())
    );
    delete_template(&mut templates, "focus").unwrap();
    assert_eq!(templates.len(), 1);
    assert_eq!(
        get_template(templates, "focus").unwrap_err(),
        AppError::TemplateNotFound("focus".to_string())
    );
}

#[test]
fn test_template_delete_command_confirms() {
    let mut templates = vec![template("focus", "Focus")];
    assert_eq!(delete(&mut templates, "focus").unwrap(), "Template deleted: focus");
    assert!(templates.is_empty());
}

#[test]
fn test_template_list_items_and_lines() {
    let mut recurring = template("weekly", "Standup");
    recurring.draft.all_day = true;
    recurring.draft.recurrence_rule =
        Some(RecurrenceRuleInfo { frequency: "weekly".to_string(), interval: 1, count: None, until: None });
    let items = list(vec![recurring, template("focus", "Focus")]);
    assert_eq!(items.len(), 2);
    assert_eq!(list_line(&items[0]), "focus  Focus  [Work]");
    assert_eq!(list_line(&items[1]), "weekly  Standup  [Work]  all-day  recurring");
}

#[test]
fn test_recurrence_rule_summary_forms() {
    let rule = |interval: u32, count: Option<u32>, until: Option<Date>| RecurrenceRuleInfo {
        frequency: "weekly".to_string(),
        interval,
        count,
        until,
    };
    assert_eq!(recurrence_rule_summary(&rule(1, None, None)), "weekly");
    assert_eq!(recurrence_rule_summary(&rule(2, Some(10), None)), "every 2 weekly (10 times)");
    let until = Date { days: NaiveDate::from_ymd_opt(2026, 6, 1).unwrap().num_days_from_ce() };
    assert_eq!(recurrence_rule_summary(&rule(1, None, Some(until))), "weekly until 2026-06-01");
}

#[test]
fn test_standard_formats() {
    assert!(parse_datetime("2026-03-20 14:00").is_some());
    assert!(parse_datetime("2026-03-20").is_some());
}

#[test]
fn test_english_natural() {
    assert!(parse_datetime("tomorrow").is_some());
    assert!(parse_datetime("today 3pm").is_some());
    assert!(parse_datetime("tomorrow 14:00").is_some());
    assert!(parse_datetime("next monday").is_some());
    assert!(parse_datetime("next friday 9am").is_some());
    assert!(parse_datetime("in 3 days").is_some());
}

#[test]
fn test_japanese_natural() {
    assert!(parse_datetime("明日").is_some());
    assert!(parse_datetime("明日の3時").is_some());
    assert!(parse_datetime("明日の午後3時").is_some());
    assert!(parse_datetime("来週月曜").is_some());
    assert!(parse_datetime("来週火曜の15時").is_some());
    assert!(parse_datetime("今日").is_some());
    assert!(parse_datetime("明後日の9時30分").is_some());
}

#[test]
fn test_time_only() {
    assert_eq!(parse_time_str("3pm"), Some(Time { secs: 15 * 3600 }));
    assert_eq!(parse_time_str("11am"), Some(Time { secs: 11 * 3600 }));
    assert_eq!(parse_time_str("14:00"), Some(Time { secs: 14 * 3600 }));
}

#[test]
fn test_jp_time() {
    assert_eq!(parse_jp_time("午後3時"), Some(Time { secs: 15 * 3600 }));
    assert_eq!(parse_jp_time("午前9時"), Some(Time { secs: 9 * 3600 }));
    assert_eq!(parse_jp_time("15時30分"), Some(Time { secs: 15 * 3600 + 30 * 60 }));
}

#[test]
fn test_natural_dates_relative_to_a_fixed_day() {
    // 2026-03-20 is a Friday.
    let friday = moment_of(Local.with_ymd_and_hms(2026, 3, 20, 8, 0, 0).unwrap());
    let day = |d: u32| Date { days: NaiveDate::from_ymd_opt(2026, 3, d).unwrap().num_days_from_ce() };
    assert_eq!(
        parse_datetime_at("tomorrow 3pm", friday),
        Some(DateTime { date: day(21), time: Time { secs: 15 * 3600 } })
    );
    assert_eq!(parse_date_at("next monday", day(20)), Some(day(23)));
    assert_eq!(parse_date_at("in 3 days", day(20)), Some(day(23)));
    assert_eq!(parse_date_at("明後日", day(20)), Some(day(22)));
    assert_eq!(parse_date_at("not a date", day(20)), None);
}

#[test]
fn test_pending_claim_to_clear_matches_expected_record() {
    let expected = UndoRecord { action: UndoAction::RestoreDeleted { draft: sample_draft("Review") }, recorded_at: at(12) };
    let same = UndoRecord { action: UndoAction::RestoreDeleted { draft: sample_draft("Review") }, recorded_at: at(12) };
    let other = UndoRecord { action: UndoAction::RestoreDeleted { draft: sample_draft("Lunch") }, recorded_at: at(12) };
    assert!(records_match(&same, &expected));
    assert!(!records_match(&other, &expected));
    assert!(!records_match(&unavailable_record("x"), &expected));
    assert_eq!(pending_claim_to_clear(Some(&same), &expected).unwrap(), true);
    assert_eq!(pending_claim_to_clear(None, &expected).unwrap(), false);
    match pending_claim_to_clear(Some(&other), &expected) {
        Err(AppError::Io(msg)) => assert_eq!(msg, "pending undo record did not match the expected action"),
        _ => panic!("expected a mismatch error"),
    }
}
