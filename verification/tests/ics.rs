use calx::ics::{ics_lines, parse_csv_datetime, parse_ics, parse_ics_datetime};
use calx::store::EventInfo;
use calx::time::{Date, DateTime, Moment, Time};
use chrono::{Datelike, Local, NaiveDate, TimeZone};

fn local_dt(year: i32, month: u32, day: u32, hour: u32, minute: u32) -> Moment {
    let dt = Local.with_ymd_and_hms(year, month, day, hour, minute, 0).unwrap();
    Moment { timestamp: dt.timestamp(), offset: dt.offset().local_minus_utc() }
}

fn naive(year: i32, month: u32, day: u32, hour: u32, minute: u32, second: u32) -> DateTime {
    DateTime {
        date: Date { days: NaiveDate::from_ymd_opt(year, month, day).unwrap().num_days_from_ce() },
        time: Time { secs: hour * 3600 + minute * 60 + second },
    }
}

fn event(title: &str, start: Moment, end: Moment, all_day: bool, notes: Option<&str>) -> EventInfo {
    EventInfo {
        id: format!("{title}-id"),
        title: title.to_string(),
        start,
        end,
        calendar: "Work".to_string(),
        calendar_id: "cal-1".to_string(),
        location: None,
        url: None,
        notes: notes.map(|n| n.to_string()),
        all_day,
        status: "confirmed".to_string(),
        availability: "busy".to_string(),
        organizer: None,
        created: None,
        modified: None,
        recurring: false,
        recurrence: None,
        recurrence_rule: None,
        alerts: Vec::new(),
    }
}

#[test]
fn test_ics_lines_write_timed_and_all_day_events() {
    let events = vec![
        event("Sync", local_dt(2026, 3, 20, 14, 0), local_dt(2026, 3, 20, 15, 30), false, Some("line one\nline two")),
        event("Holiday", local_dt(2026, 3, 21, 0, 0), local_dt(2026, 3, 22, 0, 0), true, None),
    ];
    let lines = ics_lines(&events);
    let expected: Vec<String> = [
        "BEGIN:VCALENDAR",
        "VERSION:2.0",
        "PRODID:-//calx//EN",
        "BEGIN:VEVENT",
        "UID:Sync-id",
        "DTSTART:20260320T140000",
        "DTEND:20260320T153000",
        "SUMMARY:Sync",
        "DESCRIPTION:line one\\nline two",
        "END:VEVENT",
        "BEGIN:VEVENT",
        "UID:Holiday-id",
        "DTSTART;VALUE=DATE:20260321",
        "DTEND;VALUE=DATE:20260322",
        "SUMMARY:Holiday",
        "END:VEVENT",
        "END:VCALENDAR",
    ]
    .iter()
    .map(|s| s.to_string())
    .collect();
    assert_eq!(lines, expected);
}

#[test]
fn test_parse_ics_reads_events_and_unescapes_notes() {
    let text = "BEGIN:VCALENDAR\r\nBEGIN:VEVENT\r\nSUMMARY:Sync\r\nDTSTART:20260320T140000\r\nDTEND:20260320T153000\r\nDESCRIPTION:a\\nb\r\nEND:VEVENT\r\n  BEGIN:VEVENT\nSUMMARY:Day off\nDTSTART;VALUE=DATE:20260321\nDTEND;VALUE=DATE:20260322\nEND:VEVENT\nBEGIN:VEVENT\nSUMMARY:No end\nDTSTART:20260320T140000\nEND:VEVENT\nEND:VCALENDAR\n";
    let (events, err) = parse_ics(text);
    assert!(err.is_none());
    assert_eq!(events.len(), 2);
    assert_eq!(events[0].title, "Sync");
    assert_eq!(events[0].start, naive(2026, 3, 20, 14, 0, 0));
    assert_eq!(events[0].end, naive(2026, 3, 20, 15, 30, 0));
    assert_eq!(events[0].notes.as_deref(), Some("a\nb"));
    assert_eq!(events[1].title, "Day off");
    assert_eq!(events[1].start, naive(2026, 3, 21, 0, 0, 0));
    assert_eq!(events[1].notes, None);
}

#[test]
fn test_parse_ics_stops_at_an_unreadable_date() {
    let text = "BEGIN:VEVENT\nSUMMARY:First\nDTSTART:20260320T140000\nDTEND:20260320T150000\nEND:VEVENT\nBEGIN:VEVENT\nSUMMARY:Bad\nDTSTART:tomorrow\nDTEND:20260320T150000\nEND:VEVENT\nBEGIN:VEVENT\nSUMMARY:Never\nDTSTART:20260321T140000\nDTEND:20260321T150000\nEND:VEVENT\n";
    let (events, err) = parse_ics(text);
    assert_eq!(events.len(), 1);
    assert_eq!(events[0].title, "First");
    assert_eq!(err.unwrap().why(), "tomorrow");
}

#[test]
fn test_parse_ics_datetime_forms() {
    let v: Vec<char> = "20260320T091500".chars().collect();
    assert_eq!(parse_ics_datetime(&v), Some(naive(2026, 3, 20, 9, 15, 0)));
    let v: Vec<char> = "20260320".chars().collect();
    assert_eq!(parse_ics_datetime(&v), Some(naive(2026, 3, 20, 0, 0, 0)));
    let v: Vec<char> = "2026-03-20".chars().collect();
    assert_eq!(parse_ics_datetime(&v), None);
}

#[test]
fn test_parse_csv_datetime_forms() {
    assert_eq!(parse_csv_datetime("2026-03-20T09:15:00+09:00"), Some(naive(2026, 3, 20, 9, 15, 0)));
    assert_eq!(parse_csv_datetime("2026-03-20 09:15"), Some(naive(2026, 3, 20, 9, 15, 0)));
    assert_eq!(parse_csv_datetime("2026-03-20"), Some(naive(2026, 3, 20, 0, 0, 0)));
    assert_eq!(parse_csv_datetime("next week"), None);
}

#[test]
fn test_ics_round_trip_keeps_titles_times_and_notes() {
    let events = vec![
        event("Sync", local_dt(2026, 3, 20, 14, 0), local_dt(2026, 3, 20, 15, 30), false, Some("agenda:\n- one\n- two")),
        event("Trip", local_dt(2026, 4, 1, 0, 0), local_dt(2026, 4, 4, 0, 0), true, None),
    ];
    let text = ics_lines(&events).join("\n");
    let (back, err) = parse_ics(&text);
    assert!(err.is_none());
    assert_eq!(back.len(), 2);
    assert_eq!(back[0].title, "Sync");
    assert_eq!(back[0].start, naive(2026, 3, 20, 14, 0, 0));
    assert_eq!(back[0].end, naive(2026, 3, 20, 15, 30, 0));
    assert_eq!(back[0].notes.as_deref(), Some("agenda:\n- one\n- two"));
    assert_eq!(back[1].title, "Trip");
    assert_eq!(back[1].start, naive(2026, 4, 1, 0, 0, 0));
    assert_eq!(back[1].end, naive(2026, 4, 4, 0, 0, 0));
}
