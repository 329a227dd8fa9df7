//! What deleting an event previews and what undoing it will need.
use vstd::prelude::*;
use crate::state::UndoAction;
use crate::store::{all_day_end_date, current_all_day_end_date, EventDraft, EventInfo, RecurrenceScope};
use crate::text::{chars_of, push_chars, push_str, string_from_chars};
use crate::time::{format_hm, format_ymd, hm_text, ymd_text};

verus! {

/// The preview line of a delete: all-day events by their days, timed events by their times.
pub open spec fn dry_run_text(e: EventInfo) -> Seq<char> {
    if e.all_day {
        let end_date = all_day_end_date(e.start, e.end);
        if end_date.days > e.start.local().date.days {
            "Would delete: "@ + e.title@ + " ("@ + ymd_text(e.start.local().date) + " to "@
                + ymd_text(end_date) + " 00:00 - 24:00)"@
        } else {
            "Would delete: "@ + e.title@ + " ("@ + ymd_text(e.start.local().date)
                + " 00:00 - 24:00)"@
        }
    } else {
        "Would delete: "@ + e.title@ + " ("@ + ymd_text(e.start.local().date) + " "@ + hm_text(
            e.start.local().time,
        ) + " - "@ + hm_text(e.end.local().time) + ")"@
    }
}

/// What `delete --dry-run` prints for an event.
pub fn dry_run_description(event: &EventInfo) -> (r: String)
    requires
        event.wf(),
    ensures
        r@ == dry_run_text(*event),
{
    let mut m = chars_of("Would delete: ");
    push_chars(&mut m, &chars_of(event.title.as_str()));
    push_str(&mut m, " (");
    let start_date = event.start.date_naive();
    push_chars(&mut m, &format_ymd(start_date));
    if event.all_day {
        let end_date = current_all_day_end_date(event.start, event.end);
        if end_date.days > start_date.days {
            push_str(&mut m, " to ");
            push_chars(&mut m, &format_ymd(end_date));
        }
        push_str(&mut m, " 00:00 - 24:00)");
    } else {
        push_str(&mut m, " ");
        push_chars(&mut m, &format_hm(event.start.time()));
        push_str(&mut m, " - ");
        push_chars(&mut m, &format_hm(event.end.time()));
        push_str(&mut m, ")");
    }
    string_from_chars(&m)
}

/// The reason recorded when a deleted occurrence cannot be brought back.
pub open spec fn single_occurrence_reason() -> Seq<char> {
    "single recurring occurrences cannot be restored safely"@
}

/// How a delete is undone: a single occurrence of a recurring event cannot be restored;
/// anything else is recreated from its draft.
pub fn delete_undo_action(recurring: bool, scope: Option<RecurrenceScope>, draft: EventDraft) -> (r:
    UndoAction)
    ensures
        recurring && scope == Some(RecurrenceScope::This) ==> (r matches UndoAction::Unavailable {
            reason,
        } && reason@ == single_occurrence_reason()),
        !(recurring && scope == Some(RecurrenceScope::This)) ==> r == (UndoAction::RestoreDeleted {
            draft,
        }),
{
    if recurring && scope == Some(RecurrenceScope::This) {
        UndoAction::Unavailable {
            reason: string_from_chars(
                &chars_of("single recurring occurrences cannot be restored safely"),
            ),
        }
    } else {
        UndoAction::RestoreDeleted { draft }
    }
}

} // verus!
