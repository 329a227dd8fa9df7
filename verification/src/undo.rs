//! The decisions and messages of undoing the last change, and of recording undo history
//! after a change.
use vstd::prelude::*;
use crate::error::{invalid_argument, message_spec, AppError, ErrorKind};
use crate::state::UndoAction;
use crate::text::{chars_of, push_chars, string_from_chars};

verus! {

/// What undoing an action reports as done, or why it cannot be undone.
pub open spec fn plan_spec(action: UndoAction) -> Result<Seq<char>, (ErrorKind, Seq<char>)> {
    match action {
        UndoAction::DeleteCreated { .. } => Ok("delete_created"@),
        UndoAction::RestoreDeleted { .. } => Ok("restore_deleted"@),
        UndoAction::ReplaceWithDraft { .. } => Ok("restore_updated"@),
        UndoAction::Unavailable { reason } => Err(
            (ErrorKind::InvalidArgument, "Undo unavailable for the last action: "@ + reason@),
        ),
    }
}

/// The name of the undo a recorded action leads to, or the error of an action that cannot be
/// undone.
pub fn undo_plan(action: &UndoAction) -> (r: Result<&'static str, AppError>)
    ensures
        match (r, plan_spec(*action)) {
            (Ok(a), Ok(b)) => a@ == b,
            (Err(e), Err(f)) => e.is(f),
            _ => false,
        },
{
    match action {
        UndoAction::DeleteCreated { .. } => Ok("delete_created"),
        UndoAction::RestoreDeleted { .. } => Ok("restore_deleted"),
        UndoAction::ReplaceWithDraft { .. } => Ok("restore_updated"),
        UndoAction::Unavailable { reason } => {
            let mut msg = chars_of("Undo unavailable for the last action: ");
            push_chars(&mut msg, &chars_of(reason.as_str()));
            Err(invalid_argument(msg))
        },
    }
}

/// What is printed when an undo is done.
pub fn undo_complete_text(event_id: Option<&str>) -> (r: String)
    ensures
        r@ == match event_id {
            Some(id) => "Undo complete: "@ + id@,
            None => "Undo complete."@,
        },
{
    match event_id {
        Some(id) => {
            let mut out = chars_of("Undo complete: ");
            push_chars(&mut out, &chars_of(id));
            string_from_chars(&out)
        },
        None => string_from_chars(&chars_of("Undo complete.")),
    }
}

fn with_error(prefix: &str, err: &AppError) -> (r: String)
    ensures
        r@ == prefix@ + message_spec(*err),
{
    let mut out = chars_of(prefix);
    push_chars(&mut out, &chars_of(err.message().as_str()));
    string_from_chars(&out)
}

/// The warning when an undo failed and its record could not be put back.
pub fn restore_failed_warning(err: &AppError) -> (r: String)
    ensures
        r@ == "Undo failed, and undo history could not be restored: "@ + message_spec(*err),
{
    with_error("Undo failed, and undo history could not be restored: ", err)
}

/// The warning when an undo succeeded but its pending claim could not be cleared.
pub fn finalize_failed_warning(err: &AppError) -> (r: String)
    ensures
        r@ == "Undo succeeded, but pending undo state could not be cleared: "@ + message_spec(*err),
{
    with_error("Undo succeeded, but pending undo state could not be cleared: ", err)
}

/// After a change: the warning that its undo is unavailable, for an action that cannot be
/// undone (nothing is then recorded), and `None` for one that is to be recorded.
pub fn unavailable_undo_warning(action: &UndoAction) -> (r: Option<String>)
    ensures
        match *action {
            UndoAction::Unavailable { reason } => r matches Some(w) && w@
                == "Change succeeded, but undo is unavailable: "@ + reason@,
            _ => r is None,
        },
{
    match action {
        UndoAction::Unavailable { reason } => {
            let mut out = chars_of("Change succeeded, but undo is unavailable: ");
            push_chars(&mut out, &chars_of(reason.as_str()));
            Some(string_from_chars(&out))
        },
        _ => None,
    }
}

/// The warning when a change's undo record could not be saved.
pub fn undo_not_saved_warning(err: &AppError) -> (r: String)
    ensures
        r@ == "Change succeeded, but undo history could not be saved: "@ + message_spec(*err),
{
    with_error("Change succeeded, but undo history could not be saved: ", err)
}

} // verus!
