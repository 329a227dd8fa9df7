//! What an update asks for.
use vstd::prelude::*;
use crate::store::{AlertUpdate, FieldUpdate};

verus! {

/// Whether any change was requested.
#[allow(clippy::too_many_arguments)]
pub fn has_requested_changes(
    title: Option<&str>,
    start: Option<&str>,
    end: Option<&str>,
    location: Option<&str>,
    clear_location: bool,
    url: Option<&str>,
    clear_url: bool,
    notes: Option<&str>,
    clear_notes: bool,
    alerts: bool,
    clear_alerts: bool,
    calendar: Option<&str>,
    all_day: Option<bool>,
) -> (r: bool)
    ensures
        r == (title is Some || start is Some || end is Some || location is Some || clear_location
            || url is Some || clear_url || notes is Some || clear_notes || alerts || clear_alerts
            || calendar is Some || all_day is Some),
{
    title.is_some() || start.is_some() || end.is_some() || location.is_some() || clear_location
        || url.is_some() || clear_url || notes.is_some() || clear_notes || alerts || clear_alerts
        || calendar.is_some() || all_day.is_some()
}

/// The change to an optional text field: clearing wins over a new value.
pub fn field_update<'a>(value: Option<&'a str>, clear: bool) -> (r: FieldUpdate<'a>)
    ensures
        clear ==> r is Clear,
        !clear && value is Some ==> (r matches FieldUpdate::Assign(w) && w == value->0),
        !clear && value is None ==> r is Keep,
{
    if clear {
        FieldUpdate::Clear
    } else if let Some(v) = value {
        FieldUpdate::Assign(v)
    } else {
        FieldUpdate::Keep
    }
}

/// The change to the alerts: clearing wins over new values; no values keeps them.
pub fn alert_update<'a>(values: &'a [i64], clear: bool) -> (r: AlertUpdate<'a>)
    ensures
        clear ==> r is Clear,
        !clear && values@.len() > 0 ==> (r matches AlertUpdate::Assign(w) && w@ == values@),
        !clear && values@.len() == 0 ==> r is Keep,
{
    if clear {
        AlertUpdate::Clear
    } else if values.len() > 0 {
        AlertUpdate::Assign(values)
    } else {
        AlertUpdate::Keep
    }
}

} // verus!
