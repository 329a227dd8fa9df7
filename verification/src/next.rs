//! The next event to come.
use vstd::prelude::*;
use crate::store::EventInfo;
use crate::text::str_eq;
use crate::time::Moment;

verus! {

/// An event that can be "next": not canceled, not all-day, and starting after `now`.
pub open spec fn next_candidate(e: EventInfo, now: Moment) -> bool {
    e.status@ != "canceled"@ && !e.all_day && e.start.timestamp > now.timestamp
}

/// The next event is a timed one that is not canceled and starts after `now`; all-day events
/// and events already under way are never next.
pub proof fn law_next_event_is_timed_and_upcoming(e: EventInfo, now: Moment)
    ensures
        next_candidate(e, now) ==> !e.all_day && e.status@ != "canceled"@ && e.start.timestamp
            > now.timestamp,
        e.all_day ==> !next_candidate(e, now),
        e.start.timestamp <= now.timestamp ==> !next_candidate(e, now),
        !e.all_day && e.status@ != "canceled"@ && e.start.timestamp > now.timestamp ==> next_candidate(e, now),
{
}

/// The event that starts soonest after `now` (the first of several that start together).
pub fn select_next_event(events: &[EventInfo], now: Moment) -> (r: Option<&EventInfo>)
    ensures
        r is None <==> forall|i: int| 0 <= i < events@.len() ==> !next_candidate(#[trigger] events@[i], now),
        r matches Some(x) ==> !x.all_day && x.status@ != "canceled"@ && x.start.timestamp > now.timestamp,
        r matches Some(x) ==> exists|i: int|
            0 <= i < events@.len() && *x == events@[i] && next_candidate(events@[i], now)
                && (forall|j: int|
                0 <= j < events@.len() && next_candidate(#[trigger] events@[j], now)
                    ==> events@[i].start.timestamp <= events@[j].start.timestamp) && (forall|j: int|
                0 <= j < i && next_candidate(#[trigger] events@[j], now)
                    ==> events@[j].start.timestamp > events@[i].start.timestamp),
{
    let mut best: Option<usize> = None;
    let mut i: usize = 0;
    while i < events.len()
        invariant
            i <= events@.len(),
            match best {
                None => forall|j: int| 0 <= j < i ==> !next_candidate(#[trigger] events@[j], now),
                Some(b) => b < i && next_candidate(events@[b as int], now) && (forall|j: int|
                    0 <= j < i && next_candidate(#[trigger] events@[j], now)
                        ==> events@[b as int].start.timestamp <= events@[j].start.timestamp) && (
                forall|j: int|
                    0 <= j < b && next_candidate(#[trigger] events@[j], now)
                        ==> events@[j].start.timestamp > events@[b as int].start.timestamp),
            },
        decreases events@.len() - i,
    {
        let e = &events[i];
        if !str_eq(e.status.as_str(), "canceled") && !e.all_day && e.start.timestamp > now.timestamp {
            match best {
                None => {
                    best = Some(i);
                },
                Some(b) => {
                    if e.start.timestamp < events[b].start.timestamp {
                        best = Some(i);
                    }
                },
            }
        }
        i += 1;
    }
    match best {
        None => None,
        Some(b) => Some(&events[b]),
    }
}

} // verus!
