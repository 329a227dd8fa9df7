//! What the free slots of a window guarantee: each lies inside the window, lasts at least the
//! asked length and meets no busy event; they come in order; and no long enough free span is
//! left out.
use vstd::prelude::*;
use crate::store::{
    blocked_interval, blocked_list, blocks, earlier, fits, gap_slot, insert_by_start, later,
    sort_by_start, sweep, window_slots, all_window_slots, EventInfo, FreeSlot,
};
use crate::time::Moment;

verus! {

broadcast use vstd::seq_lib::group_to_multiset_ensures;

/// Stretches ordered by their starts.
pub open spec fn ordered_by_start(s: Seq<(Moment, Moment)>) -> bool {
    forall|i: int, j: int| 0 <= i <= j < s.len() ==> s[i].0.timestamp <= s[j].0.timestamp
}

/// A slot that lies inside the window, is non-empty and lasts at least `min_mins` minutes.
pub open spec fn slot_in_window(s: FreeSlot, window_start: Moment, window_end: Moment, min_mins: u32) -> bool {
    &&& window_start.timestamp <= s.start.timestamp
    &&& s.start.timestamp < s.end.timestamp
    &&& s.end.timestamp <= window_end.timestamp
    &&& s.end.timestamp - s.start.timestamp >= min_mins * 60
}

/// A slot that overlaps none of the stretches.
pub open spec fn clear_of(s: FreeSlot, busy: Seq<(Moment, Moment)>) -> bool {
    forall|i: int|
        0 <= i < busy.len() ==> s.end.timestamp <= #[trigger] busy[i].0.timestamp || busy[i].1.timestamp
            <= s.start.timestamp
}

/// A slot that meets no event that takes up time: it ends before a timed event starts or starts
/// after it ends, and it shares no window with a busy all-day event.
pub open spec fn meets_no_event(s: FreeSlot, events: Seq<EventInfo>, window_start: Moment, window_end: Moment) -> bool {
    forall|k: int|
        0 <= k < events.len() && blocks(#[trigger] events[k]) ==> if events[k].all_day {
            events[k].end.timestamp <= window_start.timestamp || events[k].start.timestamp
                >= window_end.timestamp
        } else {
            s.end.timestamp <= events[k].start.timestamp || events[k].end.timestamp
                <= s.start.timestamp
        }
}

proof fn lemma_insert_keeps(s: Seq<(Moment, Moment)>, x: (Moment, Moment))
    ensures
        insert_by_start(s, x).to_multiset() =~= s.to_multiset().insert(x),
        ordered_by_start(s) ==> ordered_by_start(insert_by_start(s, x)),
    decreases s.len(),
{
    if s.len() == 0 {
        assert(seq![x] =~= Seq::<(Moment, Moment)>::empty().push(x));
    } else if s.last().0.timestamp <= x.0.timestamp {
    } else {
        let rest = s.drop_last();
        lemma_insert_keeps(rest, x);
        assert(s =~= rest.push(s.last()));
        let r = insert_by_start(rest, x);
        if ordered_by_start(s) {
            assert forall|i: int| 0 <= i < r.len() implies r[i].0.timestamp <= s.last().0.timestamp by {
                assert(r.to_multiset().count(r[i]) > 0);
                if r[i] != x {
                    assert(rest.to_multiset().count(r[i]) > 0);
                    assert(rest.contains(r[i]));
                    let k = choose|k: int| 0 <= k < rest.len() && rest[k] == r[i];
                    assert(s[k] == rest[k]);
                }
            }
        }
    }
}

proof fn lemma_sort_keeps(s: Seq<(Moment, Moment)>)
    ensures
        sort_by_start(s).to_multiset() =~= s.to_multiset(),
        ordered_by_start(sort_by_start(s)),
    decreases s.len(),
{
    if s.len() > 0 {
        lemma_sort_keeps(s.drop_last());
        lemma_insert_keeps(sort_by_start(s.drop_last()), s.last());
        assert(s =~= s.drop_last().push(s.last()));
    }
}

proof fn lemma_sweep(full: Seq<(Moment, Moment)>, j: int, start: Moment, end: Moment, min_mins: u32)
    requires
        ordered_by_start(full),
        0 <= j <= full.len(),
        forall|i: int|
            0 <= i < full.len() ==> #[trigger] full[i].0.timestamp <= start.timestamp
                || full[i].0.timestamp <= end.timestamp,
    ensures
        ({
            let (slots, cursor) = sweep(full.take(j), start, min_mins);
            &&& start.timestamp <= cursor.timestamp
            &&& forall|i: int| 0 <= i < j ==> #[trigger] full[i].1.timestamp <= cursor.timestamp
            &&& forall|t: int|
                0 <= t < slots.len() ==> slot_in_window(#[trigger] slots[t], start, end, min_mins)
                    && clear_of(slots[t], full)
        }),
    decreases j,
{
    if j > 0 {
        lemma_sweep(full, j - 1, start, end, min_mins);
        assert(full.take(j).drop_last() =~= full.take(j - 1));
        let (slots, cursor) = sweep(full.take(j - 1), start, min_mins);
        let b = full[j - 1];
        assert(full.take(j).last() == b);
        if fits(cursor, b.0, min_mins) {
            let g = gap_slot(cursor, b.0);
            assert forall|i: int| 0 <= i < full.len() implies g.end.timestamp
                <= #[trigger] full[i].0.timestamp || full[i].1.timestamp <= g.start.timestamp by {
                if i >= j - 1 {
                    assert(full[j - 1].0.timestamp <= full[i].0.timestamp);
                }
            }
            let slots2 = slots.push(g);
            assert forall|t: int| 0 <= t < slots2.len() implies slot_in_window(
                #[trigger] slots2[t],
                start,
                end,
                min_mins,
            ) && clear_of(slots2[t], full) by {
                if t < slots.len() {
                    assert(slots2[t] == slots[t]);
                }
            }
        }
    }
}

/// Every free slot of a window lies inside the window, lasts at least `min_mins` minutes
/// and meets no event that takes up time.
pub proof fn law_window_slots_are_free(
    events: Seq<EventInfo>,
    window_start: Moment,
    window_end: Moment,
    min_mins: u32,
)
    ensures
        forall|t: int|
            0 <= t < window_slots(events, window_start, window_end, min_mins).len() ==> {
                let s = #[trigger] window_slots(events, window_start, window_end, min_mins)[t];
                slot_in_window(s, window_start, window_end, min_mins) && meets_no_event(
                    s,
                    events,
                    window_start,
                    window_end,
                )
            },
{
    let list = blocked_list(events, window_start, window_end);
    let full = sort_by_start(list);
    lemma_sort_keeps(list);
    lemma_blocked_list(events, window_start, window_end);
    assert forall|i: int| 0 <= i < full.len() implies #[trigger] full[i].0.timestamp
        <= window_start.timestamp || full[i].0.timestamp <= window_end.timestamp by {
        assert(full.to_multiset().count(full[i]) > 0);
        assert(list.contains(full[i]));
    }
    lemma_sweep(full, full.len() as int, window_start, window_end, min_mins);
    assert(full.take(full.len() as int) =~= full);
    let (slots, cursor) = sweep(full, window_start, min_mins);
    let all = window_slots(events, window_start, window_end, min_mins);
    assert forall|t: int| 0 <= t < all.len() implies slot_in_window(
        #[trigger] all[t],
        window_start,
        window_end,
        min_mins,
    ) && clear_of(all[t], full) by {
        if t < slots.len() {
            assert(all[t] == slots[t]);
        }
    }
    assert forall|t: int| 0 <= t < all.len() implies meets_no_event(
        #[trigger] all[t],
        events,
        window_start,
        window_end,
    ) by {
        let s = all[t];
        assert forall|k: int| 0 <= k < events.len() && blocks(#[trigger] events[k]) implies (if events[k].all_day {
            events[k].end.timestamp <= window_start.timestamp || events[k].start.timestamp
                >= window_end.timestamp
        } else {
            s.end.timestamp <= events[k].start.timestamp || events[k].end.timestamp
                <= s.start.timestamp
        }) by {
            let e = events[k];
            match blocked_interval(e, window_start, window_end) {
                Some(b) => {
                    assert(list.contains(b));
                    assert(list.to_multiset().count(b) > 0);
                    assert(full.contains(b));
                    let i = choose|i: int| 0 <= i < full.len() && full[i] == b;
                    assert(s.end.timestamp <= full[i].0.timestamp || full[i].1.timestamp
                        <= s.start.timestamp);
                },
                None => {},
            }
        }
    }
}

proof fn lemma_blocked_list(events: Seq<EventInfo>, window_start: Moment, window_end: Moment)
    ensures
        forall|k: int|
            0 <= k < events.len() ==> (#[trigger] blocked_interval(events[k], window_start, window_end) matches Some(b)
                ==> blocked_list(events, window_start, window_end).contains(b)),
        forall|b: (Moment, Moment)|
            #[trigger] blocked_list(events, window_start, window_end).contains(b) ==> b.0.timestamp
                <= window_start.timestamp || b.0.timestamp < window_end.timestamp,
    decreases events.len(),
{
    if events.len() > 0 {
        let rest = events.drop_last();
        lemma_blocked_list(rest, window_start, window_end);
        let l0 = blocked_list(rest, window_start, window_end);
        let l = blocked_list(events, window_start, window_end);
        assert forall|k: int|
            0 <= k < events.len() implies (#[trigger] blocked_interval(events[k], window_start, window_end) matches Some(b)
                ==> l.contains(b)) by {
            if k < events.len() - 1 {
                assert(events[k] == rest[k]);
                if let Some(b) = blocked_interval(events[k], window_start, window_end) {
                    assert(l0.contains(b));
                    let i = choose|i: int| 0 <= i < l0.len() && l0[i] == b;
                    assert(l[i] == b);
                }
            } else {
                if let Some(b) = blocked_interval(events[k], window_start, window_end) {
                    assert(l[l.len() - 1] == b);
                }
            }
        }
        assert forall|b: (Moment, Moment)| #[trigger] l.contains(b) implies b.0.timestamp
            <= window_start.timestamp || b.0.timestamp < window_end.timestamp by {
            let i = choose|i: int| 0 <= i < l.len() && l[i] == b;
            if i < l0.len() {
                assert(l0[i] == b);
                assert(l0.contains(b));
            }
        }
    }
}

/// Busy events that end no earlier than they start, and a window that does the same.
pub open spec fn well_formed_window(events: Seq<EventInfo>, window_start: Moment, window_end: Moment) -> bool {
    &&& window_start.timestamp <= window_end.timestamp
    &&& forall|k: int|
        0 <= k < events.len() && blocks(#[trigger] events[k]) ==> events[k].start.timestamp
            <= events[k].end.timestamp
}

/// Stretches that end no earlier than they start.
pub open spec fn forward(s: Seq<(Moment, Moment)>) -> bool {
    forall|i: int| 0 <= i < s.len() ==> #[trigger] s[i].0.timestamp <= s[i].1.timestamp
}

/// The span from `a` to `b` (in seconds since the epoch) meets none of the stretches.
pub open spec fn clear_span(s: Seq<(Moment, Moment)>, a: int, b: int) -> bool {
    forall|i: int| 0 <= i < s.len() ==> b <= #[trigger] s[i].0.timestamp || s[i].1.timestamp <= a
}

/// The span from `a` to `b` meets no busy event: no busy all-day event shares the window, and
/// every busy timed event ends by `a` or starts at `b` or later.
pub open spec fn free_between(events: Seq<EventInfo>, window_start: Moment, window_end: Moment, a: int, b: int) -> bool {
    forall|k: int|
        0 <= k < events.len() && blocks(#[trigger] events[k]) ==> if events[k].all_day {
            events[k].end.timestamp <= window_start.timestamp || events[k].start.timestamp
                >= window_end.timestamp
        } else {
            b <= events[k].start.timestamp || events[k].end.timestamp <= a
        }
}

/// Some slot holds the whole span from `a` to `b`.
pub open spec fn covered(slots: Seq<FreeSlot>, a: int, b: int) -> bool {
    exists|t: int| 0 <= t < slots.len() && #[trigger] slots[t].start.timestamp <= a && b <= slots[t].end.timestamp
}

/// Slots in order, each ending no later than the next one starts.
pub open spec fn in_order(slots: Seq<FreeSlot>) -> bool {
    forall|t: int, u: int| 0 <= t < u < slots.len() ==> #[trigger] slots[t].end.timestamp <= #[trigger] slots[u].start.timestamp
}

proof fn lemma_blocked_from(events: Seq<EventInfo>, window_start: Moment, window_end: Moment)
    ensures
        forall|x: (Moment, Moment)|
            #[trigger] blocked_list(events, window_start, window_end).contains(x) ==> exists|k: int|
                0 <= k < events.len() && blocked_interval(events[k], window_start, window_end) == Some(x),
    decreases events.len(),
{
    if events.len() > 0 {
        let rest = events.drop_last();
        lemma_blocked_from(rest, window_start, window_end);
        let l0 = blocked_list(rest, window_start, window_end);
        let l = blocked_list(events, window_start, window_end);
        assert forall|x: (Moment, Moment)| #[trigger] l.contains(x) implies exists|k: int|
            0 <= k < events.len() && blocked_interval(events[k], window_start, window_end) == Some(x) by {
            let i = choose|i: int| 0 <= i < l.len() && l[i] == x;
            if i < l0.len() {
                assert(l0[i] == x);
                assert(l0.contains(x));
                let k = choose|k: int|
                    0 <= k < rest.len() && blocked_interval(rest[k], window_start, window_end) == Some(x);
                assert(events[k] == rest[k]);
            } else {
                assert(blocked_interval(events[events.len() - 1], window_start, window_end) == Some(x));
            }
        }
    }
}

proof fn lemma_sweep_order(full: Seq<(Moment, Moment)>, j: int, start: Moment, min_mins: u32)
    requires
        ordered_by_start(full),
        forward(full),
        0 <= j <= full.len(),
    ensures
        ({
            let (slots, cursor) = sweep(full.take(j), start, min_mins);
            &&& start.timestamp <= cursor.timestamp
            &&& (cursor.timestamp == start.timestamp || exists|i: int|
                0 <= i < j && #[trigger] full[i].1.timestamp == cursor.timestamp)
            &&& forall|i: int| 0 <= i < j ==> #[trigger] full[i].1.timestamp <= cursor.timestamp
            &&& forall|t: int| 0 <= t < slots.len() ==> #[trigger] slots[t].end.timestamp <= cursor.timestamp
                && slots[t].start.timestamp < slots[t].end.timestamp
            &&& in_order(slots)
            &&& forall|a: int, b: int|
                #![trigger clear_span(full, a, b)]
                start.timestamp <= a && a < b && b <= cursor.timestamp && b - a >= min_mins * 60
                    && clear_span(full, a, b) ==> covered(slots, a, b)
        }),
    decreases j,
{
    if j > 0 {
        lemma_sweep_order(full, j - 1, start, min_mins);
        assert(full.take(j).drop_last() =~= full.take(j - 1));
        let (slots, cursor) = sweep(full.take(j - 1), start, min_mins);
        let bj = full[j - 1];
        assert(full.take(j).last() == bj);
        let (slots2, cursor2) = sweep(full.take(j), start, min_mins);
        assert(cursor2 == later(cursor, bj.1));
        assert(forward(full));
        assert(bj.0.timestamp <= bj.1.timestamp);
        if fits(cursor, bj.0, min_mins) {
            assert(slots2 == slots.push(gap_slot(cursor, bj.0)));
        } else {
            assert(slots2 == slots);
        }
        assert forall|t: int| 0 <= t < slots2.len() implies #[trigger] slots2[t].end.timestamp
            <= cursor2.timestamp && slots2[t].start.timestamp < slots2[t].end.timestamp by {
            if t < slots.len() {
                assert(slots2[t] == slots[t]);
            }
        }
        assert forall|t: int, u: int| 0 <= t < u < slots2.len() implies #[trigger] slots2[t].end.timestamp
            <= #[trigger] slots2[u].start.timestamp by {
            if u < slots.len() {
                assert(slots2[t] == slots[t]);
                assert(slots2[u] == slots[u]);
            } else {
                assert(slots2[t] == slots[t]);
                assert(slots[t].end.timestamp <= cursor.timestamp);
            }
        }
        if !(cursor2.timestamp == start.timestamp) {
            if cursor2.timestamp == bj.1.timestamp {
                assert(full[j - 1].1.timestamp == cursor2.timestamp);
            } else {
                assert(cursor2 == cursor);
                let i = choose|i: int| 0 <= i < j - 1 && #[trigger] full[i].1.timestamp == cursor.timestamp;
                assert(full[i].1.timestamp == cursor2.timestamp);
            }
        }
        assert forall|a: int, b: int|
            #![trigger clear_span(full, a, b)]
            start.timestamp <= a && a < b && b <= cursor2.timestamp && b - a >= min_mins * 60
                && clear_span(full, a, b) implies covered(slots2, a, b) by {
            if b <= cursor.timestamp {
                let t = choose|t: int|
                    0 <= t < slots.len() && #[trigger] slots[t].start.timestamp <= a && b <= slots[t].end.timestamp;
                assert(slots2[t] == slots[t]);
                assert(slots2[t].start.timestamp <= a && b <= slots2[t].end.timestamp);
            } else {
                if a < cursor.timestamp {
                    if cursor.timestamp != start.timestamp {
                        let i = choose|i: int| 0 <= i < j - 1 && #[trigger] full[i].1.timestamp == cursor.timestamp;
                        assert(b <= full[i].0.timestamp || full[i].1.timestamp <= a);
                        assert(full[i].0.timestamp <= full[i].1.timestamp);
                    }
                }
                assert(b <= full[j - 1].0.timestamp || full[j - 1].1.timestamp <= a);
                assert(fits(cursor, bj.0, min_mins));
                let t = slots.len() as int;
                assert(slots2[t] == gap_slot(cursor, bj.0));
                assert(slots2[t].start.timestamp <= a && b <= slots2[t].end.timestamp);
            }
        }
    } else {
        assert(full.take(0) =~= Seq::<(Moment, Moment)>::empty());
    }
}

/// The free slots of a window come in order, each ending no later than the next starts, and
/// none is left out: every span of the window that lasts at least `min_mins` minutes and meets
/// no busy event lies inside one of them. This holds where busy events end no earlier than
/// they start and the window too.
pub proof fn law_window_slots_in_order_and_complete(
    events: Seq<EventInfo>,
    window_start: Moment,
    window_end: Moment,
    min_mins: u32,
)
    requires
        well_formed_window(events, window_start, window_end),
    ensures
        in_order(window_slots(events, window_start, window_end, min_mins)),
        forall|a: int, b: int|
            #![trigger free_between(events, window_start, window_end, a, b)]
            window_start.timestamp <= a && a < b && b <= window_end.timestamp && b - a >= min_mins
                * 60 && free_between(events, window_start, window_end, a, b) ==> covered(
                window_slots(events, window_start, window_end, min_mins),
                a,
                b,
            ),
{
    let list = blocked_list(events, window_start, window_end);
    let full = sort_by_start(list);
    lemma_sort_keeps(list);
    lemma_blocked_from(events, window_start, window_end);
    assert forall|i: int| 0 <= i < full.len() implies #[trigger] full[i].0.timestamp <= full[i].1.timestamp by {
        assert(full.to_multiset().count(full[i]) > 0);
        assert(list.contains(full[i]));
        let k = choose|k: int|
            0 <= k < events.len() && blocked_interval(events[k], window_start, window_end) == Some(full[i]);
        assert(blocks(events[k]));
    }
    lemma_sweep_order(full, full.len() as int, window_start, min_mins);
    assert(full.take(full.len() as int) =~= full);
    let (slots, cursor) = sweep(full, window_start, min_mins);
    let all = window_slots(events, window_start, window_end, min_mins);
    assert forall|t: int, u: int| 0 <= t < u < all.len() implies #[trigger] all[t].end.timestamp
        <= #[trigger] all[u].start.timestamp by {
        assert(all[t] == slots[t]);
        if u < slots.len() {
            assert(all[u] == slots[u]);
        }
    }
    assert forall|a: int, b: int|
        #![trigger free_between(events, window_start, window_end, a, b)]
        window_start.timestamp <= a && a < b && b <= window_end.timestamp && b - a >= min_mins * 60
            && free_between(events, window_start, window_end, a, b) implies covered(all, a, b) by {
        assert forall|i: int| 0 <= i < full.len() implies b <= #[trigger] full[i].0.timestamp
            || full[i].1.timestamp <= a by {
            assert(full.to_multiset().count(full[i]) > 0);
            assert(list.contains(full[i]));
            let k = choose|k: int|
                0 <= k < events.len() && blocked_interval(events[k], window_start, window_end) == Some(full[i]);
            let e = events[k];
            assert(blocks(e));
            assert(e.all_day ==> e.end.timestamp <= window_start.timestamp || e.start.timestamp
                >= window_end.timestamp);
            assert(!e.all_day ==> b <= e.start.timestamp || e.end.timestamp <= a);
            if !e.all_day {
                assert(full[i] == (later(e.start, window_start), earlier(e.end, window_end)));
            }
        }
        assert(clear_span(full, a, b));
        if b <= cursor.timestamp {
            let t = choose|t: int|
                0 <= t < slots.len() && #[trigger] slots[t].start.timestamp <= a && b <= slots[t].end.timestamp;
            assert(all[t] == slots[t]);
            assert(all[t].start.timestamp <= a && b <= all[t].end.timestamp);
        } else {
            if a < cursor.timestamp {
                if cursor.timestamp != window_start.timestamp {
                    let i = choose|i: int| 0 <= i < full.len() && #[trigger] full[i].1.timestamp == cursor.timestamp;
                    assert(b <= full[i].0.timestamp || full[i].1.timestamp <= a);
                }
            }
            assert(fits(cursor, window_end, min_mins));
            let t = slots.len() as int;
            assert(all[t] == gap_slot(cursor, window_end));
            assert(all[t].start.timestamp <= a && b <= all[t].end.timestamp);
        }
    }
}

/// Every free slot of a run of windows lasts at least `min_mins` minutes and meets no event
/// that takes up time, timed or all-day.
pub proof fn law_all_slots_are_free(
    events: Seq<EventInfo>,
    windows: Seq<(Moment, Moment)>,
    min_mins: u32,
)
    ensures
        forall|t: int|
            0 <= t < all_window_slots(events, windows, min_mins).len() ==> {
                let s = #[trigger] all_window_slots(events, windows, min_mins)[t];
                &&& s.start.timestamp < s.end.timestamp
                &&& s.end.timestamp - s.start.timestamp >= min_mins * 60
                &&& forall|k: int|
                    0 <= k < events.len() && blocks(#[trigger] events[k])
                        ==> s.end.timestamp <= events[k].start.timestamp || events[k].end.timestamp
                        <= s.start.timestamp
            },
    decreases windows.len(),
{
    if windows.len() > 0 {
        law_all_slots_are_free(events, windows.drop_last(), min_mins);
        law_window_slots_are_free(events, windows.last().0, windows.last().1, min_mins);
        let before = all_window_slots(events, windows.drop_last(), min_mins);
        let last = window_slots(events, windows.last().0, windows.last().1, min_mins);
        let all = all_window_slots(events, windows, min_mins);
        assert forall|t: int| 0 <= t < all.len() implies ({
            let s = #[trigger] all[t];
            &&& s.start.timestamp < s.end.timestamp
            &&& s.end.timestamp - s.start.timestamp >= min_mins * 60
            &&& forall|k: int|
                0 <= k < events.len() && blocks(#[trigger] events[k])
                    ==> s.end.timestamp <= events[k].start.timestamp || events[k].end.timestamp
                    <= s.start.timestamp
        }) by {
            if t < before.len() {
                assert(all[t] == before[t]);
            } else {
                assert(all[t] == last[t - before.len()]);
                let s = all[t];
                assert(meets_no_event(s, events, windows.last().0, windows.last().1));
                assert(slot_in_window(s, windows.last().0, windows.last().1, min_mins));
            }
        }
    }
}

proof fn lemma_all_slots_within(events: Seq<EventInfo>, windows: Seq<(Moment, Moment)>, min_mins: u32)
    ensures
        forall|t: int|
            0 <= t < all_window_slots(events, windows, min_mins).len() ==> exists|k: int|
                0 <= k < windows.len() && windows[k].0.timestamp
                    <= #[trigger] all_window_slots(events, windows, min_mins)[t].start.timestamp
                    && all_window_slots(events, windows, min_mins)[t].end.timestamp
                    <= windows[k].1.timestamp,
    decreases windows.len(),
{
    if windows.len() > 0 {
        let prev = windows.drop_last();
        lemma_all_slots_within(events, prev, min_mins);
        law_window_slots_are_free(events, windows.last().0, windows.last().1, min_mins);
        let before = all_window_slots(events, prev, min_mins);
        let last = window_slots(events, windows.last().0, windows.last().1, min_mins);
        let all = all_window_slots(events, windows, min_mins);
        assert forall|t: int| 0 <= t < all.len() implies exists|k: int|
            0 <= k < windows.len() && windows[k].0.timestamp <= #[trigger] all[t].start.timestamp
                && all[t].end.timestamp <= windows[k].1.timestamp by {
            if t < before.len() {
                assert(all[t] == before[t]);
                let k = choose|k: int|
                    0 <= k < prev.len() && prev[k].0.timestamp <= #[trigger] before[t].start.timestamp
                        && before[t].end.timestamp <= prev[k].1.timestamp;
                assert(windows[k] == prev[k]);
            } else {
                assert(all[t] == last[t - before.len()]);
                assert(slot_in_window(last[t - before.len()], windows.last().0, windows.last().1, min_mins));
                let k = windows.len() - 1;
                assert(windows[k] == windows.last());
            }
        }
    }
}

/// The free slots of a run of windows, each window ending no later than the next one starts,
/// come in order, each ending no later than the next starts; and none is left out: every span
/// of a window that lasts at least `min_mins` minutes and meets no busy event lies inside one
/// of them. This holds where busy events end no earlier than they start and each window too.
pub proof fn law_all_slots_in_order_and_complete(
    events: Seq<EventInfo>,
    windows: Seq<(Moment, Moment)>,
    min_mins: u32,
)
    requires
        forall|k: int|
            0 <= k < windows.len() ==> well_formed_window(events, #[trigger] windows[k].0, windows[k].1),
        forall|k: int, l: int|
            0 <= k < l < windows.len() ==> #[trigger] windows[k].1.timestamp <= #[trigger] windows[l].0.timestamp,
    ensures
        in_order(all_window_slots(events, windows, min_mins)),
        forall|k: int, a: int, b: int|
            #![trigger free_between(events, windows[k].0, windows[k].1, a, b)]
            0 <= k < windows.len() && windows[k].0.timestamp <= a && a < b && b
                <= windows[k].1.timestamp && b - a >= min_mins * 60 && free_between(
                events,
                windows[k].0,
                windows[k].1,
                a,
                b,
            ) ==> covered(all_window_slots(events, windows, min_mins), a, b),
    decreases windows.len(),
{
    if windows.len() > 0 {
        let prev = windows.drop_last();
        let w = windows.last();
        assert forall|k: int| 0 <= k < prev.len() implies well_formed_window(events, #[trigger] prev[k].0, prev[k].1) by {
            assert(prev[k] == windows[k]);
        }
        assert forall|k: int, l: int| 0 <= k < l < prev.len() implies #[trigger] prev[k].1.timestamp
            <= #[trigger] prev[l].0.timestamp by {
            assert(prev[k] == windows[k]);
            assert(prev[l] == windows[l]);
        }
        law_all_slots_in_order_and_complete(events, prev, min_mins);
        lemma_all_slots_within(events, prev, min_mins);
        assert(windows[windows.len() - 1] == w);
        assert(well_formed_window(events, windows[windows.len() - 1].0, windows[windows.len() - 1].1));
        law_window_slots_in_order_and_complete(events, w.0, w.1, min_mins);
        law_window_slots_are_free(events, w.0, w.1, min_mins);
        let before = all_window_slots(events, prev, min_mins);
        let last = window_slots(events, w.0, w.1, min_mins);
        let all = all_window_slots(events, windows, min_mins);
        assert(all == before + last);
        assert forall|t: int, u: int| 0 <= t < u < all.len() implies #[trigger] all[t].end.timestamp
            <= #[trigger] all[u].start.timestamp by {
            if u < before.len() {
                assert(all[t] == before[t]);
                assert(all[u] == before[u]);
            } else if t >= before.len() {
                assert(all[t] == last[t - before.len()]);
                assert(all[u] == last[u - before.len()]);
            } else {
                assert(all[t] == before[t]);
                assert(all[u] == last[u - before.len()]);
                assert(slot_in_window(last[u - before.len()], w.0, w.1, min_mins));
                let k = choose|k: int|
                    0 <= k < prev.len() && prev[k].0.timestamp <= #[trigger] before[t].start.timestamp
                        && before[t].end.timestamp <= prev[k].1.timestamp;
                assert(prev[k] == windows[k]);
                assert(windows[k].1.timestamp <= windows[windows.len() - 1].0.timestamp);
            }
        }
        assert forall|k: int, a: int, b: int|
            #![trigger free_between(events, windows[k].0, windows[k].1, a, b)]
            0 <= k < windows.len() && windows[k].0.timestamp <= a && a < b && b
                <= windows[k].1.timestamp && b - a >= min_mins * 60 && free_between(
                events,
                windows[k].0,
                windows[k].1,
                a,
                b,
            ) implies covered(all, a, b) by {
            if k < prev.len() {
                assert(prev[k] == windows[k]);
                assert(free_between(events, prev[k].0, prev[k].1, a, b));
                assert(covered(before, a, b));
                let t = choose|t: int|
                    0 <= t < before.len() && #[trigger] before[t].start.timestamp <= a && b <= before[t].end.timestamp;
                assert(all[t] == before[t]);
                assert(all[t].start.timestamp <= a && b <= all[t].end.timestamp);
            } else {
                assert(windows[k] == w);
                assert(free_between(events, w.0, w.1, a, b));
                assert(covered(last, a, b));
                let t = choose|t: int|
                    0 <= t < last.len() && #[trigger] last[t].start.timestamp <= a && b <= last[t].end.timestamp;
                assert(all[t + before.len()] == last[t]);
                assert(all[t + before.len()].start.timestamp <= a && b <= all[t + before.len()].end.timestamp);
            }
        }
    }
}

} // verus!
