//! What holds of every query of the log.

use crate::event_log::query::{
    ascending, beyond, in_filter, latest_cursor, position_of, query_after, selected, wanted,
};
use crate::models::SystemEventView;
use crate::order::{
    lemma_position_asymmetric, lemma_position_irreflexive, lemma_position_transitive, position_less,
    Position,
};
use vstd::prelude::*;

verus! {

/// What a query asks for is made of events of the log that it wants, each from a
/// place in the log behind the one before.
pub proof fn lemma_selected_from_log(
    log: Seq<SystemEventView>,
    filter: Seq<Seq<char>>,
    cursor: Option<Position>,
)
    ensures
        selected(log, filter, cursor).len() <= log.len(),
        forall|i: int|
            0 <= i < selected(log, filter, cursor).len() ==> wanted(
                #[trigger] selected(log, filter, cursor)[i],
                filter,
                cursor,
            ) && log.contains(selected(log, filter, cursor)[i]),
        forall|k: int|
            0 <= k < log.len() && wanted(#[trigger] log[k], filter, cursor) ==> selected(
                log,
                filter,
                cursor,
            ).contains(log[k]),
    decreases log.len(),
{
    if log.len() > 0 {
        let shorter = log.drop_last();
        lemma_selected_from_log(shorter, filter, cursor);
        let earlier = selected(shorter, filter, cursor);
        let all = selected(log, filter, cursor);
        assert forall|i: int| 0 <= i < all.len() implies wanted(#[trigger] all[i], filter, cursor)
            && log.contains(all[i]) by {
            if i < earlier.len() {
                assert(all[i] == earlier[i]);
                let k = choose|k: int| 0 <= k < shorter.len() && shorter[k] == earlier[i];
                assert(log[k] == all[i]);
            } else {
                assert(all[i] == log.last());
                assert(log[log.len() - 1] == all[i]);
            }
        }
        assert forall|k: int|
            0 <= k < log.len() && wanted(#[trigger] log[k], filter, cursor) implies all.contains(
            log[k],
        ) by {
            if k < shorter.len() {
                assert(shorter[k] == log[k]);
                let i = choose|i: int| 0 <= i < earlier.len() && earlier[i] == shorter[k];
                assert(all[i] == log[k]);
            } else {
                assert(all[all.len() - 1] == log[k]);
            }
        }
    }
}

/// The events of a query come in the order of the log: each one before the ones
/// behind it, by time, and by id where the times are the same.
pub proof fn lemma_selected_ascending(
    log: Seq<SystemEventView>,
    filter: Seq<Seq<char>>,
    cursor: Option<Position>,
)
    requires
        ascending(log),
    ensures
        ascending(selected(log, filter, cursor)),
    decreases log.len(),
{
    if log.len() > 0 {
        let shorter = log.drop_last();
        assert(ascending(shorter)) by {
            assert forall|i: int, j: int| 0 <= i < j < shorter.len() implies position_less(
                position_of(#[trigger] shorter[i]),
                position_of(#[trigger] shorter[j]),
            ) by {
                assert(shorter[i] == log[i] && shorter[j] == log[j]);
            }
        }
        lemma_selected_ascending(shorter, filter, cursor);
        lemma_selected_from_log(shorter, filter, cursor);
        let earlier = selected(shorter, filter, cursor);
        let all = selected(log, filter, cursor);
        assert forall|i: int, j: int| 0 <= i < j < all.len() implies position_less(
            position_of(#[trigger] all[i]),
            position_of(#[trigger] all[j]),
        ) by {
            if j < earlier.len() {
                assert(all[i] == earlier[i] && all[j] == earlier[j]);
            } else {
                assert(all[i] == earlier[i]);
                let k = choose|k: int| 0 <= k < shorter.len() && shorter[k] == earlier[i];
                assert(log[k] == all[i]);
                assert(log[log.len() - 1] == all[j]);
            }
        }
    }
}

/// A query returns its events in order: of two events of the log, the one that
/// comes first by time, and by id where the times are the same, is returned first.
pub proof fn lemma_query_in_order(
    log: Seq<SystemEventView>,
    filter: Seq<Seq<char>>,
    cursor: Option<Position>,
    limit: int,
)
    requires
        ascending(log),
        limit >= 0,
    ensures
        ascending(query_after(log, filter, cursor, limit)),
        forall|i: int, j: int|
            0 <= i < query_after(log, filter, cursor, limit).len() && 0 <= j < query_after(
                log,
                filter,
                cursor,
                limit,
            ).len() && position_less(
                position_of(#[trigger] query_after(log, filter, cursor, limit)[i]),
                position_of(#[trigger] query_after(log, filter, cursor, limit)[j]),
            ) ==> i < j,
{
    lemma_selected_ascending(log, filter, cursor);
    let found = query_after(log, filter, cursor, limit);
    let all = selected(log, filter, cursor);
    assert forall|i: int, j: int| 0 <= i < j < found.len() implies position_less(
        position_of(#[trigger] found[i]),
        position_of(#[trigger] found[j]),
    ) by {
        assert(found[i] == all[i] && found[j] == all[j]);
    }
    assert forall|i: int, j: int|
        0 <= i < found.len() && 0 <= j < found.len() && position_less(
            position_of(#[trigger] found[i]),
            position_of(#[trigger] found[j]),
        ) implies i < j by {
        if i == j {
            lemma_position_irreflexive(position_of(found[i]));
        } else if j < i {
            lemma_position_asymmetric(position_of(found[j]), position_of(found[i]));
        }
    }
}

/// A query never returns an event at or before its cursor, nor one of a project
/// that it did not ask for, nor more events than its limit.
pub proof fn lemma_query_beyond_cursor(
    log: Seq<SystemEventView>,
    filter: Seq<Seq<char>>,
    cursor: Option<Position>,
    limit: int,
)
    requires
        limit >= 0,
    ensures
        query_after(log, filter, cursor, limit).len() <= limit,
        forall|i: int|
            0 <= i < query_after(log, filter, cursor, limit).len() ==> {
                let event = #[trigger] query_after(log, filter, cursor, limit)[i];
                &&& beyond(event, cursor)
                &&& in_filter(event, filter)
                &&& log.contains(event)
                &&& cursor matches Some(seen) ==> position_of(event) != seen && !position_less(
                    position_of(event),
                    seen,
                )
            },
{
    lemma_selected_from_log(log, filter, cursor);
    let found = query_after(log, filter, cursor, limit);
    let all = selected(log, filter, cursor);
    assert forall|i: int| 0 <= i < found.len() implies {
        let event = #[trigger] found[i];
        &&& beyond(event, cursor)
        &&& in_filter(event, filter)
        &&& log.contains(event)
        &&& cursor matches Some(seen) ==> position_of(event) != seen && !position_less(
            position_of(event),
            seen,
        )
    } by {
        assert(found[i] == all[i]);
        if let Some(seen) = cursor {
            lemma_position_asymmetric(seen, position_of(found[i]));
        }
    }
}

/// A cursor that no event of the projects asked for lies beyond finds nothing.
pub proof fn lemma_nothing_beyond(
    log: Seq<SystemEventView>,
    filter: Seq<Seq<char>>,
    cursor: Option<Position>,
)
    requires
        forall|k: int| 0 <= k < log.len() ==> !wanted(#[trigger] log[k], filter, cursor),
    ensures
        selected(log, filter, cursor).len() == 0,
{
    lemma_selected_from_log(log, filter, cursor);
    let all = selected(log, filter, cursor);
    if all.len() > 0 {
        assert(wanted(all[0], filter, cursor));
        let k = choose|k: int| 0 <= k < log.len() && log[k] == all[0];
        assert(false);
    }
}

/// A reader that took everything that its query asked for finds nothing when it
/// asks again from the last event that it took, as long as nothing new is in the
/// log; and asking twice from one cursor gives the same answer.
pub proof fn lemma_requery_is_empty(
    log: Seq<SystemEventView>,
    filter: Seq<Seq<char>>,
    cursor: Option<Position>,
    limit: int,
    next_limit: int,
)
    requires
        ascending(log),
        0 < selected(log, filter, cursor).len() <= limit,
        next_limit >= 0,
    ensures
        query_after(log, filter, cursor, limit) == selected(log, filter, cursor),
        query_after(
            log,
            filter,
            Some(position_of(query_after(log, filter, cursor, limit).last())),
            next_limit,
        ).len() == 0,
{
    let all = selected(log, filter, cursor);
    let last = all.last();
    let next = Some(position_of(last));
    lemma_selected_from_log(log, filter, cursor);
    lemma_selected_ascending(log, filter, cursor);
    assert forall|k: int| 0 <= k < log.len() implies !wanted(#[trigger] log[k], filter, next) by {
        if wanted(log[k], filter, next) {
            if let Some(seen) = cursor {
                assert(wanted(last, filter, cursor));
                lemma_position_transitive(seen, position_of(last), position_of(log[k]));
            }
            assert(wanted(log[k], filter, cursor));
            let i = choose|i: int| 0 <= i < all.len() && all[i] == log[k];
            if i < all.len() - 1 {
                lemma_position_asymmetric(position_of(all[i]), position_of(last));
            } else {
                lemma_position_irreflexive(position_of(last));
            }
        }
    }
    lemma_nothing_beyond(log, filter, next);
}

/// A log without an event of the projects asked for has no latest cursor, and
/// only such a log.
pub proof fn lemma_latest_cursor_of_empty(log: Seq<SystemEventView>, filter: Seq<Seq<char>>)
    ensures
        log.len() == 0 ==> latest_cursor(log, filter) is None,
        latest_cursor(log, filter) is None <==> forall|k: int|
            0 <= k < log.len() ==> !in_filter(#[trigger] log[k], filter),
{
    lemma_selected_from_log(log, filter, None);
    let all = selected(log, filter, None);
    if all.len() > 0 {
        assert(wanted(all[0], filter, None));
        let k = choose|k: int| 0 <= k < log.len() && log[k] == all[0];
        assert(in_filter(log[k], filter));
    } else {
        assert forall|k: int| 0 <= k < log.len() implies !in_filter(#[trigger] log[k], filter) by {
            if in_filter(log[k], filter) {
                assert(wanted(log[k], filter, None));
                assert(all.contains(log[k]));
            }
        }
    }
}

/// A reader that starts at the latest cursor is not sent what the log held
/// before: its first query finds none of those events.
pub proof fn lemma_no_backlog(log: Seq<SystemEventView>, filter: Seq<Seq<char>>, limit: int)
    requires
        ascending(log),
        latest_cursor(log, filter) is Some,
        limit >= 0,
    ensures
        query_after(log, filter, latest_cursor(log, filter), limit).len() == 0,
{
    let everything = selected(log, filter, None);
    lemma_requery_is_empty(log, filter, None, everything.len() as int, limit);
}

/// An event of the log that lies beyond a reader's cursor, in a project that it
/// asked for, is in the answer to its query, or the answer is full and holds only
/// events that come before it, so that a later query reaches it.
pub proof fn lemma_later_event_is_reached(
    log: Seq<SystemEventView>,
    filter: Seq<Seq<char>>,
    cursor: Option<Position>,
    limit: int,
    event: SystemEventView,
)
    requires
        ascending(log),
        limit >= 0,
        log.contains(event),
        in_filter(event, filter),
        beyond(event, cursor),
    ensures
        query_after(log, filter, cursor, limit).contains(event) || (query_after(
            log,
            filter,
            cursor,
            limit,
        ).len() == limit && forall|i: int|
            0 <= i < limit ==> position_less(
                position_of(#[trigger] query_after(log, filter, cursor, limit)[i]),
                position_of(event),
            )),
{
    lemma_selected_from_log(log, filter, cursor);
    lemma_selected_ascending(log, filter, cursor);
    let all = selected(log, filter, cursor);
    let found = query_after(log, filter, cursor, limit);
    let k = choose|k: int| 0 <= k < log.len() && log[k] == event;
    assert(wanted(log[k], filter, cursor));
    let at = choose|at: int| 0 <= at < all.len() && all[at] == event;
    if at < found.len() {
        assert(found[at] == event);
    } else {
        assert forall|i: int| 0 <= i < limit implies position_less(
            position_of(#[trigger] found[i]),
            position_of(event),
        ) by {
            assert(found[i] == all[i]);
        }
    }
}

/// What the log held when a reader subscribed is never sent to it: however the log
/// grows, no query from the cursor that the reader started at, the latest cursor at
/// the time of subscribing, returns an event of that time.
pub proof fn lemma_backlog_is_never_sent(
    before: Seq<SystemEventView>,
    after: Seq<SystemEventView>,
    filter: Seq<Seq<char>>,
    limit: int,
    event: SystemEventView,
)
    requires
        ascending(before),
        before.contains(event),
        in_filter(event, filter),
        limit >= 0,
    ensures
        latest_cursor(before, filter) is Some,
        !query_after(after, filter, latest_cursor(before, filter), limit).contains(event),
{
    let held = selected(before, filter, None);
    lemma_selected_from_log(before, filter, None);
    lemma_selected_ascending(before, filter, None);
    let k = choose|k: int| 0 <= k < before.len() && before[k] == event;
    assert(wanted(before[k], filter, None));
    let at = choose|at: int| 0 <= at < held.len() && held[at] == event;
    let cursor = latest_cursor(before, filter);
    let newest = position_of(held.last());
    if at < held.len() - 1 {
        lemma_position_asymmetric(position_of(held[at]), newest);
    } else {
        lemma_position_irreflexive(newest);
    }
    assert(!beyond(event, cursor));
    lemma_query_beyond_cursor(after, filter, cursor, limit);
    let found = query_after(after, filter, cursor, limit);
    if found.contains(event) {
        let i = choose|i: int| 0 <= i < found.len() && found[i] == event;
        assert(beyond(found[i], cursor));
    }
}

} // verus!
