//! What a query of the log returns, as mathematics.

use crate::error::{AppError, AppErrorView, AppResult};
use crate::models::SystemEventView;
use crate::order::{position_less, Position};
use crate::text::{opt_str, owned};
use vstd::prelude::*;

verus! {

/// The most events that one query may ask for.
pub const MAX_EVENT_LIMIT: i64 = 200;

/// Where an event stands in the log.
pub open spec fn position_of(event: SystemEventView) -> Position {
    (event.created_at, event.id)
}

/// Every event comes before the ones behind it.
pub open spec fn ascending(log: Seq<SystemEventView>) -> bool {
    forall|i: int, j: int|
        0 <= i < j < log.len() ==> position_less(
            position_of(#[trigger] log[i]),
            position_of(#[trigger] log[j]),
        )
}

/// No two events have the same id.
pub open spec fn distinct_ids(log: Seq<SystemEventView>) -> bool {
    forall|i: int, j: int|
        0 <= i < j < log.len() ==> (#[trigger] log[i]).id != (#[trigger] log[j]).id
}

/// The event belongs to one of the projects of `filter`; an empty filter admits
/// every project.
pub open spec fn in_filter(event: SystemEventView, filter: Seq<Seq<char>>) -> bool {
    filter.len() == 0 || filter.contains(event.project_slug)
}

/// The event comes after `cursor`; without a cursor every event does.
pub open spec fn beyond(event: SystemEventView, cursor: Option<Position>) -> bool {
    match cursor {
        Some(seen) => position_less(seen, position_of(event)),
        None => true,
    }
}

/// The event is one that a query with `filter` and `cursor` asks for.
pub open spec fn wanted(event: SystemEventView, filter: Seq<Seq<char>>, cursor: Option<Position>)
    -> bool {
    in_filter(event, filter) && beyond(event, cursor)
}

/// The events of `log` that a query asks for, in the order of the log.
pub open spec fn selected(
    log: Seq<SystemEventView>,
    filter: Seq<Seq<char>>,
    cursor: Option<Position>,
) -> Seq<SystemEventView>
    decreases log.len(),
{
    if log.len() == 0 {
        Seq::empty()
    } else {
        let earlier = selected(log.drop_last(), filter, cursor);
        if wanted(log.last(), filter, cursor) {
            earlier.push(log.last())
        } else {
            earlier
        }
    }
}

/// What a query returns: the first `limit` of the events that it asks for.
pub open spec fn query_after(
    log: Seq<SystemEventView>,
    filter: Seq<Seq<char>>,
    cursor: Option<Position>,
    limit: int,
) -> Seq<SystemEventView> {
    let all = selected(log, filter, cursor);
    if all.len() <= limit {
        all
    } else {
        all.take(limit)
    }
}

/// The position of the newest event of the projects of `filter`, if there is one.
pub open spec fn latest_cursor(log: Seq<SystemEventView>, filter: Seq<Seq<char>>) -> Option<
    Position,
> {
    let all = selected(log, filter, None);
    if all.len() == 0 {
        None
    } else {
        Some(position_of(all.last()))
    }
}

/// The cursor that the two halves of a cursor make.
pub open spec fn cursor_of(after_created_at: Option<Seq<char>>, after_id: Option<Seq<char>>)
    -> Option<Position> {
    match (after_created_at, after_id) {
        (Some(created_at), Some(id)) => Some((created_at, id)),
        _ => None,
    }
}

/// Why a query is refused, if it is: its limit is not from 1 to `MAX_EVENT_LIMIT`,
/// or it gives one half of a cursor without the other.
pub open spec fn query_refusal(
    after_created_at: Option<Seq<char>>,
    after_id: Option<Seq<char>>,
    limit: i64,
) -> Option<AppErrorView> {
    if limit <= 0 || limit > MAX_EVENT_LIMIT {
        Some(AppErrorView::BadRequest("limit must be between 1 and 200"@))
    } else if (after_created_at is Some) != (after_id is Some) {
        Some(
            AppErrorView::BadRequest(
                "after_created_at and after_id must be provided together"@,
            ),
        )
    } else {
        None
    }
}

/// Checks a query before the log is read.
pub fn validate_event_query(after_created_at: Option<&str>, after_id: Option<&str>, limit: i64)
    -> (checked: AppResult<()>)
    ensures
        match checked {
            Ok(_) => query_refusal(opt_str(after_created_at), opt_str(after_id), limit) is None,
            Err(error) => query_refusal(opt_str(after_created_at), opt_str(after_id), limit)
                == Some(error@),
        },
{
    if limit <= 0 || limit > MAX_EVENT_LIMIT {
        return Err(AppError::BadRequest(owned("limit must be between 1 and 200")));
    }
    if after_created_at.is_some() != after_id.is_some() {
        return Err(
            AppError::BadRequest(owned("after_created_at and after_id must be provided together")),
        );
    }
    Ok(())
}

/// The words that an event is refused with whose task is gone.
pub open spec fn task_not_found_message(task_id: Seq<char>) -> Seq<char> {
    "task '"@ + task_id + "' not found"@
}

} // verus!
