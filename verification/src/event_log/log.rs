//! The log itself, kept in memory in the order of its events.

use crate::error::{AppError, AppErrorView, AppResult};
use crate::event_log::laws::lemma_nothing_beyond;
use crate::event_log::query::{
    ascending, beyond, cursor_of, distinct_ids, in_filter, latest_cursor, position_of, query_after,
    query_refusal, selected, task_not_found_message, validate_event_query,
};
use crate::json::string_views;
use crate::models::{event_views, SystemEventRecord, SystemEventView};
use crate::order::{
    lemma_position_total, lemma_position_transitive, position_before, position_less, Position,
};
use crate::text::{opt_str, str_eq};
use vstd::prelude::*;
use vstd::string::StringExecFns;

verus! {

/// The words that an event is refused with whose id the log holds already.
pub open spec fn duplicate_event_message(id: Seq<char>) -> Seq<char> {
    "event '"@ + id + "' already exists"@
}

/// Whether `slug` is one of `slugs`.
pub fn slug_listed(slugs: &Vec<String>, slug: &str) -> (listed: bool)
    ensures
        listed == string_views(slugs@).contains(slug@),
{
    let mut i: usize = 0;
    while i < slugs.len()
        invariant
            i <= slugs.len(),
            forall|k: int| 0 <= k < i ==> string_views(slugs@)[k] != slug@,
        decreases slugs.len() - i,
    {
        if str_eq(slugs[i].as_str(), slug) {
            assert(string_views(slugs@)[i as int] == slug@);
            return true;
        }
        i += 1;
    }
    false
}

proof fn lemma_selected_prefix(
    log: Seq<SystemEventView>,
    filter: Seq<Seq<char>>,
    cursor: Option<Position>,
    upto: int,
)
    requires
        0 <= upto <= log.len(),
    ensures
        selected(log.take(upto), filter, cursor).len() <= selected(log, filter, cursor).len(),
        selected(log, filter, cursor).take(
            selected(log.take(upto), filter, cursor).len() as int,
        ) == selected(log.take(upto), filter, cursor),
    decreases log.len() - upto,
{
    if upto == log.len() {
        assert(log.take(upto) == log);
        let all = selected(log, filter, cursor);
        assert(all.take(all.len() as int) == all);
    } else {
        lemma_selected_prefix(log, filter, cursor, upto + 1);
        assert(log.take(upto + 1).drop_last() == log.take(upto));
        let longer = selected(log.take(upto + 1), filter, cursor);
        let shorter = selected(log.take(upto), filter, cursor);
        let all = selected(log, filter, cursor);
        assert(all.take(shorter.len() as int) =~= all.take(longer.len() as int).take(
            shorter.len() as int,
        ));
        assert(longer.take(shorter.len() as int) =~= shorter);
    }
}

proof fn lemma_last_in_filter(log: Seq<SystemEventView>, filter: Seq<Seq<char>>, at: int)
    requires
        0 <= at < log.len(),
        in_filter(log[at], filter),
        forall|k: int| at < k < log.len() ==> !in_filter(#[trigger] log[k], filter),
    ensures
        latest_cursor(log, filter) == Some(position_of(log[at])),
    decreases log.len(),
{
    if at < log.len() - 1 {
        let shorter = log.drop_last();
        assert(shorter[at] == log[at]);
        assert forall|k: int| at < k < shorter.len() implies !in_filter(
            #[trigger] shorter[k],
            filter,
        ) by {
            assert(shorter[k] == log[k]);
        }
        lemma_last_in_filter(shorter, filter, at);
    }
}

/// An append-only log of events. It holds its events in their order: by the time
/// of each, and by id where two have the same time. No two events have one id.
pub struct EventLog {
    events: Vec<SystemEventRecord>,
}

impl View for EventLog {
    type V = Seq<SystemEventView>;

    closed spec fn view(&self) -> Seq<SystemEventView> {
        event_views(self.events@)
    }
}

impl EventLog {
    #[verifier::type_invariant]
    spec fn sound(self) -> bool {
        ascending(self@) && distinct_ids(self@)
    }

    /// A log without events.
    pub fn new() -> (log: EventLog)
        ensures
            log@ == Seq::<SystemEventView>::empty(),
    {
        let log = EventLog { events: Vec::new() };
        assert(log@ =~= Seq::<SystemEventView>::empty());
        log
    }

    /// Costs nothing when it runs; after it the verifier knows that the log is in
    /// order and holds no id twice, as every log does.
    pub fn note_ordered(&self)
        ensures
            ascending(self@),
            distinct_ids(self@),
    {
        proof {
            use_type_invariant(self);
        }
    }

    /// The number of events in the log.
    pub fn len(&self) -> (count: usize)
        ensures
            count == self@.len(),
    {
        self.events.len()
    }

    /// Adds an event. Nothing that the log holds is changed or removed: the event
    /// takes its place in the order. An event whose id the log holds is a conflict,
    /// and leaves the log as it was.
    pub fn append(&mut self, event: SystemEventRecord) -> (added: AppResult<()>)
        ensures
            ascending(final(self)@),
            distinct_ids(final(self)@),
            match added {
                Ok(_) => {
                    &&& forall|k: int|
                        0 <= k < old(self)@.len() ==> (#[trigger] old(self)@[k]).id != event@.id
                    &&& exists|at: int|
                        0 <= at <= old(self)@.len() && final(self)@ == old(self)@.insert(
                            at,
                            event@,
                        )
                },
                Err(error) => {
                    &&& exists|k: int|
                        0 <= k < old(self)@.len() && (#[trigger] old(self)@[k]).id == event@.id
                    &&& error@ == AppErrorView::Conflict(duplicate_event_message(event@.id))
                    &&& final(self)@ == old(self)@
                },
            },
    {
        proof {
            use_type_invariant(&*self);
        }
        let ghost before = self@;
        let count = self.events.len();
        let mut i: usize = 0;
        while i < count
            invariant
                i <= count == self.events@.len(),
                self@ == before,
                ascending(before),
                distinct_ids(before),
                forall|k: int| 0 <= k < i ==> (#[trigger] before[k]).id != event@.id,
            decreases count - i,
        {
            if str_eq(self.events[i].id.as_str(), event.id.as_str()) {
                assert(before[i as int].id == event@.id);
                let mut message = String::from_str("event '");
                message.append(event.id.as_str());
                message.append("' already exists");
                return Err(AppError::Conflict(message));
            }
            i += 1;
        }
        let mut at: usize = 0;
        while at < count && position_before(
            self.events[at].created_at.as_str(),
            self.events[at].id.as_str(),
            event.created_at.as_str(),
            event.id.as_str(),
        )
            invariant
                at <= count == self.events@.len(),
                self@ == before,
                forall|k: int|
                    0 <= k < at ==> position_less(
                        position_of(#[trigger] before[k]),
                        position_of(event@),
                    ),
            decreases count - at,
        {
            at += 1;
        }
        let ghost after = before.insert(at as int, event@);
        proof {
            assert forall|k: int| at <= k < before.len() implies position_less(
                position_of(event@),
                position_of(#[trigger] before[k]),
            ) by {
                lemma_position_total(position_of(before[at as int]), position_of(event@));
                assert(before[at as int].id != event@.id);
                if k > at {
                    lemma_position_transitive(
                        position_of(event@),
                        position_of(before[at as int]),
                        position_of(before[k]),
                    );
                }
            }
            assert forall|a: int, b: int| 0 <= a < b < after.len() implies position_less(
                position_of(#[trigger] after[a]),
                position_of(#[trigger] after[b]),
            ) by {
                if b < at {
                    assert(after[a] == before[a] && after[b] == before[b]);
                } else if b == at {
                    assert(after[a] == before[a]);
                } else if a < at {
                    assert(after[a] == before[a] && after[b] == before[b - 1]);
                    lemma_position_transitive(
                        position_of(before[a]),
                        position_of(event@),
                        position_of(before[b - 1]),
                    );
                } else if a == at {
                    assert(after[b] == before[b - 1]);
                } else {
                    assert(after[a] == before[a - 1] && after[b] == before[b - 1]);
                }
            }
            assert forall|a: int, b: int| 0 <= a < b < after.len() implies (#[trigger] after[a]).id
                != (#[trigger] after[b]).id by {
                if a < at && b < at {
                    assert(after[a] == before[a] && after[b] == before[b]);
                } else if a < at && b > at {
                    assert(after[a] == before[a] && after[b] == before[b - 1]);
                } else if a > at {
                    assert(after[a] == before[a - 1] && after[b] == before[b - 1]);
                } else if a == at {
                    assert(after[b] == before[b - 1]);
                } else {
                    assert(after[a] == before[a]);
                }
            }
        }
        let mut events: Vec<SystemEventRecord> = Vec::new();
        core::mem::swap(&mut events, &mut self.events);
        events.insert(at, event);
        assert(event_views(events@) =~= after);
        self.events = events;
        Ok(())
    }

    /// The events after a cursor, oldest first, of the projects of `project_slugs`,
    /// or of every project where none is named; no more than `limit` of them. A
    /// query that [`validate_event_query`] refuses is answered with its error.
    pub fn list_system_events(
        &self,
        project_slugs: &Vec<String>,
        after_created_at: Option<&str>,
        after_id: Option<&str>,
        limit: i64,
    ) -> (found: AppResult<Vec<SystemEventRecord>>)
        ensures
            match found {
                Ok(events) => {
                    &&& query_refusal(opt_str(after_created_at), opt_str(after_id), limit) is None
                    &&& event_views(events@) == query_after(
                        self@,
                        string_views(project_slugs@),
                        cursor_of(opt_str(after_created_at), opt_str(after_id)),
                        limit as int,
                    )
                },
                Err(error) => query_refusal(opt_str(after_created_at), opt_str(after_id), limit)
                    == Some(error@),
            },
    {
        match validate_event_query(after_created_at, after_id, limit) {
            Err(error) => {
                return Err(error);
            },
            Ok(_) => {},
        }
        let ghost filter = string_views(project_slugs@);
        let ghost cursor = cursor_of(opt_str(after_created_at), opt_str(after_id));
        let ghost log = self@;
        let mut out: Vec<SystemEventRecord> = Vec::new();
        let mut i: usize = 0;
        assert(log.take(0) =~= Seq::empty());
        assert(event_views(out@) =~= Seq::empty());
        while i < self.events.len() && (out.len() as i64) < limit
            invariant
                i <= self.events@.len(),
                log == self@,
                log.len() == self.events@.len(),
                0 < limit <= crate::event_log::query::MAX_EVENT_LIMIT,
                out@.len() <= limit,
                out@.len() <= i,
                filter == string_views(project_slugs@),
                cursor == cursor_of(opt_str(after_created_at), opt_str(after_id)),
                (after_created_at is Some) == (after_id is Some),
                event_views(out@) == selected(log.take(i as int), filter, cursor),
            decreases self.events@.len() - i,
        {
            let event = &self.events[i];
            let listed = project_slugs.len() == 0 || slug_listed(
                project_slugs,
                event.project_slug.as_str(),
            );
            let later = match (after_created_at, after_id) {
                (Some(created_at), Some(id)) => position_before(
                    created_at,
                    id,
                    event.created_at.as_str(),
                    event.id.as_str(),
                ),
                _ => true,
            };
            proof {
                assert(log.take(i + 1).drop_last() == log.take(i as int));
                assert(log.take(i + 1).last() == log[i as int]);
                assert(log[i as int] == event@);
                assert(listed == in_filter(event@, filter));
                assert(later == beyond(event@, cursor));
            }
            if listed && later {
                let ghost prior = event_views(out@);
                out.push(event.duplicate());
                assert(event_views(out@) =~= prior.push(event@));
            }
            i += 1;
        }
        proof {
            lemma_selected_prefix(log, filter, cursor, i as int);
            let all = selected(log, filter, cursor);
            if i == log.len() {
                assert(log.take(i as int) == log);
            } else {
                assert(out@.len() == limit);
                assert(all.take(limit as int) == event_views(out@));
                if all.len() <= limit {
                    assert(all.take(all.len() as int) == all);
                }
            }
        }
        Ok(out)
    }

    /// The position of the newest event of the projects of `project_slugs`, or of
    /// the newest event of all where none is named: where a reader starts that
    /// shall see only what comes later. A log without such an event has none.
    pub fn latest_system_event_cursor(&self, project_slugs: &Vec<String>) -> (latest: Option<
        (String, String),
    >)
        ensures
            match latest {
                Some((created_at, id)) => latest_cursor(self@, string_views(project_slugs@))
                    == Some((created_at@, id@)),
                None => latest_cursor(self@, string_views(project_slugs@)) is None,
            },
    {
        let ghost filter = string_views(project_slugs@);
        let ghost log = self@;
        let mut i: usize = self.events.len();
        while i > 0
            invariant
                i <= self.events@.len(),
                log == self@,
                log.len() == self.events@.len(),
                filter == string_views(project_slugs@),
                forall|k: int| i <= k < log.len() ==> !in_filter(#[trigger] log[k], filter),
            decreases i,
        {
            let event = &self.events[i - 1];
            assert(log[i - 1] == event@);
            if project_slugs.len() == 0 || slug_listed(project_slugs, event.project_slug.as_str()) {
                proof {
                    lemma_last_in_filter(log, filter, i - 1);
                }
                return Some((event.created_at.clone(), event.id.clone()));
            }
            i -= 1;
        }
        proof {
            lemma_nothing_beyond(log, filter, None);
        }
        None
    }
}

/// Whether an event about a task was recorded: the statement that records it
/// writes one row where the task exists, and none where the task is gone, which
/// is an error that undoes the change that the event describes.
pub fn ensure_event_recorded(task_id: &str, rows_affected: u64) -> (recorded: AppResult<()>)
    ensures
        match recorded {
            Ok(_) => rows_affected != 0,
            Err(error) => rows_affected == 0 && error@ == AppErrorView::NotFound(
                task_not_found_message(task_id@),
            ),
        },
{
    if rows_affected == 0 {
        let mut message = String::from_str("task '");
        message.append(task_id);
        message.append("' not found");
        return Err(AppError::NotFound(message));
    }
    Ok(())
}

} // verus!
