//! Live subscriptions: what a connected reader is sent, and where it stands in
//! the log.

use crate::error::{AppErrorView, AppResult};
use crate::event_log::query::{position_of, query_after};
use crate::event_log::EventLog;
use crate::json::{
    detail_json, json_opt_number, json_opt_string, json_string_literal, push_json_opt_number,
    push_json_opt_string, push_json_string, render_detail, string_views,
};
use crate::models::{event_views, opt_chars, SystemEventRecord, SystemEventView};
use crate::order::Position;
use crate::slug::{display_key, normalize_slug, spec_display_key, spec_normalize_slug};
use crate::sorted::{insert_into, insert_sorted, strictly_sorted};
use vstd::prelude::*;
use vstd::string::StringExecFns;

verus! {

/// The most events that one poll of a subscription takes.
pub const SSE_POLL_LIMIT: i64 = 100;

/// The milliseconds between two polls of a subscription.
pub const SSE_POLL_INTERVAL_MS: u64 = 750;

/// The seconds between two keep-alive frames on a connection.
pub const SSE_HEARTBEAT_SECS: u64 = 15;

/// The frames that a connection buffers before its sender waits.
pub const SSE_CHANNEL_CAPACITY: usize = 64;

/// What a keep-alive frame carries.
pub fn keep_alive_text() -> (text: &'static str)
    ensures
        text@ == "keep-alive"@,
{
    "keep-alive"
}

/// The body of the frame of one event.
pub struct TaskEventPayload {
    pub id: String,
    pub project: String,
    pub task_id: Option<String>,
    pub task_number: Option<i64>,
    pub task_display_key: Option<String>,
    pub action: String,
    pub actor: String,
    /// The detail of the event, as JSON text.
    pub detail: String,
    pub created_at: String,
}

pub struct TaskEventPayloadView {
    pub id: Seq<char>,
    pub project: Seq<char>,
    pub task_id: Option<Seq<char>>,
    pub task_number: Option<i64>,
    pub task_display_key: Option<Seq<char>>,
    pub action: Seq<char>,
    pub actor: Seq<char>,
    pub detail: Seq<char>,
    pub created_at: Seq<char>,
}

impl View for TaskEventPayload {
    type V = TaskEventPayloadView;

    open spec fn view(&self) -> TaskEventPayloadView {
        TaskEventPayloadView {
            id: self.id@,
            project: self.project@,
            task_id: opt_chars(self.task_id),
            task_number: self.task_number,
            task_display_key: opt_chars(self.task_display_key),
            action: self.action@,
            actor: self.actor@,
            detail: self.detail@,
            created_at: self.created_at@,
        }
    }
}

/// The display key of the task of an event, where the event has a task number.
pub open spec fn spec_task_display_key(project_slug: Seq<char>, task_number: Option<i64>)
    -> Option<Seq<char>> {
    match task_number {
        Some(number) => Some(spec_display_key(project_slug, number)),
        None => None,
    }
}

/// The display key of the task of an event, where the event has a task number.
pub fn task_display_key(project_slug: &str, task_number: Option<i64>) -> (key: Option<String>)
    ensures
        opt_chars(key) == spec_task_display_key(project_slug@, task_number),
{
    match task_number {
        Some(number) => Some(display_key(project_slug, number)),
        None => None,
    }
}

/// The body of the frame of `event`.
pub open spec fn spec_map_task_event(event: SystemEventView) -> TaskEventPayloadView {
    TaskEventPayloadView {
        id: event.id,
        project: event.project_slug,
        task_id: event.task_id,
        task_number: event.task_number,
        task_display_key: spec_task_display_key(event.project_slug, event.task_number),
        action: event.action,
        actor: event.actor,
        detail: detail_json(event.detail),
        created_at: event.created_at,
    }
}

/// The body of the frame of `event`; see [`spec_map_task_event`].
pub fn map_task_event(event: SystemEventRecord) -> (payload: TaskEventPayload)
    ensures
        payload@ == spec_map_task_event(event@),
{
    let display = task_display_key(event.project_slug.as_str(), event.task_number);
    let detail = render_detail(event.detail.as_str());
    TaskEventPayload {
        id: event.id,
        project: event.project_slug,
        task_id: event.task_id,
        task_number: event.task_number,
        task_display_key: display,
        action: event.action,
        actor: event.actor,
        detail,
        created_at: event.created_at,
    }
}

/// The body of a frame as JSON text: one object with the fields of the payload in
/// their order, an absent one written as `null`.
pub open spec fn spec_payload_json(payload: TaskEventPayloadView) -> Seq<char> {
    "{\"id\":"@ + json_string_literal(payload.id) + ",\"project\":"@ + json_string_literal(
        payload.project,
    ) + ",\"task_id\":"@ + json_opt_string(payload.task_id) + ",\"task_number\":"@
        + json_opt_number(payload.task_number) + ",\"task_display_key\":"@ + json_opt_string(
        payload.task_display_key,
    ) + ",\"action\":"@ + json_string_literal(payload.action) + ",\"actor\":"@
        + json_string_literal(payload.actor) + ",\"detail\":"@ + payload.detail
        + ",\"created_at\":"@ + json_string_literal(payload.created_at) + "}"@
}

impl TaskEventPayload {
    /// The payload as JSON text; see [`spec_payload_json`].
    pub fn to_json(&self) -> (text: String)
        ensures
            text@ == spec_payload_json(self@),
    {
        let mut out = String::from_str("{\"id\":");
        push_json_string(&mut out, self.id.as_str());
        out.append(",\"project\":");
        push_json_string(&mut out, self.project.as_str());
        out.append(",\"task_id\":");
        push_json_opt_string(&mut out, &self.task_id);
        out.append(",\"task_number\":");
        push_json_opt_number(&mut out, self.task_number);
        out.append(",\"task_display_key\":");
        push_json_opt_string(&mut out, &self.task_display_key);
        out.append(",\"action\":");
        push_json_string(&mut out, self.action.as_str());
        out.append(",\"actor\":");
        push_json_string(&mut out, self.actor.as_str());
        out.append(",\"detail\":");
        out.append(self.detail.as_str());
        out.append(",\"created_at\":");
        push_json_string(&mut out, self.created_at.as_str());
        out.append("}");
        out
    }
}

/// One frame on the wire: the id of the event, its action as the name of the
/// frame, and its body.
pub struct SseFrame {
    pub id: String,
    pub event: String,
    pub data: String,
}

pub struct SseFrameView {
    pub id: Seq<char>,
    pub event: Seq<char>,
    pub data: Seq<char>,
}

impl View for SseFrame {
    type V = SseFrameView;

    open spec fn view(&self) -> SseFrameView {
        SseFrameView { id: self.id@, event: self.event@, data: self.data@ }
    }
}

/// The frame of `event`.
pub open spec fn spec_frame(event: SystemEventView) -> SseFrameView {
    SseFrameView {
        id: event.id,
        event: event.action,
        data: spec_payload_json(spec_map_task_event(event)),
    }
}

/// The frames of `events`, one for each, in their order.
pub open spec fn spec_frames(events: Seq<SystemEventView>) -> Seq<SseFrameView> {
    Seq::new(events.len(), |i: int| spec_frame(events[i]))
}

/// The frames of `frames`, as values.
pub open spec fn frame_views(frames: Seq<SseFrame>) -> Seq<SseFrameView> {
    Seq::new(frames.len(), |i: int| frames[i]@)
}

/// The frame of `event`; see [`spec_frame`].
pub fn frame_of(event: SystemEventRecord) -> (frame: SseFrame)
    ensures
        frame@ == spec_frame(event@),
{
    let payload = map_task_event(event);
    let data = payload.to_json();
    SseFrame { id: payload.id, event: payload.action, data }
}

/// The project filter of a subscription: each name read as a slug, in ascending
/// order, each once. The first name that is no slug is the error.
pub open spec fn spec_normalize_project_filters(projects: Seq<Seq<char>>) -> Result<
    Seq<Seq<char>>,
    AppErrorView,
>
    decreases projects.len(),
{
    if projects.len() == 0 {
        Ok(Seq::empty())
    } else {
        match spec_normalize_project_filters(projects.drop_last()) {
            Err(error) => Err(error),
            Ok(earlier) => match spec_normalize_slug(projects.last()) {
                Err(error) => Err(error),
                Ok(slug) => Ok(insert_into(earlier, slug)),
            },
        }
    }
}

/// The project filter of a subscription; see [`spec_normalize_project_filters`].
pub fn normalize_project_filters(projects: Vec<String>) -> (normalized: AppResult<Vec<String>>)
    ensures
        match normalized {
            Ok(slugs) => spec_normalize_project_filters(string_views(projects@)) == Ok::<
                Seq<Seq<char>>,
                AppErrorView,
            >(string_views(slugs@)) && strictly_sorted(string_views(slugs@)),
            Err(error) => spec_normalize_project_filters(string_views(projects@)) == Err::<
                Seq<Seq<char>>,
                AppErrorView,
            >(error@),
        },
{
    let ghost names = string_views(projects@);
    let mut out: Vec<String> = Vec::new();
    let mut i: usize = 0;
    assert(names.take(0) =~= Seq::empty());
    assert(string_views(out@) =~= Seq::empty());
    while i < projects.len()
        invariant
            i <= projects.len(),
            names == string_views(projects@),
            strictly_sorted(string_views(out@)),
            spec_normalize_project_filters(names.take(i as int)) == Ok::<
                Seq<Seq<char>>,
                AppErrorView,
            >(string_views(out@)),
        decreases projects.len() - i,
    {
        proof {
            assert(names.take(i + 1).drop_last() == names.take(i as int));
            assert(names.take(i + 1).last() == projects@[i as int]@);
        }
        match normalize_slug(projects[i].as_str()) {
            Ok(slug) => {
                insert_sorted(&mut out, slug);
            },
            Err(error) => {
                proof {
                    lemma_filters_error_stays(names, i + 1);
                }
                return Err(error);
            },
        }
        i += 1;
    }
    assert(names.take(projects.len() as int) == names);
    Ok(out)
}

proof fn lemma_filters_error_stays(projects: Seq<Seq<char>>, upto: int)
    requires
        0 <= upto <= projects.len(),
        spec_normalize_project_filters(projects.take(upto)) is Err,
    ensures
        spec_normalize_project_filters(projects) == spec_normalize_project_filters(
            projects.take(upto),
        ),
    decreases projects.len() - upto,
{
    if upto == projects.len() {
        assert(projects.take(upto) == projects);
    } else {
        assert(projects.take(upto + 1).drop_last() == projects.take(upto));
        lemma_filters_error_stays(projects, upto + 1);
    }
}

/// One connected reader: the projects that it asked for, and the position of the
/// last event that it was sent.
pub struct LiveSubscription {
    project_slugs: Vec<String>,
    cursor: Option<(String, String)>,
}

/// The position that a pair of strings writes.
pub open spec fn cursor_view(cursor: Option<(String, String)>) -> Option<Position> {
    match cursor {
        Some((created_at, id)) => Some((created_at@, id@)),
        None => None,
    }
}

/// Where a reader stands once it was sent `events`: at the last of them, or where
/// it stood if there is none.
pub open spec fn advanced(cursor: Option<Position>, events: Seq<SystemEventView>) -> Option<
    Position,
> {
    if events.len() == 0 {
        cursor
    } else {
        Some(position_of(events.last()))
    }
}

impl LiveSubscription {
    /// The projects that the subscription asked for.
    pub closed spec fn filter(&self) -> Seq<Seq<char>> {
        string_views(self.project_slugs@)
    }

    /// The position of the last event that the subscription was sent.
    pub closed spec fn position(&self) -> Option<Position> {
        cursor_view(self.cursor)
    }

    /// A subscription that begins at `latest`, the latest cursor of the log at the
    /// time of subscribing, so that it is sent what comes later and nothing that
    /// the log held before.
    pub fn subscribe(project_slugs: Vec<String>, latest: Option<(String, String)>) -> (opened:
        LiveSubscription)
        ensures
            opened.filter() == string_views(project_slugs@),
            opened.position() == cursor_view(latest),
    {
        LiveSubscription { project_slugs, cursor: latest }
    }

    /// Opens a subscription from what the query for the latest cursor gave. Where
    /// the query failed there is no subscription: a reader that does not know where
    /// the log ends would be sent what the log held before, so it ends with the
    /// error of the query.
    pub fn subscribe_from(
        project_slugs: Vec<String>,
        latest: AppResult<Option<(String, String)>>,
    ) -> (opened: AppResult<LiveSubscription>)
        ensures
            match latest {
                Ok(cursor) => opened matches Ok(subscription) && subscription.filter()
                    == string_views(project_slugs@) && subscription.position() == cursor_view(
                    cursor,
                ),
                Err(failure) => opened matches Err(error) && error@ == failure@,
            },
    {
        match latest {
            Ok(cursor) => Ok(LiveSubscription::subscribe(project_slugs, cursor)),
            Err(failure) => Err(failure),
        }
    }

    /// Takes what a query of the log gave. Events are taken as [`deliver`] takes
    /// them. Where the query failed the reader ends with its error, and stands
    /// where it stood.
    ///
    /// [`deliver`]: LiveSubscription::deliver
    pub fn receive(&mut self, found: AppResult<Vec<SystemEventRecord>>) -> (frames: AppResult<
        Vec<SseFrame>,
    >)
        ensures
            final(self).filter() == old(self).filter(),
            match found {
                Ok(events) => frames matches Ok(sent) && frame_views(sent@) == spec_frames(
                    event_views(events@),
                ) && final(self).position() == advanced(
                    old(self).position(),
                    event_views(events@),
                ),
                Err(failure) => {
                    &&& frames matches Err(error) && error@ == failure@
                    &&& final(self).position() == old(self).position()
                },
            },
    {
        match found {
            Ok(events) => Ok(self.deliver(events)),
            Err(failure) => Err(failure),
        }
    }

    /// The projects that the next query asks for.
    pub fn project_slugs(&self) -> (slugs: &Vec<String>)
        ensures
            string_views(slugs@) == self.filter(),
    {
        &self.project_slugs
    }

    /// The time of the cursor of the next query.
    pub fn after_created_at(&self) -> (created_at: Option<&str>)
        ensures
            match created_at {
                Some(text) => self.position() matches Some(at) && at.0 == text@,
                None => self.position() is None,
            },
    {
        match &self.cursor {
            Some(pair) => Some(pair.0.as_str()),
            None => None,
        }
    }

    /// The id of the cursor of the next query.
    pub fn after_id(&self) -> (id: Option<&str>)
        ensures
            match id {
                Some(text) => self.position() matches Some(at) && at.1 == text@,
                None => self.position() is None,
            },
    {
        match &self.cursor {
            Some(pair) => Some(pair.1.as_str()),
            None => None,
        }
    }

    /// Takes the events that a query returned: the cursor moves to the last of them,
    /// and each becomes one frame, in the order of the events.
    pub fn deliver(&mut self, events: Vec<SystemEventRecord>) -> (frames: Vec<SseFrame>)
        ensures
            frame_views(frames@) == spec_frames(event_views(events@)),
            final(self).filter() == old(self).filter(),
            final(self).position() == advanced(old(self).position(), event_views(events@)),
    {
        let ghost given = event_views(events@);
        let mut frames: Vec<SseFrame> = Vec::new();
        let mut i: usize = 0;
        assert(frame_views(frames@) =~= spec_frames(given.take(0)));
        assert(given.take(0) =~= Seq::empty());
        while i < events.len()
            invariant
                i <= events.len(),
                given == event_views(events@),
                self.filter() == old(self).filter(),
                self.position() == advanced(old(self).position(), given.take(i as int)),
                frame_views(frames@) == spec_frames(given.take(i as int)),
            decreases events.len() - i,
        {
            let event = events[i].duplicate();
            let ghost prior = frame_views(frames@);
            self.cursor = Some((event.created_at.clone(), event.id.clone()));
            frames.push(frame_of(event));
            proof {
                assert(given.take(i + 1).last() == given[i as int]);
                assert(frame_views(frames@) =~= prior.push(spec_frame(given[i as int])));
                assert(spec_frames(given.take(i + 1)) =~= spec_frames(given.take(i as int)).push(
                    spec_frame(given[i as int]),
                ));
            }
            i += 1;
        }
        assert(given.take(events.len() as int) == given);
        frames
    }

    /// One poll of `log`: asks for the events after the cursor, no more than
    /// `SSE_POLL_LIMIT`, and takes them.
    pub fn poll(&mut self, log: &EventLog) -> (frames: Vec<SseFrame>)
        ensures
            frame_views(frames@) == spec_frames(
                query_after(log@, old(self).filter(), old(self).position(), SSE_POLL_LIMIT as int),
            ),
            final(self).filter() == old(self).filter(),
            final(self).position() == advanced(
                old(self).position(),
                query_after(log@, old(self).filter(), old(self).position(), SSE_POLL_LIMIT as int),
            ),
    {
        let found = log.list_system_events(
            &self.project_slugs,
            self.after_created_at(),
            self.after_id(),
            SSE_POLL_LIMIT,
        );
        match found {
            Ok(events) => self.deliver(events),
            // Never taken: the limit is in range and the cursor is whole.
            Err(_) => Vec::new(),
        }
    }
}

} // verus!
