//! The records that the store keeps.

use vstd::prelude::*;

verus! {

/// The characters of a string that may be absent.
pub open spec fn opt_chars(value: Option<String>) -> Option<Seq<char>> {
    match value {
        Some(text) => Some(text@),
        None => None,
    }
}

/// A copy of a string that may be absent.
pub fn clone_opt_string(value: &Option<String>) -> (copy: Option<String>)
    ensures
        opt_chars(copy) == opt_chars(*value),
{
    match value {
        Some(text) => Some(text.clone()),
        None => None,
    }
}

#[derive(Debug, Clone)]
pub struct ProjectRecord {
    pub id: String,
    pub slug: String,
    pub name: String,
    pub goal: String,
    pub task_counter: i64,
    pub created_at: String,
    pub updated_at: String,
}

#[derive(Debug, Clone)]
pub struct OpenQuestionRecord {
    pub id: String,
    pub task_id: String,
    pub question: String,
    pub context: String,
    pub answer: Option<String>,
    pub status: String,
    pub asked_by: String,
    pub resolved_by: Option<String>,
    pub created_at: String,
    pub resolved_at: Option<String>,
}

#[derive(Debug, Clone)]
pub struct ProjectQuestionRecord {
    pub id: String,
    pub task_id: String,
    pub task_number: i64,
    pub question: String,
    pub context: String,
    pub answer: Option<String>,
    pub status: String,
    pub asked_by: String,
    pub resolved_by: Option<String>,
    pub created_at: String,
    pub resolved_at: Option<String>,
}

#[derive(Debug, Clone)]
pub struct SpecSectionRecord {
    pub id: String,
    pub project_id: String,
    pub section: String,
    pub content: String,
    pub updated_at: String,
}

#[derive(Debug, Clone)]
pub struct SpecRevisionRecord {
    pub id: String,
    pub project_id: String,
    pub section: String,
    pub content: String,
    pub edited_by: String,
    pub created_at: String,
}

#[derive(Debug, Clone)]
pub struct AttachmentRecord {
    pub id: String,
    pub task_id: String,
    pub filename: String,
    pub content_type: String,
    pub size_bytes: i64,
    pub storage_path: String,
    pub uploaded_by: String,
    pub created_at: String,
}

#[derive(Debug, Clone)]
pub struct TaskHistoryRecord {
    pub id: String,
    pub task_id: String,
    pub actor: String,
    pub action: String,
    pub detail: String,
    pub created_at: String,
}

#[derive(Debug, Clone)]
pub struct ProjectActivityRecord {
    pub id: String,
    pub task_id: String,
    pub task_number: i64,
    pub actor: String,
    pub action: String,
    pub detail: String,
    pub created_at: String,
}

#[derive(Debug, Clone)]
pub struct ProjectSummary {
    pub project: ProjectRecord,
    pub backlog_count: i64,
    pub ready_count: i64,
    pub in_progress_count: i64,
    pub review_count: i64,
    pub done_count: i64,
    pub open_question_count: i64,
    pub not_ready_count: i64,
}

/// One entry of the event log. Entries are never changed or removed. They are
/// ordered by `created_at` and then by `id`.
#[derive(Debug, Clone)]
pub struct SystemEventRecord {
    pub id: String,
    pub project_slug: String,
    pub task_id: Option<String>,
    pub task_number: Option<i64>,
    pub actor: String,
    pub action: String,
    /// What happened, as JSON text.
    pub detail: String,
    pub created_at: String,
}

pub struct SystemEventView {
    pub id: Seq<char>,
    pub project_slug: Seq<char>,
    pub task_id: Option<Seq<char>>,
    pub task_number: Option<i64>,
    pub actor: Seq<char>,
    pub action: Seq<char>,
    pub detail: Seq<char>,
    pub created_at: Seq<char>,
}

impl View for SystemEventRecord {
    type V = SystemEventView;

    open spec fn view(&self) -> SystemEventView {
        SystemEventView {
            id: self.id@,
            project_slug: self.project_slug@,
            task_id: opt_chars(self.task_id),
            task_number: self.task_number,
            actor: self.actor@,
            action: self.action@,
            detail: self.detail@,
            created_at: self.created_at@,
        }
    }
}

impl SystemEventRecord {
    /// A copy of the event.
    pub fn duplicate(&self) -> (copy: SystemEventRecord)
        ensures
            copy@ == self@,
    {
        SystemEventRecord {
            id: self.id.clone(),
            project_slug: self.project_slug.clone(),
            task_id: clone_opt_string(&self.task_id),
            task_number: self.task_number,
            actor: self.actor.clone(),
            action: self.action.clone(),
            detail: self.detail.clone(),
            created_at: self.created_at.clone(),
        }
    }
}

/// The events of `events`, as values.
pub open spec fn event_views(events: Seq<SystemEventRecord>) -> Seq<SystemEventView> {
    Seq::new(events.len(), |i: int| events[i]@)
}

/// A webhook subscription. `events` is the JSON array of the event names that it
/// is subscribed to, and `active` is zero for one that is switched off.
#[derive(Debug, Clone)]
pub struct WebhookRecord {
    pub id: String,
    pub project_id: String,
    pub name: String,
    pub url: String,
    pub platform: String,
    pub events: String,
    pub secret: Option<String>,
    pub active: i64,
    pub created_at: String,
    pub updated_at: String,
}

pub struct WebhookView {
    pub id: Seq<char>,
    pub project_id: Seq<char>,
    pub name: Seq<char>,
    pub url: Seq<char>,
    pub platform: Seq<char>,
    pub events: Seq<char>,
    pub secret: Option<Seq<char>>,
    pub active: i64,
    pub created_at: Seq<char>,
    pub updated_at: Seq<char>,
}

impl View for WebhookRecord {
    type V = WebhookView;

    open spec fn view(&self) -> WebhookView {
        WebhookView {
            id: self.id@,
            project_id: self.project_id@,
            name: self.name@,
            url: self.url@,
            platform: self.platform@,
            events: self.events@,
            secret: opt_chars(self.secret),
            active: self.active,
            created_at: self.created_at@,
            updated_at: self.updated_at@,
        }
    }
}

impl WebhookRecord {
    /// A copy of the subscription.
    pub fn duplicate(&self) -> (copy: WebhookRecord)
        ensures
            copy@ == self@,
    {
        WebhookRecord {
            id: self.id.clone(),
            project_id: self.project_id.clone(),
            name: self.name.clone(),
            url: self.url.clone(),
            platform: self.platform.clone(),
            events: self.events.clone(),
            secret: clone_opt_string(&self.secret),
            active: self.active,
            created_at: self.created_at.clone(),
            updated_at: self.updated_at.clone(),
        }
    }
}

} // verus!
