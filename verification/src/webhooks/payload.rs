//! The payload of an event, and its form for each platform.

use crate::json::{
    detail_json, json_opt_number, json_opt_string, json_string_literal, push_json_opt_number,
    push_json_opt_string, push_json_string, render_detail,
};
use crate::live::{spec_task_display_key, task_display_key};
use crate::models::{opt_chars, SystemEventRecord, SystemEventView, WebhookRecord};
use crate::text::{decimal, owned, push_decimal, str_eq};
use vstd::prelude::*;
use vstd::string::StringExecFns;

verus! {

/// What a webhook is told of one event.
pub struct WebhookPayload {
    pub event: String,
    pub project: String,
    pub task_id: Option<String>,
    pub task_number: Option<i64>,
    pub task_display_key: Option<String>,
    pub actor: String,
    /// The detail of the event, as JSON text.
    pub detail: String,
    pub created_at: String,
}

pub struct WebhookPayloadView {
    pub event: Seq<char>,
    pub project: Seq<char>,
    pub task_id: Option<Seq<char>>,
    pub task_number: Option<i64>,
    pub task_display_key: Option<Seq<char>>,
    pub actor: Seq<char>,
    pub detail: Seq<char>,
    pub created_at: Seq<char>,
}

impl View for WebhookPayload {
    type V = WebhookPayloadView;

    open spec fn view(&self) -> WebhookPayloadView {
        WebhookPayloadView {
            event: self.event@,
            project: self.project@,
            task_id: opt_chars(self.task_id),
            task_number: self.task_number,
            task_display_key: opt_chars(self.task_display_key),
            actor: self.actor@,
            detail: self.detail@,
            created_at: self.created_at@,
        }
    }
}

impl WebhookPayload {
    /// A copy of the payload.
    pub fn duplicate(&self) -> (copy: WebhookPayload)
        ensures
            copy@ == self@,
    {
        WebhookPayload {
            event: self.event.clone(),
            project: self.project.clone(),
            task_id: crate::models::clone_opt_string(&self.task_id),
            task_number: self.task_number,
            task_display_key: crate::models::clone_opt_string(&self.task_display_key),
            actor: self.actor.clone(),
            detail: self.detail.clone(),
            created_at: self.created_at.clone(),
        }
    }
}

/// The payload of `event`: its action as the name of the event, its project and
/// task, the display key of the task where it has a number, and its detail as JSON.
pub open spec fn spec_payload_from_system_event(event: SystemEventView) -> WebhookPayloadView {
    WebhookPayloadView {
        event: event.action,
        project: event.project_slug,
        task_id: event.task_id,
        task_number: event.task_number,
        task_display_key: spec_task_display_key(event.project_slug, event.task_number),
        actor: event.actor,
        detail: detail_json(event.detail),
        created_at: event.created_at,
    }
}

/// The payload of `event`; see [`spec_payload_from_system_event`].
pub fn payload_from_system_event(event: SystemEventRecord) -> (payload: WebhookPayload)
    ensures
        payload@ == spec_payload_from_system_event(event@),
{
    let detail = render_detail(event.detail.as_str());
    let display = task_display_key(event.project_slug.as_str(), event.task_number);
    WebhookPayload {
        event: event.action,
        project: event.project_slug,
        task_id: event.task_id,
        task_number: event.task_number,
        task_display_key: display,
        actor: event.actor,
        detail,
        created_at: event.created_at,
    }
}

/// The payload that a test delivery carries.
pub open spec fn spec_test_payload(project_slug: Seq<char>, created_at: Seq<char>)
    -> WebhookPayloadView {
    WebhookPayloadView {
        event: "test"@,
        project: project_slug,
        task_id: None,
        task_number: None,
        task_display_key: None,
        actor: "system"@,
        detail: "{\"message\":\"test webhook from lattice\"}"@,
        created_at,
    }
}

/// The payload of a delivery that is made on request, to try one subscription: a
/// made-up event named `test`, at the time `created_at`.
pub fn test_payload(project_slug: &str, created_at: &str) -> (payload: WebhookPayload)
    ensures
        payload@ == spec_test_payload(project_slug@, created_at@),
{
    WebhookPayload {
        event: owned("test"),
        project: owned(project_slug),
        task_id: None,
        task_number: None,
        task_display_key: None,
        actor: owned("system"),
        detail: owned("{\"message\":\"test webhook from lattice\"}"),
        created_at: owned(created_at),
    }
}

/// The colour of the embed of an event; grey for an event without one of its own.
pub open spec fn spec_discord_color(event: Seq<char>) -> u32 {
    if event == "task.created"@ {
        0x7A3FFF
    } else if event == "task.moved"@ {
        0x4F9DFF
    } else if event == "task.deleted"@ {
        0xC94C4C
    } else if event == "task.review_state_changed"@ {
        0xE0A341
    } else if event == "question.created"@ {
        0xF0C54A
    } else if event == "question.resolved"@ {
        0x4BB47B
    } else if event == "spec.updated"@ {
        0x9A65C7
    } else if event == "goal.updated"@ {
        0x74BBD6
    } else {
        0x8A8A8A
    }
}

/// The colour of the embed of `event`; see [`spec_discord_color`].
pub fn discord_color_for_event(event: &str) -> (color: u32)
    ensures
        color == spec_discord_color(event@),
{
    if str_eq(event, "task.created") {
        0x7A3FFF
    } else if str_eq(event, "task.moved") {
        0x4F9DFF
    } else if str_eq(event, "task.deleted") {
        0xC94C4C
    } else if str_eq(event, "task.review_state_changed") {
        0xE0A341
    } else if str_eq(event, "question.created") {
        0xF0C54A
    } else if str_eq(event, "question.resolved") {
        0x4BB47B
    } else if str_eq(event, "spec.updated") {
        0x9A65C7
    } else if str_eq(event, "goal.updated") {
        0x74BBD6
    } else {
        0x8A8A8A
    }
}

/// The detail as a message shows it: the JSON of the detail, and `{}` for a
/// detail that is `null`.
pub open spec fn spec_compact_json(detail: Seq<char>) -> Seq<char> {
    if detail == "null"@ {
        "{}"@
    } else {
        detail
    }
}

/// The detail as a message shows it; see [`spec_compact_json`].
pub fn compact_json(detail: &str) -> (shown: String)
    ensures
        shown@ == spec_compact_json(detail@),
{
    if str_eq(detail, "null") {
        owned("{}")
    } else {
        owned(detail)
    }
}

/// What a message calls the task: its display key, or `task` without one.
pub open spec fn spec_task_label(payload: WebhookPayloadView) -> Seq<char> {
    match payload.task_display_key {
        Some(key) => key,
        None => "task"@,
    }
}

fn task_label(payload: &WebhookPayload) -> (label: String)
    ensures
        label@ == spec_task_label(payload@),
{
    match &payload.task_display_key {
        Some(key) => key.clone(),
        None => owned("task"),
    }
}

/// The line that heads a Slack message.
pub open spec fn slack_headline(payload: WebhookPayloadView) -> Seq<char> {
    "["@ + payload.project + "] "@ + payload.event + " "@ + spec_task_label(payload)
}

/// The first section of a Slack message.
pub open spec fn slack_summary(payload: WebhookPayloadView) -> Seq<char> {
    "*"@ + payload.event + "* `"@ + spec_task_label(payload) + "` in *"@ + payload.project + "*"@
}

/// The context line of a Slack message.
pub open spec fn slack_context(payload: WebhookPayloadView) -> Seq<char> {
    "actor: "@ + payload.actor + " \u{2022} "@ + payload.created_at
}

/// A Slack message: a headline, and three blocks that give the event with its task
/// and project, the actor with the time, and the detail.
pub open spec fn spec_slack_payload(payload: WebhookPayloadView) -> Seq<char> {
    "{\"blocks\":[{\"text\":{\"text\":"@ + json_string_literal(slack_summary(payload))
        + ",\"type\":\"mrkdwn\"},\"type\":\"section\"},{\"elements\":[{\"text\":"@
        + json_string_literal(slack_context(payload))
        + ",\"type\":\"mrkdwn\"}],\"type\":\"context\"},{\"text\":{\"text\":"@
        + json_string_literal(spec_compact_json(payload.detail))
        + ",\"type\":\"mrkdwn\"},\"type\":\"section\"}],\"text\":"@ + json_string_literal(
        slack_headline(payload),
    ) + "}"@
}

/// The Slack message for `payload`; see [`spec_slack_payload`].
pub fn slack_payload(payload: &WebhookPayload) -> (body: String)
    ensures
        body@ == spec_slack_payload(payload@),
{
    let label = task_label(payload);
    let detail = compact_json(payload.detail.as_str());

    let mut headline = String::from_str("[");
    headline.append(payload.project.as_str());
    headline.append("] ");
    headline.append(payload.event.as_str());
    headline.append(" ");
    headline.append(label.as_str());

    let mut summary = String::from_str("*");
    summary.append(payload.event.as_str());
    summary.append("* `");
    summary.append(label.as_str());
    summary.append("` in *");
    summary.append(payload.project.as_str());
    summary.append("*");

    let mut context = String::from_str("actor: ");
    context.append(payload.actor.as_str());
    context.append(" \u{2022} ");
    context.append(payload.created_at.as_str());

    let mut out = String::from_str("{\"blocks\":[{\"text\":{\"text\":");
    push_json_string(&mut out, summary.as_str());
    out.append(",\"type\":\"mrkdwn\"},\"type\":\"section\"},{\"elements\":[{\"text\":");
    push_json_string(&mut out, context.as_str());
    out.append(",\"type\":\"mrkdwn\"}],\"type\":\"context\"},{\"text\":{\"text\":");
    push_json_string(&mut out, detail.as_str());
    out.append(",\"type\":\"mrkdwn\"},\"type\":\"section\"}],\"text\":");
    push_json_string(&mut out, headline.as_str());
    out.append("}");
    out
}

/// The title of a Discord embed.
pub open spec fn discord_title(payload: WebhookPayloadView) -> Seq<char> {
    payload.event + " \u{2022} "@ + spec_task_label(payload)
}

/// The footer of a Discord embed.
pub open spec fn discord_footer(payload: WebhookPayloadView) -> Seq<char> {
    payload.project + " \u{2022} "@ + payload.actor
}

/// A Discord message: one embed with the colour of the event, the detail as its
/// description, project and actor in its footer, the time of the event, and the
/// event with its task as the title.
pub open spec fn spec_discord_payload(payload: WebhookPayloadView) -> Seq<char> {
    "{\"embeds\":[{\"color\":"@ + decimal(spec_discord_color(payload.event) as nat)
        + ",\"description\":"@ + json_string_literal(spec_compact_json(payload.detail))
        + ",\"footer\":{\"text\":"@ + json_string_literal(discord_footer(payload))
        + "},\"timestamp\":"@ + json_string_literal(payload.created_at) + ",\"title\":"@
        + json_string_literal(discord_title(payload)) + "}]}"@
}

/// The Discord message for `payload`; see [`spec_discord_payload`].
pub fn discord_payload(payload: &WebhookPayload) -> (body: String)
    ensures
        body@ == spec_discord_payload(payload@),
{
    let label = task_label(payload);
    let detail = compact_json(payload.detail.as_str());

    let mut title = String::from_str(payload.event.as_str());
    title.append(" \u{2022} ");
    title.append(label.as_str());

    let mut footer = String::from_str(payload.project.as_str());
    footer.append(" \u{2022} ");
    footer.append(payload.actor.as_str());

    let mut out = String::from_str("{\"embeds\":[{\"color\":");
    push_decimal(&mut out, discord_color_for_event(payload.event.as_str()) as u64);
    out.append(",\"description\":");
    push_json_string(&mut out, detail.as_str());
    out.append(",\"footer\":{\"text\":");
    push_json_string(&mut out, footer.as_str());
    out.append("},\"timestamp\":");
    push_json_string(&mut out, payload.created_at.as_str());
    out.append(",\"title\":");
    push_json_string(&mut out, title.as_str());
    out.append("}]}");
    out
}

/// The payload as it is: one JSON object with its fields in the order of their
/// names, an absent one written as `null`.
pub open spec fn spec_generic_payload(payload: WebhookPayloadView) -> Seq<char> {
    "{\"actor\":"@ + json_string_literal(payload.actor) + ",\"created_at\":"@
        + json_string_literal(payload.created_at) + ",\"detail\":"@ + payload.detail
        + ",\"event\":"@ + json_string_literal(payload.event) + ",\"project\":"@
        + json_string_literal(payload.project) + ",\"task_display_key\":"@ + json_opt_string(
        payload.task_display_key,
    ) + ",\"task_id\":"@ + json_opt_string(payload.task_id) + ",\"task_number\":"@
        + json_opt_number(payload.task_number) + "}"@
}

/// The payload as it is, as JSON; see [`spec_generic_payload`].
pub fn generic_payload(payload: &WebhookPayload) -> (body: String)
    ensures
        body@ == spec_generic_payload(payload@),
{
    let mut out = String::from_str("{\"actor\":");
    push_json_string(&mut out, payload.actor.as_str());
    out.append(",\"created_at\":");
    push_json_string(&mut out, payload.created_at.as_str());
    out.append(",\"detail\":");
    out.append(payload.detail.as_str());
    out.append(",\"event\":");
    push_json_string(&mut out, payload.event.as_str());
    out.append(",\"project\":");
    push_json_string(&mut out, payload.project.as_str());
    out.append(",\"task_display_key\":");
    push_json_opt_string(&mut out, &payload.task_display_key);
    out.append(",\"task_id\":");
    push_json_opt_string(&mut out, &payload.task_id);
    out.append(",\"task_number\":");
    push_json_opt_number(&mut out, payload.task_number);
    out.append("}");
    out
}

/// The body of a delivery: the message of the platform for `slack` and `discord`,
/// and the payload as it is for every other platform.
pub open spec fn spec_webhook_body(platform: Seq<char>, payload: WebhookPayloadView) -> Seq<char> {
    if platform == "slack"@ {
        spec_slack_payload(payload)
    } else if platform == "discord"@ {
        spec_discord_payload(payload)
    } else {
        spec_generic_payload(payload)
    }
}

/// The body of the delivery of `payload` to `webhook`; see [`spec_webhook_body`].
pub fn webhook_body(webhook: &WebhookRecord, payload: &WebhookPayload) -> (body: String)
    ensures
        body@ == spec_webhook_body(webhook@.platform, payload@),
{
    if str_eq(webhook.platform.as_str(), "slack") {
        slack_payload(payload)
    } else if str_eq(webhook.platform.as_str(), "discord") {
        discord_payload(payload)
    } else {
        generic_payload(payload)
    }
}

} // verus!
