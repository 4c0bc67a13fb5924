//! What is stored of a subscription when one is made or changed.

use crate::api::{CreateWebhookInput, UpdateWebhookInput};
use crate::error::{AppError, AppErrorView, AppResult};
use crate::json::{json_string_literal, push_json_string, string_views};
use crate::models::{opt_chars, WebhookRecord, WebhookView};
use crate::text::{chars_of, owned, string_of, trim, trimmed};
use crate::validate::{
    normalize_optional_secret, normalize_webhook_events, normalize_webhook_platform,
    normalize_webhook_url, spec_normalize_optional_secret, spec_normalize_webhook_events,
    spec_normalize_webhook_platform, spec_normalize_webhook_url,
};
use vstd::prelude::*;
use vstd::string::StringExecFns;

verus! {

/// The fields of a subscription that a client sets, as they are stored.
pub struct WebhookSettings {
    pub name: String,
    pub url: String,
    pub platform: String,
    /// The events that the subscription is subscribed to, as a JSON array.
    pub events: String,
    pub secret: Option<String>,
    pub active: i64,
}

pub struct WebhookSettingsView {
    pub name: Seq<char>,
    pub url: Seq<char>,
    pub platform: Seq<char>,
    pub events: Seq<char>,
    pub secret: Option<Seq<char>>,
    pub active: i64,
}

impl View for WebhookSettings {
    type V = WebhookSettingsView;

    open spec fn view(&self) -> WebhookSettingsView {
        WebhookSettingsView {
            name: self.name@,
            url: self.url@,
            platform: self.platform@,
            events: self.events@,
            secret: opt_chars(self.secret),
            active: self.active,
        }
    }
}

/// The strings of `items` as JSON strings, with a comma before each but the first.
pub open spec fn json_string_items(items: Seq<Seq<char>>) -> Seq<char>
    decreases items.len(),
{
    if items.len() == 0 {
        Seq::empty()
    } else if items.len() == 1 {
        json_string_literal(items[0])
    } else {
        json_string_items(items.drop_last()) + seq![','] + json_string_literal(items.last())
    }
}

/// `items` as a JSON array of strings.
pub open spec fn json_string_list(items: Seq<Seq<char>>) -> Seq<char> {
    seq!['['] + json_string_items(items) + seq![']']
}

/// Writes `items` as a JSON array of strings.
pub fn encode_string_list(items: &Vec<String>) -> (text: String)
    ensures
        text@ == json_string_list(string_views(items@)),
{
    let ghost given = string_views(items@);
    let mut text = String::new();
    text.push('[');
    let mut i: usize = 0;
    assert(given.take(0) =~= Seq::<Seq<char>>::empty());
    assert(text@ =~= seq!['['] + json_string_items(given.take(0)));
    while i < items.len()
        invariant
            i <= items.len(),
            given == string_views(items@),
            text@ == seq!['['] + json_string_items(given.take(i as int)),
        decreases items.len() - i,
    {
        let ghost before = text@;
        if i > 0 {
            text.push(',');
        }
        push_json_string(&mut text, items[i].as_str());
        proof {
            let upto = given.take(i + 1);
            assert(upto.drop_last() =~= given.take(i as int));
            assert(upto.last() == items@[i as int]@);
            if i == 0 {
                assert(upto[0] == items@[0]@);
                assert(json_string_items(given.take(0)) =~= Seq::<char>::empty());
                assert(text@ =~= seq!['['] + json_string_items(upto));
            } else {
                assert(text@ =~= seq!['['] + json_string_items(upto));
            }
        }
        i += 1;
    }
    assert(given.take(items.len() as int) == given);
    text.push(']');
    assert(text@ =~= json_string_list(given));
    text
}

/// The name of a subscription is stored with the whitespace round it dropped, and
/// may not be empty.
pub open spec fn spec_webhook_name(name: Seq<char>) -> Result<Seq<char>, AppErrorView> {
    if trim(name).len() == 0 {
        Err(AppErrorView::BadRequest("webhook name cannot be empty"@))
    } else {
        Ok(trim(name))
    }
}

/// Reads the name of a subscription; see [`spec_webhook_name`].
pub fn webhook_name(name: &str) -> (read: AppResult<String>)
    ensures
        match read {
            Ok(kept) => spec_webhook_name(name@) == Ok::<Seq<char>, AppErrorView>(kept@),
            Err(error) => spec_webhook_name(name@) == Err::<Seq<char>, AppErrorView>(error@),
        },
{
    let chars = chars_of(name);
    let kept = trimmed(chars.as_slice());
    if kept.len() == 0 {
        return Err(AppError::BadRequest(owned("webhook name cannot be empty")));
    }
    Ok(string_of(kept.as_slice()))
}

/// Whether a subscription is switched on, as it is stored.
pub open spec fn active_flag(active: bool) -> i64 {
    if active {
        1
    } else {
        0
    }
}

/// What is stored of a new subscription: its name, address, platform and events,
/// each read by its rule, its secret, and whether it is switched on. The first
/// field that breaks its rule, in that order, is the error.
pub open spec fn spec_new_webhook(
    name: Seq<char>,
    url: Seq<char>,
    platform: Seq<char>,
    events: Seq<Seq<char>>,
    secret: Option<Seq<char>>,
    active: bool,
) -> Result<WebhookSettingsView, AppErrorView> {
    match spec_webhook_name(name) {
        Err(error) => Err(error),
        Ok(name) => match spec_normalize_webhook_url(url) {
            Err(error) => Err(error),
            Ok(url) => match spec_normalize_webhook_platform(platform) {
                Err(error) => Err(error),
                Ok(platform) => match spec_normalize_webhook_events(events) {
                    Err(error) => Err(error),
                    Ok(names) => Ok(
                        WebhookSettingsView {
                            name,
                            url,
                            platform,
                            events: json_string_list(names),
                            secret: spec_normalize_optional_secret(secret),
                            active: active_flag(active),
                        },
                    ),
                },
            },
        },
    }
}

/// What is stored of a new subscription; see [`spec_new_webhook`].
pub fn new_webhook_settings(input: CreateWebhookInput) -> (settings: AppResult<WebhookSettings>)
    ensures
        match settings {
            Ok(stored) => spec_new_webhook(
                input.name@,
                input.url@,
                input.platform@,
                string_views(input.events@),
                opt_chars(input.secret),
                input.active,
            ) == Ok::<WebhookSettingsView, AppErrorView>(stored@),
            Err(error) => spec_new_webhook(
                input.name@,
                input.url@,
                input.platform@,
                string_views(input.events@),
                opt_chars(input.secret),
                input.active,
            ) == Err::<WebhookSettingsView, AppErrorView>(error@),
        },
{
    let name = match webhook_name(input.name.as_str()) {
        Ok(name) => name,
        Err(error) => {
            return Err(error);
        },
    };
    let url = match normalize_webhook_url(input.url.as_str()) {
        Ok(url) => url,
        Err(error) => {
            return Err(error);
        },
    };
    let platform = match normalize_webhook_platform(input.platform.as_str()) {
        Ok(platform) => platform,
        Err(error) => {
            return Err(error);
        },
    };
    let names = match normalize_webhook_events(input.events) {
        Ok(names) => names,
        Err(error) => {
            return Err(error);
        },
    };
    let events = encode_string_list(&names);
    let secret = normalize_optional_secret(input.secret);
    let active: i64 = if input.active {
        1
    } else {
        0
    };
    Ok(WebhookSettings { name, url, platform, events, secret, active })
}

/// The strings of a list that may be absent.
pub open spec fn opt_string_views(list: Option<Vec<String>>) -> Option<Seq<Seq<char>>> {
    match list {
        Some(items) => Some(string_views(items@)),
        None => None,
    }
}

/// A change that names no field changes nothing, and is refused.
pub open spec fn is_empty_update(input: UpdateWebhookInput) -> bool {
    &&& input.name is None
    &&& input.url is None
    &&& input.platform is None
    &&& input.events is None
    &&& input.secret is None
    &&& input.active is None
}

/// What is stored of a subscription after a change: each field that the change
/// names, read by its rule, and every other field as it was. The first field that
/// breaks its rule, in the order name, address, platform, events, is the error.
pub open spec fn spec_changed_webhook(
    existing: WebhookView,
    name: Option<Seq<char>>,
    url: Option<Seq<char>>,
    platform: Option<Seq<char>>,
    events: Option<Seq<Seq<char>>>,
    secret: Option<Seq<char>>,
    active: Option<bool>,
) -> Result<WebhookSettingsView, AppErrorView> {
    let name = match name {
        Some(given) => spec_webhook_name(given),
        None => Ok(existing.name),
    };
    let url = match url {
        Some(given) => spec_normalize_webhook_url(given),
        None => Ok(existing.url),
    };
    let platform = match platform {
        Some(given) => spec_normalize_webhook_platform(given),
        None => Ok(existing.platform),
    };
    let events = match events {
        Some(given) => match spec_normalize_webhook_events(given) {
            Ok(names) => Ok(json_string_list(names)),
            Err(error) => Err(error),
        },
        None => Ok(existing.events),
    };
    match (name, url, platform, events) {
        (Err(error), _, _, _) => Err(error),
        (Ok(_), Err(error), _, _) => Err(error),
        (Ok(_), Ok(_), Err(error), _) => Err(error),
        (Ok(_), Ok(_), Ok(_), Err(error)) => Err(error),
        (Ok(name), Ok(url), Ok(platform), Ok(events)) => Ok(
            WebhookSettingsView {
                name,
                url,
                platform,
                events,
                secret: match secret {
                    Some(given) => spec_normalize_optional_secret(Some(given)),
                    None => existing.secret,
                },
                active: match active {
                    Some(given) => active_flag(given),
                    None => active_flag(existing.active == 1),
                },
            },
        ),
    }
}

/// What is stored of `existing` after the change `input`; see
/// [`spec_changed_webhook`].
pub fn changed_webhook_settings(existing: WebhookRecord, input: UpdateWebhookInput) -> (settings:
    AppResult<WebhookSettings>)
    ensures
        match settings {
            Ok(stored) => spec_changed_webhook(
                existing@,
                opt_chars(input.name),
                opt_chars(input.url),
                opt_chars(input.platform),
                opt_string_views(input.events),
                opt_chars(input.secret),
                input.active,
            ) == Ok::<WebhookSettingsView, AppErrorView>(stored@),
            Err(error) => spec_changed_webhook(
                existing@,
                opt_chars(input.name),
                opt_chars(input.url),
                opt_chars(input.platform),
                opt_string_views(input.events),
                opt_chars(input.secret),
                input.active,
            ) == Err::<WebhookSettingsView, AppErrorView>(error@),
        },
{
    let name = match input.name {
        Some(given) => match webhook_name(given.as_str()) {
            Ok(name) => name,
            Err(error) => {
                return Err(error);
            },
        },
        None => existing.name,
    };
    let url = match input.url {
        Some(given) => match normalize_webhook_url(given.as_str()) {
            Ok(url) => url,
            Err(error) => {
                return Err(error);
            },
        },
        None => existing.url,
    };
    let platform = match input.platform {
        Some(given) => match normalize_webhook_platform(given.as_str()) {
            Ok(platform) => platform,
            Err(error) => {
                return Err(error);
            },
        },
        None => existing.platform,
    };
    let events = match input.events {
        Some(given) => match normalize_webhook_events(given) {
            Ok(names) => encode_string_list(&names),
            Err(error) => {
                return Err(error);
            },
        },
        None => existing.events,
    };
    let secret = match input.secret {
        Some(given) => normalize_optional_secret(Some(given)),
        None => existing.secret,
    };
    let active: i64 = match input.active {
        Some(given) => if given {
            1
        } else {
            0
        },
        None => if existing.active == 1 {
            1
        } else {
            0
        },
    };
    Ok(WebhookSettings { name, url, platform, events, secret, active })
}

/// Refuses a change that names no field.
pub fn require_some_change(input: &UpdateWebhookInput) -> (checked: AppResult<()>)
    ensures
        match checked {
            Ok(_) => !is_empty_update(*input),
            Err(error) => is_empty_update(*input) && error@ == AppErrorView::BadRequest(
                "at least one field must be provided"@,
            ),
        },
{
    if input.name.is_none() && input.url.is_none() && input.platform.is_none()
        && input.events.is_none() && input.secret.is_none() && input.active.is_none() {
        return Err(AppError::BadRequest(owned("at least one field must be provided")));
    }
    Ok(())
}

/// The words that a subscription is refused with that does not exist.
pub open spec fn webhook_not_found_message(webhook_id: Seq<char>) -> Seq<char> {
    "webhook '"@ + webhook_id + "' not found"@
}

/// Whether a subscription was removed: the statement that removes it writes one
/// row where it exists, and none where it does not, which is an error.
pub fn ensure_webhook_deleted(webhook_id: &str, rows_affected: u64) -> (deleted: AppResult<()>)
    ensures
        match deleted {
            Ok(_) => rows_affected != 0,
            Err(error) => rows_affected == 0 && error@ == AppErrorView::NotFound(
                webhook_not_found_message(webhook_id@),
            ),
        },
{
    if rows_affected == 0 {
        let mut message = String::from_str("webhook '");
        message.append(webhook_id);
        message.append("' not found");
        return Err(AppError::NotFound(message));
    }
    Ok(())
}

} // verus!
