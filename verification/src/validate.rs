//! The rules that names and settings are held to before they are stored.

use crate::error::{AppError, AppErrorView, AppResult};
use crate::json::{json_string_array, parse_string_array, string_views};
use crate::sorted::{insert_into, insert_sorted, strictly_sorted};
use crate::text::{
    ascii_lower, chars_are, chars_of, owned, str_eq, string_of, to_ascii_lower, trim, trimmed,
};
use vstd::prelude::*;
use vstd::string::StringExecFns;

verus! {

/// The sections that the specification of a project has.
pub open spec fn is_spec_section(section: Seq<char>) -> bool {
    ||| section == "overview"@
    ||| section == "requirements"@
    ||| section == "architecture"@
    ||| section == "technical_design"@
    ||| section == "open_decisions"@
    ||| section == "references"@
}

/// The events that a webhook can subscribe to.
pub open spec fn is_webhook_event(name: Seq<char>) -> bool {
    ||| name == "task.created"@
    ||| name == "task.updated"@
    ||| name == "task.moved"@
    ||| name == "task.deleted"@
    ||| name == "task.review_state_changed"@
    ||| name == "question.created"@
    ||| name == "question.resolved"@
    ||| name == "spec.updated"@
    ||| name == "goal.updated"@
}

/// The columns that a task can stand in.
pub open spec fn is_task_status(value: Seq<char>) -> bool {
    ||| value == "backlog"@
    ||| value == "ready"@
    ||| value == "in_progress"@
    ||| value == "review"@
    ||| value == "done"@
}

/// The priorities that a task can have.
pub open spec fn is_task_priority(value: Seq<char>) -> bool {
    ||| value == "low"@
    ||| value == "medium"@
    ||| value == "high"@
    ||| value == "critical"@
}

/// The states of review that a task can have.
pub open spec fn is_review_state(value: Seq<char>) -> bool {
    value == "ready"@ || value == "not_ready"@
}

/// The platforms that a webhook can deliver to.
pub open spec fn is_webhook_platform(value: Seq<char>) -> bool {
    value == "slack"@ || value == "discord"@ || value == "generic"@
}

/// `lead`, then `value` in single quotes.
pub open spec fn quoted_message(lead: Seq<char>, value: Seq<char>) -> Seq<char> {
    lead + value + "'"@
}

fn bad_request_quoting(lead: &str, value: &str) -> (error: AppError)
    ensures
        error@ == AppErrorView::BadRequest(quoted_message(lead@, value@)),
{
    let mut message = String::from_str(lead);
    message.append(value);
    message.append("'");
    AppError::BadRequest(message)
}

fn webhook_event_known(name: &str) -> (known: bool)
    ensures
        known == is_webhook_event(name@),
{
    str_eq(name, "task.created") || str_eq(name, "task.updated") || str_eq(name, "task.moved")
        || str_eq(name, "task.deleted") || str_eq(name, "task.review_state_changed") || str_eq(
        name,
        "question.created",
    ) || str_eq(name, "question.resolved") || str_eq(name, "spec.updated") || str_eq(
        name,
        "goal.updated",
    )
}

/// Checks the name of a section of the specification.
pub fn validate_spec_section(section: &str) -> (checked: AppResult<()>)
    ensures
        match checked {
            Ok(_) => is_spec_section(section@),
            Err(error) => !is_spec_section(section@) && error@ == AppErrorView::BadRequest(
                quoted_message("invalid spec section '"@, section@),
            ),
        },
{
    if str_eq(section, "overview") || str_eq(section, "requirements") || str_eq(
        section,
        "architecture",
    ) || str_eq(section, "technical_design") || str_eq(section, "open_decisions") || str_eq(
        section,
        "references",
    ) {
        Ok(())
    } else {
        Err(bad_request_quoting("invalid spec section '", section))
    }
}

/// Checks the name of a status.
pub fn validate_status(value: &str) -> (checked: AppResult<()>)
    ensures
        match checked {
            Ok(_) => is_task_status(value@),
            Err(error) => !is_task_status(value@) && error@ == AppErrorView::BadRequest(
                quoted_message("invalid task status '"@, value@),
            ),
        },
{
    if str_eq(value, "backlog") || str_eq(value, "ready") || str_eq(value, "in_progress")
        || str_eq(value, "review") || str_eq(value, "done") {
        Ok(())
    } else {
        Err(bad_request_quoting("invalid task status '", value))
    }
}

/// Checks the name of a priority.
pub fn validate_priority(value: &str) -> (checked: AppResult<()>)
    ensures
        match checked {
            Ok(_) => is_task_priority(value@),
            Err(error) => !is_task_priority(value@) && error@ == AppErrorView::BadRequest(
                quoted_message("invalid task priority '"@, value@),
            ),
        },
{
    if str_eq(value, "low") || str_eq(value, "medium") || str_eq(value, "high") || str_eq(
        value,
        "critical",
    ) {
        Ok(())
    } else {
        Err(bad_request_quoting("invalid task priority '", value))
    }
}

/// Checks the name of a state of review.
pub fn validate_review_state(value: &str) -> (checked: AppResult<()>)
    ensures
        match checked {
            Ok(_) => is_review_state(value@),
            Err(error) => !is_review_state(value@) && error@ == AppErrorView::BadRequest(
                quoted_message("invalid review state '"@, value@),
            ),
        },
{
    if str_eq(value, "ready") || str_eq(value, "not_ready") {
        Ok(())
    } else {
        Err(bad_request_quoting("invalid review state '", value))
    }
}

/// A platform is read with the whitespace round it dropped and in lower case.
pub open spec fn spec_normalize_webhook_platform(value: Seq<char>) -> Result<
    Seq<char>,
    AppErrorView,
> {
    let platform = ascii_lower(trim(value));
    if is_webhook_platform(platform) {
        Ok(platform)
    } else {
        Err(AppErrorView::BadRequest(quoted_message("invalid webhook platform '"@, value)))
    }
}

/// Reads the name of a platform; see [`spec_normalize_webhook_platform`].
pub fn normalize_webhook_platform(value: &str) -> (normalized: AppResult<String>)
    ensures
        match normalized {
            Ok(platform) => spec_normalize_webhook_platform(value@) == Ok::<
                Seq<char>,
                AppErrorView,
            >(platform@),
            Err(error) => spec_normalize_webhook_platform(value@) == Err::<
                Seq<char>,
                AppErrorView,
            >(error@),
        },
{
    let chars = chars_of(value);
    let kept = trimmed(chars.as_slice());
    let platform = to_ascii_lower(kept.as_slice());
    if chars_are(platform.as_slice(), "slack") || chars_are(platform.as_slice(), "discord")
        || chars_are(platform.as_slice(), "generic") {
        Ok(string_of(platform.as_slice()))
    } else {
        Err(bad_request_quoting("invalid webhook platform '", value))
    }
}

/// What the `url` crate makes of `text`: the scheme of the URL that it writes and
/// the URL written out again, where it writes a URL.
pub uninterp spec fn parsed_url(text: Seq<char>) -> Option<(Seq<char>, Seq<char>)>;

/// `reqwest::Url::parse`, and of the URL that it read the `scheme` and the text
/// that its `Display` writes.
#[verifier::external_body]
fn parse_url(text: &str) -> (parsed: Option<(String, String)>)
    ensures
        match parsed {
            Some((scheme, written)) => parsed_url(text@) == Some((scheme@, written@)),
            None => parsed_url(text@) is None,
        },
{
    match reqwest::Url::parse(text) {
        Ok(url) => Some((url.scheme().to_owned(), url.to_string())),
        Err(_) => None,
    }
}

/// The address of a webhook is read with the whitespace round it dropped. It has
/// to be a URL with the scheme `http` or `https`, and is stored as the `url`
/// crate writes it.
pub open spec fn spec_normalize_webhook_url(value: Seq<char>) -> Result<Seq<char>, AppErrorView> {
    match parsed_url(trim(value)) {
        None => Err(AppErrorView::BadRequest("webhook url must be a valid http(s) URL"@)),
        Some((scheme, written)) => if scheme == "http"@ || scheme == "https"@ {
            Ok(written)
        } else {
            Err(AppErrorView::BadRequest("webhook url must use http or https"@))
        },
    }
}

/// What follows the reading of the address: `parsed` is what the `url` crate made
/// of it.
pub fn webhook_url_from_parsed(parsed: Option<(String, String)>) -> (normalized: AppResult<
    String,
>)
    ensures
        match normalized {
            Ok(written) => parsed matches Some((scheme, text)) && (scheme@ == "http"@ || scheme@
                == "https"@) && written@ == text@,
            Err(error) => match parsed {
                None => error@ == AppErrorView::BadRequest(
                    "webhook url must be a valid http(s) URL"@,
                ),
                Some((scheme, _)) => scheme@ != "http"@ && scheme@ != "https"@ && error@
                    == AppErrorView::BadRequest("webhook url must use http or https"@),
            },
        },
{
    match parsed {
        None => Err(AppError::BadRequest(owned("webhook url must be a valid http(s) URL"))),
        Some((scheme, written)) => {
            if str_eq(scheme.as_str(), "http") || str_eq(scheme.as_str(), "https") {
                Ok(written)
            } else {
                Err(AppError::BadRequest(owned("webhook url must use http or https")))
            }
        },
    }
}

/// Reads the address of a webhook; see [`spec_normalize_webhook_url`].
pub fn normalize_webhook_url(value: &str) -> (normalized: AppResult<String>)
    ensures
        match normalized {
            Ok(written) => spec_normalize_webhook_url(value@) == Ok::<Seq<char>, AppErrorView>(
                written@,
            ),
            Err(error) => spec_normalize_webhook_url(value@) == Err::<Seq<char>, AppErrorView>(
                error@,
            ),
        },
{
    let chars = chars_of(value);
    let kept = trimmed(chars.as_slice());
    let text = string_of(kept.as_slice());
    webhook_url_from_parsed(parse_url(text.as_str()))
}

/// The event names of `events` that are not blank, each with the whitespace round
/// it dropped, in ascending order, each once. The first name that is no event is
/// the error.
pub open spec fn collect_webhook_events(events: Seq<Seq<char>>) -> Result<
    Seq<Seq<char>>,
    AppErrorView,
>
    decreases events.len(),
{
    if events.len() == 0 {
        Ok(Seq::empty())
    } else {
        match collect_webhook_events(events.drop_last()) {
            Err(error) => Err(error),
            Ok(earlier) => {
                let candidate = trim(events.last());
                if candidate.len() == 0 {
                    Ok(earlier)
                } else if !is_webhook_event(candidate) {
                    Err(
                        AppErrorView::BadRequest(
                            quoted_message("invalid webhook event '"@, candidate),
                        ),
                    )
                } else {
                    Ok(insert_into(earlier, candidate))
                }
            },
        }
    }
}

/// The events that a webhook subscribes to: what [`collect_webhook_events`]
/// gives, which may not be empty.
pub open spec fn spec_normalize_webhook_events(events: Seq<Seq<char>>) -> Result<
    Seq<Seq<char>>,
    AppErrorView,
> {
    match collect_webhook_events(events) {
        Err(error) => Err(error),
        Ok(names) => if names.len() == 0 {
            Err(AppErrorView::BadRequest("webhook must subscribe to at least one event"@))
        } else {
            Ok(names)
        },
    }
}

proof fn lemma_collect_error_stays(events: Seq<Seq<char>>, upto: int)
    requires
        0 <= upto <= events.len(),
        collect_webhook_events(events.take(upto)) is Err,
    ensures
        collect_webhook_events(events) == collect_webhook_events(events.take(upto)),
    decreases events.len() - upto,
{
    if upto == events.len() {
        assert(events.take(upto) == events);
    } else {
        assert(events.take(upto + 1).drop_last() == events.take(upto));
        lemma_collect_error_stays(events, upto + 1);
    }
}

/// The events that a webhook subscribes to; see [`spec_normalize_webhook_events`].
pub fn normalize_webhook_events(events: Vec<String>) -> (normalized: AppResult<Vec<String>>)
    ensures
        match normalized {
            Ok(names) => spec_normalize_webhook_events(string_views(events@)) == Ok::<
                Seq<Seq<char>>,
                AppErrorView,
            >(string_views(names@)) && strictly_sorted(string_views(names@)),
            Err(error) => spec_normalize_webhook_events(string_views(events@)) == Err::<
                Seq<Seq<char>>,
                AppErrorView,
            >(error@),
        },
{
    let ghost given = string_views(events@);
    let mut out: Vec<String> = Vec::new();
    let mut i: usize = 0;
    assert(given.take(0) =~= Seq::empty());
    assert(string_views(out@) =~= Seq::empty());
    while i < events.len()
        invariant
            i <= events.len(),
            given == string_views(events@),
            strictly_sorted(string_views(out@)),
            collect_webhook_events(given.take(i as int)) == Ok::<Seq<Seq<char>>, AppErrorView>(
                string_views(out@),
            ),
        decreases events.len() - i,
    {
        proof {
            assert(given.take(i + 1).drop_last() == given.take(i as int));
            assert(given.take(i + 1).last() == events@[i as int]@);
        }
        let chars = chars_of(events[i].as_str());
        let kept = trimmed(chars.as_slice());
        if kept.len() > 0 {
            let candidate = string_of(kept.as_slice());
            if !webhook_event_known(candidate.as_str()) {
                proof {
                    lemma_collect_error_stays(given, i + 1);
                }
                return Err(bad_request_quoting("invalid webhook event '", candidate.as_str()));
            }
            insert_sorted(&mut out, candidate);
        }
        i += 1;
    }
    assert(given.take(events.len() as int) == given);
    if out.len() == 0 {
        return Err(AppError::BadRequest(owned("webhook must subscribe to at least one event")));
    }
    Ok(out)
}

/// The events of a stored subscription: its list has to be a JSON array of
/// strings, which is then held to the rules of [`spec_normalize_webhook_events`].
pub open spec fn spec_parse_webhook_events(raw: Seq<char>) -> Result<Seq<Seq<char>>, AppErrorView> {
    match json_string_array(raw) {
        None => Err(AppErrorView::Internal),
        Some(list) => spec_normalize_webhook_events(list),
    }
}

/// The events of a stored subscription; see [`spec_parse_webhook_events`].
pub fn parse_webhook_events(raw: &str) -> (parsed: AppResult<Vec<String>>)
    ensures
        match parsed {
            Ok(names) => spec_parse_webhook_events(raw@) == Ok::<Seq<Seq<char>>, AppErrorView>(
                string_views(names@),
            ),
            Err(error) => spec_parse_webhook_events(raw@) == Err::<Seq<Seq<char>>, AppErrorView>(
                error@,
            ),
        },
{
    match parse_string_array(raw) {
        None => Err(AppError::Internal),
        Some(list) => normalize_webhook_events(list),
    }
}

/// A secret is stored with the whitespace round it dropped, and not at all where
/// nothing is left.
pub open spec fn spec_normalize_optional_secret(value: Option<Seq<char>>) -> Option<Seq<char>> {
    match value {
        Some(secret) => if trim(secret).len() == 0 {
            None
        } else {
            Some(trim(secret))
        },
        None => None,
    }
}

/// The secret as it is stored; see [`spec_normalize_optional_secret`].
pub fn normalize_optional_secret(value: Option<String>) -> (normalized: Option<String>)
    ensures
        crate::models::opt_chars(normalized) == spec_normalize_optional_secret(
            crate::models::opt_chars(value),
        ),
{
    match value {
        Some(secret) => {
            let chars = chars_of(secret.as_str());
            let kept = trimmed(chars.as_slice());
            if kept.len() == 0 {
                None
            } else {
                Some(string_of(kept.as_slice()))
            }
        },
        None => None,
    }
}

/// The labels of `labels` that are not blank, each with the whitespace round it
/// dropped, in ascending order, each once.
pub open spec fn spec_normalized_labels(labels: Seq<Seq<char>>) -> Seq<Seq<char>>
    decreases labels.len(),
{
    if labels.len() == 0 {
        Seq::empty()
    } else {
        let earlier = spec_normalized_labels(labels.drop_last());
        if trim(labels.last()).len() == 0 {
            earlier
        } else {
            insert_into(earlier, trim(labels.last()))
        }
    }
}

/// The labels as they are stored; see [`spec_normalized_labels`].
pub fn normalized_labels(labels: Vec<String>) -> (normalized: Vec<String>)
    ensures
        string_views(normalized@) == spec_normalized_labels(string_views(labels@)),
        strictly_sorted(string_views(normalized@)),
{
    let ghost given = string_views(labels@);
    let mut out: Vec<String> = Vec::new();
    let mut i: usize = 0;
    assert(given.take(0) =~= Seq::empty());
    assert(string_views(out@) =~= Seq::empty());
    while i < labels.len()
        invariant
            i <= labels.len(),
            given == string_views(labels@),
            strictly_sorted(string_views(out@)),
            string_views(out@) == spec_normalized_labels(given.take(i as int)),
        decreases labels.len() - i,
    {
        proof {
            assert(given.take(i + 1).drop_last() == given.take(i as int));
            assert(given.take(i + 1).last() == labels@[i as int]@);
        }
        let chars = chars_of(labels[i].as_str());
        let kept = trimmed(chars.as_slice());
        if kept.len() > 0 {
            insert_sorted(&mut out, string_of(kept.as_slice()));
        }
        i += 1;
    }
    assert(given.take(labels.len() as int) == given);
    out
}

} // verus!
