//! The scopes that requests are counted under, and the rule that assigns a
//! request to one by its method and the shape of its path.

use crate::config::RateLimitConfig;
use crate::rate_limit::bucket::BucketSettings;
use crate::text::{
    chars_are, chars_contain_str, chars_end_with_str, chars_of, chars_start_with_str, contains_seq,
    ends_with, starts_with, str_eq, strip_trailing, without_trailing,
};
use vstd::prelude::*;

verus! {

#[derive(Debug, Clone, Copy, PartialEq, Eq, Hash, Structural)]
pub enum RateScope {
    Read,
    Write,
    Attachment,
    WebhookTest,
    Mcp,
    Sse,
}

impl RateScope {
    /// What the scope counts, in words.
    pub open spec fn spec_description(self) -> Seq<char> {
        match self {
            RateScope::Read => "read requests"@,
            RateScope::Write => "write requests"@,
            RateScope::Attachment => "attachment requests"@,
            RateScope::WebhookTest => "webhook test requests"@,
            RateScope::Mcp => "mcp requests"@,
            RateScope::Sse => "sse connect requests"@,
        }
    }

    /// What the scope counts, in words.
    pub fn description(self) -> (words: &'static str)
        ensures
            words@ == self.spec_description(),
    {
        match self {
            RateScope::Read => "read requests",
            RateScope::Write => "write requests",
            RateScope::Attachment => "attachment requests",
            RateScope::WebhookTest => "webhook test requests",
            RateScope::Mcp => "mcp requests",
            RateScope::Sse => "sse connect requests",
        }
    }
}

/// The rate and ceiling that `settings` gives to `scope`.
pub open spec fn spec_bucket_settings(settings: RateLimitConfig, scope: RateScope)
    -> BucketSettings {
    match scope {
        RateScope::Read => BucketSettings {
            per_minute: settings.read_per_min,
            burst: settings.read_burst,
        },
        RateScope::Write => BucketSettings {
            per_minute: settings.write_per_min,
            burst: settings.write_burst,
        },
        RateScope::Attachment => BucketSettings {
            per_minute: settings.attachment_per_min,
            burst: settings.attachment_burst,
        },
        RateScope::WebhookTest => BucketSettings {
            per_minute: settings.webhook_test_per_min,
            burst: settings.webhook_test_burst,
        },
        RateScope::Mcp => BucketSettings {
            per_minute: settings.mcp_per_min,
            burst: settings.mcp_burst,
        },
        RateScope::Sse => BucketSettings {
            per_minute: settings.sse_connect_per_min,
            burst: settings.sse_connect_burst,
        },
    }
}

/// The rate and ceiling that `settings` gives to `scope`.
pub fn bucket_settings(settings: &RateLimitConfig, scope: RateScope) -> (chosen: BucketSettings)
    ensures
        chosen == spec_bucket_settings(*settings, scope),
{
    match scope {
        RateScope::Read => BucketSettings {
            per_minute: settings.read_per_min,
            burst: settings.read_burst,
        },
        RateScope::Write => BucketSettings {
            per_minute: settings.write_per_min,
            burst: settings.write_burst,
        },
        RateScope::Attachment => BucketSettings {
            per_minute: settings.attachment_per_min,
            burst: settings.attachment_burst,
        },
        RateScope::WebhookTest => BucketSettings {
            per_minute: settings.webhook_test_per_min,
            burst: settings.webhook_test_burst,
        },
        RateScope::Mcp => BucketSettings {
            per_minute: settings.mcp_per_min,
            burst: settings.mcp_burst,
        },
        RateScope::Sse => BucketSettings {
            per_minute: settings.sse_connect_per_min,
            burst: settings.sse_connect_burst,
        },
    }
}

/// A path that opens an event stream: once its trailing slashes are dropped, the
/// stream of all projects, or a path under one project that ends in `/events`.
pub open spec fn spec_is_sse_route(path: Seq<char>) -> bool {
    let normalized = strip_trailing(path, '/');
    normalized == "/api/v1/events"@ || (starts_with(normalized, "/api/v1/projects/"@) && ends_with(
        normalized,
        "/events"@,
    ))
}

/// Whether `path` opens an event stream; see [`spec_is_sse_route`].
pub fn is_sse_route(path: &str) -> (sse: bool)
    ensures
        sse == spec_is_sse_route(path@),
{
    let chars = chars_of(path);
    let normalized = without_trailing(chars.as_slice(), '/');
    chars_are(normalized.as_slice(), "/api/v1/events") || (chars_start_with_str(
        normalized.as_slice(),
        "/api/v1/projects/",
    ) && chars_end_with_str(normalized.as_slice(), "/events"))
}

/// Methods that only read.
pub open spec fn is_read_method(method: Seq<char>) -> bool {
    method == "GET"@ || method == "HEAD"@ || method == "OPTIONS"@
}

/// The scope of a request, or none for a path that is not limited. The first rule
/// that applies decides: the agent endpoint; outside the API, no scope; an event
/// stream; files and attachments; a webhook test; then reads, and writes for every
/// other method.
pub open spec fn spec_classify_scope(method: Seq<char>, path: Seq<char>) -> Option<RateScope> {
    if starts_with(path, "/mcp"@) {
        Some(RateScope::Mcp)
    } else if !starts_with(path, "/api/v1"@) {
        None
    } else if spec_is_sse_route(path) {
        Some(RateScope::Sse)
    } else if starts_with(path, "/api/v1/files/"@) || contains_seq(path, "/attachments"@) {
        Some(RateScope::Attachment)
    } else if contains_seq(path, "/webhooks/"@) && ends_with(path, "/test"@) {
        Some(RateScope::WebhookTest)
    } else if is_read_method(method) {
        Some(RateScope::Read)
    } else {
        Some(RateScope::Write)
    }
}

/// Assigns a request to its scope. `method` is the method's name as the request
/// line carries it, in upper case.
pub fn classify_scope(method: &str, path: &str) -> (scope: Option<RateScope>)
    ensures
        scope == spec_classify_scope(method@, path@),
{
    let chars = chars_of(path);
    if chars_start_with_str(chars.as_slice(), "/mcp") {
        return Some(RateScope::Mcp);
    }
    if !chars_start_with_str(chars.as_slice(), "/api/v1") {
        return None;
    }
    if is_sse_route(path) {
        return Some(RateScope::Sse);
    }
    if chars_start_with_str(chars.as_slice(), "/api/v1/files/") || chars_contain_str(
        chars.as_slice(),
        "/attachments",
    ) {
        return Some(RateScope::Attachment);
    }
    if chars_contain_str(chars.as_slice(), "/webhooks/") && chars_end_with_str(
        chars.as_slice(),
        "/test",
    ) {
        return Some(RateScope::WebhookTest);
    }
    if str_eq(method, "GET") || str_eq(method, "HEAD") || str_eq(method, "OPTIONS") {
        return Some(RateScope::Read);
    }
    Some(RateScope::Write)
}

} // verus!
