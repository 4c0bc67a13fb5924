//! What requests carry and answers hold, and the rules on paging.

use crate::error::{AppError, AppErrorView, AppResult};
use crate::json::string_views;
use crate::models::WebhookRecord;
use crate::rate_limit::identity::{parse_bearer_token, spec_parse_bearer_token};
use crate::text::{chars_of, opt_str, owned, str_eq, trim, trimmed};
use crate::validate::{parse_webhook_events, spec_parse_webhook_events};
use vstd::prelude::*;

verus! {

/// The page that a list is asked for with no limit given.
pub const DEFAULT_PAGE_LIMIT: i64 = 50;

/// The largest page that a list may be asked for.
pub const MAX_PAGE_LIMIT: i64 = 100;

#[derive(Debug)]
pub struct HealthzResponse {
    pub status: &'static str,
}

/// The answer of the health check.
pub fn healthz() -> (response: HealthzResponse)
    ensures
        response.status@ == "ok"@,
{
    HealthzResponse { status: "ok" }
}

#[derive(Debug)]
pub struct ListQuery {
    pub limit: Option<i64>,
    pub offset: Option<i64>,
}

#[derive(Debug)]
pub struct CreateProjectRequest {
    pub name: String,
    pub slug: String,
    pub goal: String,
}

#[derive(Debug)]
pub struct UpdateProjectRequest {
    pub name: Option<String>,
    pub goal: Option<String>,
}

#[derive(Debug, Clone)]
pub struct TaskFilters {
    pub status: Option<String>,
    pub label: Option<String>,
    pub review_state: Option<String>,
}

#[derive(Debug, Clone)]
pub struct NewTaskInput {
    pub title: String,
    pub description: String,
    pub status: String,
    pub priority: String,
    pub review_state: String,
    pub labels: Vec<String>,
    pub created_by: String,
}

#[derive(Debug, Clone)]
pub struct UpdateTaskInput {
    pub title: Option<String>,
    pub description: Option<String>,
    pub status: Option<String>,
    pub priority: Option<String>,
    pub review_state: Option<String>,
    pub labels: Option<Vec<String>>,
    pub actor: String,
}

#[derive(Debug, Clone)]
pub struct NewAttachmentInput {
    pub id: String,
    pub filename: String,
    pub content_type: String,
    pub size_bytes: i64,
    pub storage_path: String,
    pub uploaded_by: String,
}

#[derive(Debug, Clone)]
pub struct CreateWebhookInput {
    pub name: String,
    pub url: String,
    pub platform: String,
    pub events: Vec<String>,
    pub secret: Option<String>,
    pub active: bool,
}

#[derive(Debug, Clone)]
pub struct UpdateWebhookInput {
    pub name: Option<String>,
    pub url: Option<String>,
    pub platform: Option<String>,
    pub events: Option<Vec<String>>,
    pub secret: Option<String>,
    pub active: Option<bool>,
}

/// The page that a query asks for: a limit from 1 to `MAX_PAGE_LIMIT`,
/// `DEFAULT_PAGE_LIMIT` where none is given, and an offset that is not negative,
/// zero where none is given. The limit is looked at first.
pub open spec fn spec_normalize_list_query(limit: Option<i64>, offset: Option<i64>) -> Result<
    (i64, i64),
    AppErrorView,
> {
    let limit = match limit {
        Some(given) => given,
        None => DEFAULT_PAGE_LIMIT,
    };
    let offset = match offset {
        Some(given) => given,
        None => 0,
    };
    if limit <= 0 {
        Err(AppErrorView::BadRequest("limit must be greater than 0"@))
    } else if limit > MAX_PAGE_LIMIT {
        Err(AppErrorView::BadRequest("limit must be less than or equal to 100"@))
    } else if offset < 0 {
        Err(AppErrorView::BadRequest("offset cannot be negative"@))
    } else {
        Ok((limit, offset))
    }
}

/// The page that `limit` and `offset` ask for; see [`spec_normalize_list_query`].
pub fn normalize_list_query(limit: Option<i64>, offset: Option<i64>) -> (page: AppResult<
    (i64, i64),
>)
    ensures
        match page {
            Ok(pair) => spec_normalize_list_query(limit, offset) == Ok::<(i64, i64), AppErrorView>(
                pair,
            ),
            Err(error) => spec_normalize_list_query(limit, offset) == Err::<
                (i64, i64),
                AppErrorView,
            >(error@),
        },
{
    let limit = match limit {
        Some(given) => given,
        None => DEFAULT_PAGE_LIMIT,
    };
    let offset = match offset {
        Some(given) => given,
        None => 0,
    };
    if limit <= 0 {
        return Err(AppError::BadRequest(owned("limit must be greater than 0")));
    }
    if limit > MAX_PAGE_LIMIT {
        return Err(AppError::BadRequest(owned("limit must be less than or equal to 100")));
    }
    if offset < 0 {
        return Err(AppError::BadRequest(owned("offset cannot be negative")));
    }
    Ok((limit, offset))
}

impl ListQuery {
    /// The page that the query asks for; see [`spec_normalize_list_query`].
    pub fn normalize(&self) -> (page: AppResult<(i64, i64)>)
        ensures
            match page {
                Ok(pair) => spec_normalize_list_query(self.limit, self.offset) == Ok::<
                    (i64, i64),
                    AppErrorView,
                >(pair),
                Err(error) => spec_normalize_list_query(self.limit, self.offset) == Err::<
                    (i64, i64),
                    AppErrorView,
                >(error@),
            },
    {
        normalize_list_query(self.limit, self.offset)
    }
}

/// A subscription as an answer shows it: its events as a list, and of its secret
/// only whether it has one.
pub struct WebhookResponse {
    pub id: String,
    pub name: String,
    pub url: String,
    pub platform: String,
    pub events: Vec<String>,
    pub active: bool,
    pub has_secret: bool,
    pub created_at: String,
    pub updated_at: String,
}

/// A subscription has a secret where one is stored that is more than whitespace.
pub open spec fn spec_has_secret(secret: Option<Seq<char>>) -> bool {
    match secret {
        Some(value) => trim(value).len() > 0,
        None => false,
    }
}

/// Turns a stored subscription into an answer. One whose list of events cannot be
/// read is an error.
pub fn map_webhook(record: WebhookRecord) -> (mapped: AppResult<WebhookResponse>)
    ensures
        match mapped {
            Ok(response) => {
                &&& spec_parse_webhook_events(record@.events) == Ok::<
                    Seq<Seq<char>>,
                    AppErrorView,
                >(string_views(response.events@))
                &&& response.id@ == record@.id
                &&& response.name@ == record@.name
                &&& response.url@ == record@.url
                &&& response.platform@ == record@.platform
                &&& response.active == (record@.active == 1)
                &&& response.has_secret == spec_has_secret(record@.secret)
                &&& response.created_at@ == record@.created_at
                &&& response.updated_at@ == record@.updated_at
            },
            Err(error) => spec_parse_webhook_events(record@.events) == Err::<
                Seq<Seq<char>>,
                AppErrorView,
            >(error@),
        },
{
    let events = match parse_webhook_events(record.events.as_str()) {
        Ok(events) => events,
        Err(error) => {
            return Err(error);
        },
    };
    let has_secret = match &record.secret {
        Some(value) => {
            let chars = chars_of(value.as_str());
            trimmed(chars.as_slice()).len() > 0
        },
        None => false,
    };
    Ok(
        WebhookResponse {
            id: record.id,
            name: record.name,
            url: record.url,
            platform: record.platform,
            events,
            active: record.active == 1,
            has_secret,
            created_at: record.created_at,
            updated_at: record.updated_at,
        },
    )
}

/// A request may pass where no token is configured, or only a blank one, or where
/// it carries the configured token as its bearer token.
pub open spec fn spec_authorized(configured: Option<Seq<char>>, authorization: Option<Seq<char>>)
    -> bool {
    match configured {
        None => true,
        Some(token) => trim(token).len() == 0 || match authorization {
            Some(value) => spec_parse_bearer_token(value) == Some(token),
            None => false,
        },
    }
}

/// Lets a request pass or refuses it as unauthorized.
pub fn require_auth(configured_token: Option<&str>, authorization: Option<&str>) -> (checked:
    AppResult<()>)
    ensures
        match checked {
            Ok(_) => spec_authorized(opt_str(configured_token), opt_str(authorization)),
            Err(error) => !spec_authorized(opt_str(configured_token), opt_str(authorization))
                && error@ == AppErrorView::Unauthorized,
        },
{
    let configured = match configured_token {
        None => {
            return Ok(());
        },
        Some(token) => token,
    };
    let chars = chars_of(configured);
    if trimmed(chars.as_slice()).len() == 0 {
        return Ok(());
    }
    let provided = match authorization {
        Some(value) => parse_bearer_token(value),
        None => None,
    };
    match provided {
        Some(value) => {
            if str_eq(value.as_str(), configured) {
                Ok(())
            } else {
                Err(AppError::Unauthorized)
            }
        },
        None => Err(AppError::Unauthorized),
    }
}

} // verus!
