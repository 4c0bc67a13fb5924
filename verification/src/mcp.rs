//! The rules of the agent-facing tools: how their errors are classed, and the
//! bounds on what one call may ask for.

use crate::error::{AppError, AppErrorView};
use crate::text::owned;
use vstd::prelude::*;

verus! {

/// The page that a tool lists with no limit given.
pub const DEFAULT_LIMIT: i64 = 50;

/// The largest page that a tool lists.
pub const MAX_LIMIT: i64 = 100;

/// The entries of recent activity that a summary shows with no limit given.
pub const DEFAULT_RECENT_LIMIT: i64 = 10;

/// The most entries of recent activity that a summary shows.
pub const MAX_RECENT_LIMIT: i64 = 50;

/// The most tasks that one call may create.
pub const MAX_BULK_TASKS: usize = 100;

/// The kinds of error that a tool answers with.
#[derive(Debug, Clone, Copy, PartialEq, Eq, Structural)]
pub enum ToolErrorKind {
    InvalidParams,
    ResourceNotFound,
    InvalidRequest,
    InternalError,
}

/// The error of a tool: its kind, and what went wrong in words.
#[derive(Debug)]
pub struct ToolError {
    pub kind: ToolErrorKind,
    pub message: String,
}

/// The error that a tool answers with where a request failed with `error`.
pub open spec fn spec_map_error(error: AppErrorView) -> (ToolErrorKind, Seq<char>) {
    match error {
        AppErrorView::BadRequest(message) => (ToolErrorKind::InvalidParams, message),
        AppErrorView::NotFound(message) => (ToolErrorKind::ResourceNotFound, message),
        AppErrorView::Conflict(message) => (ToolErrorKind::InvalidRequest, message),
        AppErrorView::Unauthorized => (ToolErrorKind::InvalidRequest, "unauthorized"@),
        AppErrorView::Internal => (ToolErrorKind::InternalError, "unexpected error"@),
    }
}

/// Classes an error for a tool; see [`spec_map_error`].
pub fn map_error(error: AppError) -> (mapped: ToolError)
    ensures
        (mapped.kind, mapped.message@) == spec_map_error(error@),
{
    match error {
        AppError::BadRequest(message) => ToolError { kind: ToolErrorKind::InvalidParams, message },
        AppError::NotFound(message) => ToolError { kind: ToolErrorKind::ResourceNotFound, message },
        AppError::Conflict(message) => ToolError { kind: ToolErrorKind::InvalidRequest, message },
        AppError::Unauthorized => ToolError {
            kind: ToolErrorKind::InvalidRequest,
            message: owned("unauthorized"),
        },
        AppError::Internal => ToolError {
            kind: ToolErrorKind::InternalError,
            message: owned("unexpected error"),
        },
    }
}

/// The page that a tool lists: a limit from 1 to `MAX_LIMIT`, `DEFAULT_LIMIT` where
/// none is given, and an offset that is not negative, zero where none is given.
pub open spec fn spec_normalize_limit_offset(limit: Option<i64>, offset: Option<i64>) -> Result<
    (i64, i64),
    Seq<char>,
> {
    let limit = match limit {
        Some(given) => given,
        None => DEFAULT_LIMIT,
    };
    let offset = match offset {
        Some(given) => given,
        None => 0,
    };
    if limit <= 0 || limit > MAX_LIMIT {
        Err("limit must be between 1 and 100"@)
    } else if offset < 0 {
        Err("offset cannot be negative"@)
    } else {
        Ok((limit, offset))
    }
}

/// The page that a tool lists; a page out of bounds is a fault of the parameters.
pub fn normalize_limit_offset(limit: Option<i64>, offset: Option<i64>) -> (page: Result<
    (i64, i64),
    ToolError,
>)
    ensures
        match page {
            Ok(pair) => spec_normalize_limit_offset(limit, offset) == Ok::<(i64, i64), Seq<char>>(
                pair,
            ),
            Err(error) => error.kind == ToolErrorKind::InvalidParams
                && spec_normalize_limit_offset(limit, offset) == Err::<(i64, i64), Seq<char>>(
                error.message@,
            ),
        },
{
    let normalized_limit = match limit {
        Some(given) => given,
        None => DEFAULT_LIMIT,
    };
    let normalized_offset = match offset {
        Some(given) => given,
        None => 0,
    };
    if normalized_limit <= 0 || normalized_limit > MAX_LIMIT {
        return Err(
            ToolError {
                kind: ToolErrorKind::InvalidParams,
                message: owned("limit must be between 1 and 100"),
            },
        );
    }
    if normalized_offset < 0 {
        return Err(
            ToolError {
                kind: ToolErrorKind::InvalidParams,
                message: owned("offset cannot be negative"),
            },
        );
    }
    Ok((normalized_limit, normalized_offset))
}

/// The entries of recent activity that a summary shows: from 1 to
/// `MAX_RECENT_LIMIT`, and `DEFAULT_RECENT_LIMIT` where no number is given; a number
/// out of bounds is a fault of the parameters.
pub fn normalize_recent_limit(limit: Option<i64>) -> (normalized: Result<i64, ToolError>)
    ensures
        match normalized {
            Ok(count) => 1 <= count <= MAX_RECENT_LIMIT && count == match limit {
                Some(given) => given,
                None => DEFAULT_RECENT_LIMIT,
            },
            Err(error) => error.kind == ToolErrorKind::InvalidParams && error.message@
                == "recent_limit must be between 1 and 50"@ && (limit matches Some(given) && (given
                <= 0 || given > MAX_RECENT_LIMIT)),
        },
{
    let normalized = match limit {
        Some(given) => given,
        None => DEFAULT_RECENT_LIMIT,
    };
    if normalized <= 0 || normalized > MAX_RECENT_LIMIT {
        return Err(
            ToolError {
                kind: ToolErrorKind::InvalidParams,
                message: owned("recent_limit must be between 1 and 50"),
            },
        );
    }
    Ok(normalized)
}

/// The sections that a project is created with; each may be absent.
#[derive(Debug)]
pub struct InitialSpecInput {
    pub overview: Option<String>,
    pub requirements: Option<String>,
    pub architecture: Option<String>,
    pub technical_design: Option<String>,
    pub open_decisions: Option<String>,
    pub references: Option<String>,
}

/// `sections` with the section `name` behind them, where it has a content.
pub open spec fn with_section(
    sections: Seq<(Seq<char>, Seq<char>)>,
    name: Seq<char>,
    content: Option<String>,
) -> Seq<(Seq<char>, Seq<char>)> {
    match content {
        Some(text) => sections.push((name, text@)),
        None => sections,
    }
}

/// The names and contents of `sections`.
pub open spec fn section_views(sections: Seq<(&'static str, String)>) -> Seq<
    (Seq<char>, Seq<char>),
> {
    Seq::new(sections.len(), |i: int| (sections[i].0@, sections[i].1@))
}

impl InitialSpecInput {
    /// The sections that are given, by name, in the order of the specification.
    pub open spec fn spec_sections(self) -> Seq<(Seq<char>, Seq<char>)> {
        with_section(
            with_section(
                with_section(
                    with_section(
                        with_section(
                            with_section(Seq::empty(), "overview"@, self.overview),
                            "requirements"@,
                            self.requirements,
                        ),
                        "architecture"@,
                        self.architecture,
                    ),
                    "technical_design"@,
                    self.technical_design,
                ),
                "open_decisions"@,
                self.open_decisions,
            ),
            "references"@,
            self.references,
        )
    }

    /// The sections that are given; see [`InitialSpecInput::spec_sections`].
    pub fn into_sections(self) -> (sections: Vec<(&'static str, String)>)
        ensures
            section_views(sections@) == self.spec_sections(),
    {
        let mut sections: Vec<(&'static str, String)> = Vec::new();
        assert(section_views(sections@) =~= Seq::empty());
        if let Some(content) = self.overview {
            let ghost prior = section_views(sections@);
            sections.push(("overview", content));
            assert(section_views(sections@) =~= prior.push(("overview"@, content@)));
        }
        if let Some(content) = self.requirements {
            let ghost prior = section_views(sections@);
            sections.push(("requirements", content));
            assert(section_views(sections@) =~= prior.push(("requirements"@, content@)));
        }
        if let Some(content) = self.architecture {
            let ghost prior = section_views(sections@);
            sections.push(("architecture", content));
            assert(section_views(sections@) =~= prior.push(("architecture"@, content@)));
        }
        if let Some(content) = self.technical_design {
            let ghost prior = section_views(sections@);
            sections.push(("technical_design", content));
            assert(section_views(sections@) =~= prior.push(("technical_design"@, content@)));
        }
        if let Some(content) = self.open_decisions {
            let ghost prior = section_views(sections@);
            sections.push(("open_decisions", content));
            assert(section_views(sections@) =~= prior.push(("open_decisions"@, content@)));
        }
        if let Some(content) = self.references {
            let ghost prior = section_views(sections@);
            sections.push(("references", content));
            assert(section_views(sections@) =~= prior.push(("references"@, content@)));
        }
        sections
    }
}

} // verus!
