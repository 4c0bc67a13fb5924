//! What a limited request is answered with, and the decision that the limiter
//! takes on each request before it reaches a handler.

use crate::rate_limit::identity::{request_identity, spec_request_identity};
use crate::rate_limit::limiter::{RateLimiter, SseConnectionLease};
use crate::rate_limit::model::{
    LimiterModel, RateAllowance, RateDecision, RateDecisionView, RateDenial, RateDenialView,
    SseCapDenied, SseCapDeniedView,
};
use crate::rate_limit::scope::{classify_scope, spec_classify_scope, RateScope};
use crate::text::{decimal, opt_str, owned, u64_to_decimal};
use vstd::prelude::*;

verus! {

/// The status of an answer to a request that was refused.
pub const TOO_MANY_REQUESTS: u16 = 429;

/// One header of an answer.
pub struct Header {
    pub name: String,
    pub value: String,
}

impl View for Header {
    type V = (Seq<char>, Seq<char>);

    open spec fn view(&self) -> (Seq<char>, Seq<char>) {
        (self.name@, self.value@)
    }
}

/// The names and values of `headers`, in order.
pub open spec fn header_views(headers: Seq<Header>) -> Seq<(Seq<char>, Seq<char>)> {
    Seq::new(headers.len(), |i: int| headers[i]@)
}

/// The answer to a request that was refused: its status, the two fields of its
/// body, and its headers.
pub struct LimitResponse {
    pub status: u16,
    pub error: String,
    pub message: String,
    pub headers: Vec<Header>,
}

pub struct LimitResponseView {
    pub status: u16,
    pub error: Seq<char>,
    pub message: Seq<char>,
    pub headers: Seq<(Seq<char>, Seq<char>)>,
}

impl View for LimitResponse {
    type V = LimitResponseView;

    open spec fn view(&self) -> LimitResponseView {
        LimitResponseView {
            status: self.status,
            error: self.error@,
            message: self.message@,
            headers: header_views(self.headers@),
        }
    }
}

/// The three headers that tell a client where it stands.
pub open spec fn spec_rate_limit_headers(limit: u32, remaining: u32, reset_after_secs: u64) -> Seq<
    (Seq<char>, Seq<char>),
> {
    seq![
        ("x-ratelimit-limit"@, decimal(limit as nat)),
        ("x-ratelimit-remaining"@, decimal(remaining as nat)),
        ("x-ratelimit-reset"@, decimal(reset_after_secs as nat)),
    ]
}

fn header_u64(key: &'static str, value: u64) -> (header: Header)
    ensures
        header@ == (key@, decimal(value as nat)),
{
    Header { name: owned(key), value: u64_to_decimal(value) }
}

fn limit_headers(limit: u32, remaining: u32, reset_after_secs: u64) -> (headers: Vec<Header>)
    ensures
        header_views(headers@) == spec_rate_limit_headers(limit, remaining, reset_after_secs),
{
    let mut headers: Vec<Header> = Vec::new();
    headers.push(header_u64("x-ratelimit-limit", limit as u64));
    headers.push(header_u64("x-ratelimit-remaining", remaining as u64));
    headers.push(header_u64("x-ratelimit-reset", reset_after_secs));
    assert(header_views(headers@) =~= spec_rate_limit_headers(limit, remaining, reset_after_secs));
    headers
}

/// The headers set on a request that was let through: the limit, what is left
/// after it, and the seconds until the bucket is full.
pub fn set_rate_limit_headers(allowance: &RateAllowance) -> (headers: Vec<Header>)
    ensures
        header_views(headers@) == spec_rate_limit_headers(
            allowance.limit,
            allowance.remaining,
            allowance.reset_after_secs,
        ),
{
    limit_headers(allowance.limit, allowance.remaining, allowance.reset_after_secs)
}

/// The answer to a request that its bucket refused: 429, `rate_limited`, the three
/// headers, and `retry-after`.
pub open spec fn spec_rate_limited_response(denial: RateDenialView) -> LimitResponseView {
    LimitResponseView {
        status: TOO_MANY_REQUESTS,
        error: "rate_limited"@,
        message: denial.message,
        headers: spec_rate_limit_headers(
            denial.limit,
            denial.remaining,
            denial.reset_after_secs,
        ).push(("retry-after"@, decimal(denial.retry_after_secs as nat))),
    }
}

/// The answer to a request that its bucket refused; see [`spec_rate_limited_response`].
pub fn rate_limited_response(denial: RateDenial) -> (response: LimitResponse)
    ensures
        response@ == spec_rate_limited_response(denial@),
{
    let mut headers = limit_headers(denial.limit, denial.remaining, denial.reset_after_secs);
    let ghost three = header_views(headers@);
    headers.push(header_u64("retry-after", denial.retry_after_secs));
    assert(header_views(headers@) =~= three.push(
        ("retry-after"@, decimal(denial.retry_after_secs as nat)),
    ));
    LimitResponse {
        status: TOO_MANY_REQUESTS,
        error: owned("rate_limited"),
        message: denial.message,
        headers,
    }
}

/// The answer to a stream that a cap refused: 429, `rate_limited`, the cap as the
/// limit, nothing remaining, and the wait as both reset and `retry-after`.
pub open spec fn spec_sse_capacity_response(denial: SseCapDeniedView) -> LimitResponseView {
    LimitResponseView {
        status: TOO_MANY_REQUESTS,
        error: "rate_limited"@,
        message: denial.message,
        headers: spec_rate_limit_headers(denial.limit, 0, denial.retry_after_secs).push(
            ("retry-after"@, decimal(denial.retry_after_secs as nat)),
        ),
    }
}

/// The answer to a stream that a cap refused; see [`spec_sse_capacity_response`].
pub fn sse_capacity_response(denial: SseCapDenied) -> (response: LimitResponse)
    ensures
        response@ == spec_sse_capacity_response(denial@),
{
    let mut headers = limit_headers(denial.limit, 0, denial.retry_after_secs);
    let ghost three = header_views(headers@);
    headers.push(header_u64("retry-after", denial.retry_after_secs));
    assert(header_views(headers@) =~= three.push(
        ("retry-after"@, decimal(denial.retry_after_secs as nat)),
    ));
    LimitResponse {
        status: TOO_MANY_REQUESTS,
        error: owned("rate_limited"),
        message: denial.message,
        headers,
    }
}

/// What the limiter decided on a request.
pub enum Admission {
    /// The path is not limited: the request goes on, and gets no headers.
    Unlimited,
    /// The bucket refused: the request is answered at once.
    Limited(LimitResponse),
    /// The bucket let the stream through and a cap on open streams refused it.
    StreamsExhausted(LimitResponse),
    /// The request goes on. The allowance becomes the headers of its answer, and
    /// the lease, which a stream has, stays with the connection.
    Admitted { allowance: RateAllowance, lease: Option<SseConnectionLease> },
}

/// The identity and scope of a request, where it has a scope.
pub open spec fn spec_subject(
    method: Seq<char>,
    path: Seq<char>,
    authorization: Option<Seq<char>>,
    forwarded_for: Option<Seq<char>>,
    auth_enabled: bool,
) -> Option<(RateScope, Seq<char>)> {
    match spec_classify_scope(method, path) {
        Some(scope) => Some(
            (scope, spec_request_identity(authorization, forwarded_for, auth_enabled)),
        ),
        None => None,
    }
}

/// The state after the limiter decided on a request of `identity` in `scope`: the
/// check is made, and a stream that the check let through asks for a slot.
pub open spec fn spec_after_admission(
    state: LimiterModel,
    scope: RateScope,
    identity: Seq<char>,
    now: u64,
) -> LimiterModel {
    let checked = state.after_check(scope, identity, now);
    if state.allows(scope, identity, now) && scope == RateScope::Sse {
        checked.after_acquire(identity)
    } else {
        checked
    }
}

/// Decides on a request before it reaches a handler. A path without a scope is
/// not limited. Else the request is checked against the bucket of its scope and
/// identity; one that is refused is answered with 429. A stream that was let
/// through then asks for a slot, and is answered with 429 where a cap refuses it.
pub fn enforce_limits(
    limiter: &mut RateLimiter,
    method: &str,
    path: &str,
    authorization: Option<&str>,
    forwarded_for: Option<&str>,
    auth_enabled: bool,
    now: u64,
) -> (admission: Admission)
    ensures
        match spec_subject(
            method@,
            path@,
            opt_str(authorization),
            opt_str(forwarded_for),
            auth_enabled,
        ) {
            None => admission is Unlimited && final(limiter)@ == old(limiter)@,
            Some((scope, identity)) => {
                let checked = old(limiter)@.after_check(scope, identity, now);
                &&& final(limiter)@ == spec_after_admission(old(limiter)@, scope, identity, now)
                &&& match old(limiter)@.decision(scope, identity, now) {
                    RateDecisionView::Deny(denial) => admission matches Admission::Limited(response)
                        && response@ == spec_rate_limited_response(denial),
                    RateDecisionView::Allow(granted) => if scope != RateScope::Sse {
                        admission matches Admission::Admitted { allowance, lease } && allowance
                            == granted && lease is None
                    } else {
                        match checked.sse_refusal(identity) {
                            Some(denied) => admission matches Admission::StreamsExhausted(
                                response,
                            ) && response@ == spec_sse_capacity_response(denied),
                            None => admission matches Admission::Admitted { allowance, lease }
                                && allowance == granted && lease is Some
                                && lease->0.holder() == identity,
                        }
                    },
                }
            },
        },
        final(limiter)@.wf(),
{
    let scope = match classify_scope(method, path) {
        Some(scope) => scope,
        None => {
            limiter.note_well_formed();
            return Admission::Unlimited;
        },
    };
    let identity = request_identity(authorization, forwarded_for, auth_enabled);
    let decision = limiter.check_with_now(scope, identity.as_str(), now);
    let allowance = match decision {
        RateDecision::Allow(allowance) => allowance,
        RateDecision::Deny(denial) => {
            return Admission::Limited(rate_limited_response(denial));
        },
    };
    if scope == RateScope::Sse {
        match limiter.try_acquire_sse_slot(identity.as_str()) {
            Ok(lease) => Admission::Admitted { allowance, lease: Some(lease) },
            Err(denial) => Admission::StreamsExhausted(sse_capacity_response(denial)),
        }
    } else {
        Admission::Admitted { allowance, lease: None }
    }
}

/// Whether `status` says that a request succeeded.
pub open spec fn is_success(status: u16) -> bool {
    200 <= status <= 299
}

/// Settles the slot of a stream once its handler answered: where the answer is a
/// success the lease stays with the connection, else the slot is handed back.
pub fn settle_sse_lease(limiter: &mut RateLimiter, lease: Option<SseConnectionLease>, status: u16)
    -> (kept: Option<SseConnectionLease>)
    ensures
        kept == if is_success(status) {
            lease
        } else {
            None
        },
        final(limiter)@ == match lease {
            Some(held) if !is_success(status) => old(limiter)@.after_release(held.holder()),
            _ => old(limiter)@,
        },
        final(limiter)@.wf(),
{
    match lease {
        Some(held) => {
            if 200 <= status && status <= 299 {
                limiter.note_well_formed();
                Some(held)
            } else {
                limiter.release_sse_slot(held);
                None
            }
        },
        None => {
            limiter.note_well_formed();
            None
        },
    }
}

} // verus!
