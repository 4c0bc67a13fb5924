//! The limiter as a mathematical state, and the answers it gives.

use crate::config::RateLimitConfig;
use crate::rate_limit::bucket::{
    nanos_between, spec_reset_after_seconds, spec_retry_after_seconds, RateBucket,
};
use crate::rate_limit::scope::{spec_bucket_settings, RateScope};
use vstd::prelude::*;

verus! {

/// Buckets are swept at most this often.
pub const CLEANUP_INTERVAL_NANOS: u64 = 300_000_000_000;

/// A bucket that nobody asked for this long is dropped by the next sweep.
pub const STALE_BUCKET_NANOS: u64 = 3_600_000_000_000;

/// What a client refused a stream is told to wait.
pub const SSE_CAP_RETRY_AFTER_SECS: u64 = 10;

/// A request that was let through, and what is left after it.
#[derive(Debug, Clone, Copy)]
pub struct RateAllowance {
    pub limit: u32,
    pub remaining: u32,
    pub reset_after_secs: u64,
}

/// A request that was refused.
#[derive(Debug)]
pub struct RateDenial {
    pub limit: u32,
    pub remaining: u32,
    pub reset_after_secs: u64,
    pub retry_after_secs: u64,
    pub message: String,
}

#[derive(Debug)]
pub enum RateDecision {
    Allow(RateAllowance),
    Deny(RateDenial),
}

/// A stream that was refused because a cap on open streams is reached.
#[derive(Debug)]
pub struct SseCapDenied {
    pub limit: u32,
    pub retry_after_secs: u64,
    pub message: String,
}

pub struct RateDenialView {
    pub limit: u32,
    pub remaining: u32,
    pub reset_after_secs: u64,
    pub retry_after_secs: u64,
    pub message: Seq<char>,
}

pub enum RateDecisionView {
    Allow(RateAllowance),
    Deny(RateDenialView),
}

pub struct SseCapDeniedView {
    pub limit: u32,
    pub retry_after_secs: u64,
    pub message: Seq<char>,
}

impl View for RateDenial {
    type V = RateDenialView;

    open spec fn view(&self) -> RateDenialView {
        RateDenialView {
            limit: self.limit,
            remaining: self.remaining,
            reset_after_secs: self.reset_after_secs,
            retry_after_secs: self.retry_after_secs,
            message: self.message@,
        }
    }
}

impl View for RateDecision {
    type V = RateDecisionView;

    open spec fn view(&self) -> RateDecisionView {
        match self {
            RateDecision::Allow(allowance) => RateDecisionView::Allow(*allowance),
            RateDecision::Deny(denial) => RateDecisionView::Deny(denial@),
        }
    }
}

impl View for SseCapDenied {
    type V = SseCapDeniedView;

    open spec fn view(&self) -> SseCapDeniedView {
        SseCapDeniedView {
            limit: self.limit,
            retry_after_secs: self.retry_after_secs,
            message: self.message@,
        }
    }
}

/// The words a refused request is answered with.
pub open spec fn denial_message(scope: RateScope) -> Seq<char> {
    "rate limit exceeded for "@ + scope.spec_description()
}

/// A bucket that was last asked at least `STALE_BUCKET_NANOS` before `now`.
pub open spec fn is_stale(bucket: RateBucket, now: u64) -> bool {
    nanos_between(bucket.last_seen, now) >= STALE_BUCKET_NANOS
}

/// The state of a limiter: its tunables, the buckets by scope and identity, the
/// open streams by identity and in all, and when buckets were last swept.
pub struct LimiterModel {
    pub settings: RateLimitConfig,
    pub buckets: Map<(RateScope, Seq<char>), RateBucket>,
    pub sse_by_identity: Map<Seq<char>, u32>,
    pub sse_global: u32,
    pub last_cleanup: Option<u64>,
}

impl LimiterModel {
    /// A limiter that has seen no request.
    pub open spec fn initial(settings: RateLimitConfig) -> LimiterModel {
        LimiterModel {
            settings,
            buckets: Map::empty(),
            sse_by_identity: Map::empty(),
            sse_global: 0,
            last_cleanup: None,
        }
    }

    /// No bucket holds more than the ceiling of its scope; an identity that is listed
    /// has at least one stream open and no more than one identity may; the streams
    /// open in all are within the global cap.
    pub open spec fn wf(self) -> bool {
        &&& forall|key: (RateScope, Seq<char>)| #[trigger]
            self.buckets.contains_key(key) ==> self.buckets[key].within(
                spec_bucket_settings(self.settings, key.0).burst,
            )
        &&& forall|identity: Seq<char>| #[trigger]
            self.sse_by_identity.contains_key(identity) ==> 1 <= self.sse_by_identity[identity]
                <= self.settings.sse_max_per_identity
        &&& self.sse_global <= self.settings.sse_max_global
    }

    /// A sweep is due: none was made yet, or the last one is at least
    /// `CLEANUP_INTERVAL_NANOS` old.
    pub open spec fn cleanup_due(self, now: u64) -> bool {
        match self.last_cleanup {
            None => true,
            Some(previous) => nanos_between(previous, now) >= CLEANUP_INTERVAL_NANOS,
        }
    }

    /// The state once the sweep that may be due at `now` is made: the stale buckets
    /// are gone and the sweep is recorded. Where none is due, nothing changes.
    pub open spec fn swept(self, now: u64) -> LimiterModel {
        if self.cleanup_due(now) {
            LimiterModel {
                buckets: Map::new(
                    |key: (RateScope, Seq<char>)|
                        self.buckets.contains_key(key) && !is_stale(self.buckets[key], now),
                    |key: (RateScope, Seq<char>)| self.buckets[key],
                ),
                last_cleanup: Some(now),
                ..self
            }
        } else {
            self
        }
    }

    /// The bucket that a check at `now` decides on: the one that the sweep left, or a
    /// full one made at `now`, brought to `now`.
    pub open spec fn bucket_at(self, scope: RateScope, identity: Seq<char>, now: u64)
        -> RateBucket {
        let limits = spec_bucket_settings(self.settings, scope);
        let swept = self.swept(now);
        let found = if swept.buckets.contains_key((scope, identity)) {
            swept.buckets[(scope, identity)]
        } else {
            RateBucket::fresh(limits.burst, now)
        };
        found.refilled(limits.per_minute, limits.burst, now)
    }

    /// Whether a check at `now` lets the request through.
    pub open spec fn allows(self, scope: RateScope, identity: Seq<char>, now: u64) -> bool {
        self.bucket_at(scope, identity, now).has_token()
    }

    /// The answer of a check at `now`.
    pub open spec fn decision(self, scope: RateScope, identity: Seq<char>, now: u64)
        -> RateDecisionView {
        let limits = spec_bucket_settings(self.settings, scope);
        let bucket = self.bucket_at(scope, identity, now);
        let wait = spec_retry_after_seconds(bucket.tokens, limits.per_minute) as u64;
        if bucket.has_token() {
            RateDecisionView::Allow(
                RateAllowance {
                    limit: limits.per_minute,
                    remaining: bucket.spent().whole_tokens() as u32,
                    reset_after_secs: spec_reset_after_seconds(
                        bucket.spent().tokens,
                        limits.per_minute,
                        limits.burst,
                    ) as u64,
                },
            )
        } else {
            RateDecisionView::Deny(
                RateDenialView {
                    limit: limits.per_minute,
                    remaining: 0,
                    reset_after_secs: wait,
                    retry_after_secs: wait,
                    message: denial_message(scope),
                },
            )
        }
    }

    /// The state after a check at `now`: swept where due, and the bucket asked
    /// brought to `now` and one token shorter where it had one.
    pub open spec fn after_check(self, scope: RateScope, identity: Seq<char>, now: u64)
        -> LimiterModel {
        let swept = self.swept(now);
        let bucket = self.bucket_at(scope, identity, now);
        let left = if bucket.has_token() {
            bucket.spent()
        } else {
            bucket
        };
        LimiterModel { buckets: swept.buckets.insert((scope, identity), left), ..swept }
    }

    /// The streams that `identity` has open.
    pub open spec fn sse_active(self, identity: Seq<char>) -> u32 {
        if self.sse_by_identity.contains_key(identity) {
            self.sse_by_identity[identity]
        } else {
            0
        }
    }

    /// Why `identity` may not open one more stream, if it may not: its own cap is
    /// looked at first, then the global one.
    pub open spec fn sse_refusal(self, identity: Seq<char>) -> Option<SseCapDeniedView> {
        if self.sse_active(identity) >= self.settings.sse_max_per_identity {
            Some(
                SseCapDeniedView {
                    limit: self.settings.sse_max_per_identity,
                    retry_after_secs: SSE_CAP_RETRY_AFTER_SECS,
                    message: "too many active SSE streams for this client identity"@,
                },
            )
        } else if self.sse_global >= self.settings.sse_max_global {
            Some(
                SseCapDeniedView {
                    limit: self.settings.sse_max_global,
                    retry_after_secs: SSE_CAP_RETRY_AFTER_SECS,
                    message: "SSE stream capacity reached for this instance"@,
                },
            )
        } else {
            None
        }
    }

    /// The state after `identity` asked for a stream: one more for it and in all
    /// where it was granted, unchanged where it was refused.
    pub open spec fn after_acquire(self, identity: Seq<char>) -> LimiterModel {
        if self.sse_refusal(identity) is Some {
            self
        } else {
            LimiterModel {
                sse_by_identity: self.sse_by_identity.insert(
                    identity,
                    (self.sse_active(identity) + 1) as u32,
                ),
                sse_global: (self.sse_global + 1) as u32,
                ..self
            }
        }
    }

    /// The state after a stream of `identity` ended: one fewer in all, unless none was
    /// counted, and one fewer for the identity, which is no longer listed once it has
    /// none.
    pub open spec fn after_release(self, identity: Seq<char>) -> LimiterModel {
        let global = if self.sse_global > 0 {
            (self.sse_global - 1) as u32
        } else {
            0
        };
        LimiterModel {
            sse_by_identity: if self.sse_active(identity) > 1 {
                self.sse_by_identity.insert(identity, (self.sse_active(identity) - 1) as u32)
            } else {
                self.sse_by_identity.remove(identity)
            },
            sse_global: global,
            ..self
        }
    }
}

} // verus!
