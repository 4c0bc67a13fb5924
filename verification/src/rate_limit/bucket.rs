//! The token bucket. Time is counted in nanoseconds on a monotonic clock and
//! tokens in units of which `TOKEN_UNIT` make one token, so that a bucket that
//! refills `per_minute` tokens a minute gains exactly `per_minute` units every
//! nanosecond and no rounding ever occurs.

use vstd::arithmetic::div_mod::lemma_div_is_ordered_by_denominator;
use vstd::prelude::*;

verus! {

pub const NANOS_PER_SEC: u64 = 1_000_000_000;

/// The bucket units that make one token.
pub const TOKEN_UNIT: u128 = 60_000_000_000;

/// What a bucket is answered with where its scope never refills.
pub const NO_REFILL_WAIT_SECS: u64 = 60;

/// Refill rate and ceiling of the buckets of one scope.
#[derive(Clone, Copy, Debug)]
pub struct BucketSettings {
    pub per_minute: u32,
    pub burst: u32,
}

/// One client's bucket in one scope.
#[derive(Clone, Copy, Debug)]
pub struct RateBucket {
    /// What the bucket holds, in bucket units.
    pub tokens: u128,
    /// When tokens were last added.
    pub last_refill: u64,
    /// When the bucket was last asked.
    pub last_seen: u64,
}

/// The most a bucket with ceiling `burst` holds, in bucket units.
pub open spec fn capacity(burst: u32) -> int {
    burst * TOKEN_UNIT
}

/// The bucket units that a bucket with rate `per_minute` gains in a second.
pub open spec fn units_per_sec(per_minute: u32) -> int {
    per_minute * NANOS_PER_SEC
}

/// `a / b`, rounded up.
pub open spec fn ceil_div(a: int, b: int) -> int
    recommends
        a >= 0,
        b > 0,
{
    (a + b - 1) / b
}

/// The nanoseconds from `earlier` to `later`, zero where `later` is not after `earlier`.
pub open spec fn nanos_between(earlier: u64, later: u64) -> int {
    if later >= earlier {
        later - earlier
    } else {
        0
    }
}

/// The nanoseconds from `earlier` to `later`; see [`nanos_between`].
pub fn elapsed_nanos(earlier: u64, later: u64) -> (nanos: u64)
    ensures
        nanos == nanos_between(earlier, later),
{
    if later >= earlier {
        later - earlier
    } else {
        0
    }
}

impl RateBucket {
    /// A full bucket, created at `now`.
    pub open spec fn fresh(burst: u32, now: u64) -> RateBucket {
        RateBucket { tokens: capacity(burst) as u128, last_refill: now, last_seen: now }
    }

    /// The bucket holds no more than its ceiling.
    pub open spec fn within(self, burst: u32) -> bool {
        self.tokens <= capacity(burst)
    }

    /// The bucket at `now`: seen at `now`, and, where the scope refills and time has
    /// passed since the last refill, holding what it gained since, up to the ceiling.
    pub open spec fn refilled(self, per_minute: u32, burst: u32, now: u64) -> RateBucket {
        if per_minute == 0 || now <= self.last_refill {
            RateBucket { last_seen: now, ..self }
        } else {
            let total = self.tokens + (now - self.last_refill) * per_minute;
            RateBucket {
                tokens: if total < capacity(burst) {
                    total as u128
                } else {
                    capacity(burst) as u128
                },
                last_refill: now,
                last_seen: now,
            }
        }
    }

    /// The bucket holds at least one token.
    pub open spec fn has_token(self) -> bool {
        self.tokens >= TOKEN_UNIT
    }

    /// The bucket with one token taken.
    pub open spec fn spent(self) -> RateBucket
        recommends
            self.has_token(),
    {
        RateBucket { tokens: (self.tokens - TOKEN_UNIT) as u128, ..self }
    }

    /// The whole tokens that the bucket holds.
    pub open spec fn whole_tokens(self) -> int {
        self.tokens as int / TOKEN_UNIT as int
    }

    /// A full bucket, made at `now`.
    pub fn new(burst: u32, now: u64) -> (bucket: RateBucket)
        ensures
            bucket == RateBucket::fresh(burst, now),
            bucket.within(burst),
    {
        RateBucket { tokens: burst as u128 * TOKEN_UNIT, last_refill: now, last_seen: now }
    }

    /// Brings the bucket to `now`.
    pub fn refill(&mut self, per_minute: u32, burst: u32, now: u64)
        ensures
            *final(self) == old(self).refilled(per_minute, burst, now),
            old(self).within(burst) ==> final(self).within(burst),
    {
        self.last_seen = now;
        if per_minute == 0 || now <= self.last_refill {
            return ;
        }
        let elapsed: u64 = now - self.last_refill;
        let ceiling: u128 = burst as u128 * TOKEN_UNIT;
        assert(elapsed * per_minute <= 0xffff_ffff_ffff_ffff * 0xffff_ffff) by (nonlinear_arith)
            requires
                0 <= elapsed <= 0xffff_ffff_ffff_ffff,
                0 <= per_minute <= 0xffff_ffff,
        ;
        if self.tokens >= ceiling {
            self.tokens = ceiling;
        } else {
            let total: u128 = self.tokens + elapsed as u128 * per_minute as u128;
            self.tokens = if total < ceiling {
                total
            } else {
                ceiling
            };
        }
        self.last_refill = now;
    }

    /// Takes one token where the bucket holds one.
    pub fn try_take(&mut self) -> (taken: bool)
        ensures
            taken == old(self).has_token(),
            *final(self) == if taken {
                old(self).spent()
            } else {
                *old(self)
            },
    {
        if self.tokens >= TOKEN_UNIT {
            self.tokens = self.tokens - TOKEN_UNIT;
            true
        } else {
            false
        }
    }
}

/// The seconds until a bucket without a token holds one: the missing part of a token
/// over the refill rate, rounded up, and at least one second.
pub open spec fn spec_retry_after_seconds(tokens: u128, per_minute: u32) -> int {
    if per_minute == 0 {
        NO_REFILL_WAIT_SECS as int
    } else if tokens >= TOKEN_UNIT {
        1
    } else {
        let wait = ceil_div(TOKEN_UNIT - tokens, units_per_sec(per_minute));
        if wait < 1 {
            1
        } else {
            wait
        }
    }
}

/// The seconds until the bucket is full again: what is missing to the ceiling over the
/// refill rate, rounded up.
pub open spec fn spec_reset_after_seconds(tokens: u128, per_minute: u32, burst: u32) -> int {
    if per_minute == 0 {
        NO_REFILL_WAIT_SECS as int
    } else if tokens >= capacity(burst) {
        0
    } else {
        ceil_div(capacity(burst) - tokens, units_per_sec(per_minute))
    }
}

proof fn lemma_ceil_div_bound(missing: int, rate: int)
    requires
        0 <= missing <= 0xffff_ffff * 60_000_000_000,
        1_000_000_000 <= rate,
    ensures
        0 <= ceil_div(missing, rate) <= 0xffff_ffff * 60 + 1,
{
    let x = missing + rate - 1;
    assert(x / rate <= missing / rate + 1) by (nonlinear_arith)
        requires
            x == missing + rate - 1,
            rate > 0,
            missing >= 0,
    ;
    lemma_div_is_ordered_by_denominator(missing, 1_000_000_000, rate);
    assert(0 <= x / rate) by (nonlinear_arith)
        requires
            x >= 0,
            rate > 0,
    ;
}

/// Rounds `missing / rate` up.
fn wait_seconds(missing: u128, rate: u128) -> (secs: u64)
    requires
        missing <= 0xffff_ffff * 60_000_000_000,
        1_000_000_000 <= rate <= 0xffff_ffff * 1_000_000_000,
    ensures
        secs == ceil_div(missing as int, rate as int),
{
    proof {
        lemma_ceil_div_bound(missing as int, rate as int);
    }
    let rounded: u128 = (missing + rate - 1) / rate;
    rounded as u64
}

/// The seconds until a bucket holds a token; see [`spec_retry_after_seconds`].
pub fn retry_after_seconds(tokens: u128, per_minute: u32) -> (secs: u64)
    ensures
        secs == spec_retry_after_seconds(tokens, per_minute),
        secs >= 1,
{
    if per_minute == 0 {
        return NO_REFILL_WAIT_SECS;
    }
    if tokens >= TOKEN_UNIT {
        return 1;
    }
    let rate: u128 = per_minute as u128 * 1_000_000_000;
    let wait = wait_seconds(TOKEN_UNIT - tokens, rate);
    if wait < 1 {
        1
    } else {
        wait
    }
}

/// The seconds until a bucket is full; see [`spec_reset_after_seconds`].
pub fn reset_after_seconds(tokens: u128, per_minute: u32, burst: u32) -> (secs: u64)
    ensures
        secs == spec_reset_after_seconds(tokens, per_minute, burst),
{
    if per_minute == 0 {
        return NO_REFILL_WAIT_SECS;
    }
    let ceiling: u128 = burst as u128 * TOKEN_UNIT;
    if tokens >= ceiling {
        return 0;
    }
    let rate: u128 = per_minute as u128 * 1_000_000_000;
    wait_seconds(ceiling - tokens, rate)
}

} // verus!
