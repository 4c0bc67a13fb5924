//! What holds of every limiter, proved over its model.

use crate::rate_limit::bucket::{capacity, nanos_between, RateBucket, TOKEN_UNIT};
use crate::rate_limit::model::{is_stale, LimiterModel};
use crate::rate_limit::scope::{spec_bucket_settings, RateScope};
use vstd::prelude::*;

verus! {

/// A bucket never holds more than its ceiling: bringing it to a later time and
/// taking a token both keep it within.
pub proof fn lemma_bucket_stays_within(bucket: RateBucket, per_minute: u32, burst: u32, now: u64)
    requires
        bucket.within(burst),
    ensures
        bucket.refilled(per_minute, burst, now).within(burst),
        0 <= bucket.refilled(per_minute, burst, now).tokens,
        bucket.refilled(per_minute, burst, now).has_token() ==> bucket.refilled(
            per_minute,
            burst,
            now,
        ).spent().within(burst) && 0 <= bucket.refilled(per_minute, burst, now).spent().tokens,
{
}

/// A check leaves every bucket within the ceiling of its scope, and the counts of
/// open streams as they were.
pub proof fn lemma_check_keeps_well_formed(
    state: LimiterModel,
    scope: RateScope,
    identity: Seq<char>,
    now: u64,
)
    requires
        state.wf(),
    ensures
        state.after_check(scope, identity, now).wf(),
        state.after_check(scope, identity, now).settings == state.settings,
        state.after_check(scope, identity, now).sse_by_identity == state.sse_by_identity,
        state.after_check(scope, identity, now).sse_global == state.sse_global,
{
    let limits = spec_bucket_settings(state.settings, scope);
    let swept = state.swept(now);
    let found = if swept.buckets.contains_key((scope, identity)) {
        swept.buckets[(scope, identity)]
    } else {
        RateBucket::fresh(limits.burst, now)
    };
    if swept.buckets.contains_key((scope, identity)) {
        assert(state.buckets.contains_key((scope, identity)));
    }
    lemma_bucket_stays_within(found, limits.per_minute, limits.burst, now);
    let next = state.after_check(scope, identity, now);
    assert forall|key: (RateScope, Seq<char>)| #[trigger]
        next.buckets.contains_key(key) implies next.buckets[key].within(
        spec_bucket_settings(next.settings, key.0).burst,
    ) by {
        if key != (scope, identity) {
            assert(swept.buckets.contains_key(key));
            assert(state.buckets.contains_key(key));
        }
    }
}

/// The state after `count` checks of one identity in one scope, all at `now`.
pub open spec fn after_checks(
    state: LimiterModel,
    scope: RateScope,
    identity: Seq<char>,
    now: u64,
    count: nat,
) -> LimiterModel
    decreases count,
{
    if count == 0 {
        state
    } else {
        after_checks(state, scope, identity, now, (count - 1) as nat).after_check(
            scope,
            identity,
            now,
        )
    }
}

proof fn lemma_checks_drain(
    state: LimiterModel,
    scope: RateScope,
    identity: Seq<char>,
    now: u64,
    count: nat,
)
    requires
        !state.buckets.contains_key((scope, identity)),
        1 <= count <= spec_bucket_settings(state.settings, scope).burst,
    ensures
        ({
            let reached = after_checks(state, scope, identity, now, count);
            &&& reached.settings == state.settings
            &&& !reached.cleanup_due(now)
            &&& reached.buckets.contains_key((scope, identity))
            &&& reached.buckets[(scope, identity)] == RateBucket {
                tokens: ((spec_bucket_settings(state.settings, scope).burst - count)
                    * TOKEN_UNIT) as u128,
                last_refill: now,
                last_seen: now,
            }
            &&& after_checks(state, scope, identity, now, (count - 1) as nat).allows(
                scope,
                identity,
                now,
            )
        }),
    decreases count,
{
    let limits = spec_bucket_settings(state.settings, scope);
    let burst = limits.burst;
    assert(burst * TOKEN_UNIT <= 0xffff_ffff * 60_000_000_000);
    if count == 1 {
        assert(after_checks(state, scope, identity, now, 0) == state);
        let swept = state.swept(now);
        assert(!swept.buckets.contains_key((scope, identity)));
        let bucket = state.bucket_at(scope, identity, now);
        assert(bucket == RateBucket::fresh(burst, now));
    } else {
        lemma_checks_drain(state, scope, identity, now, (count - 1) as nat);
        let prior = after_checks(state, scope, identity, now, (count - 1) as nat);
        assert(prior.swept(now) == prior);
        let bucket = prior.bucket_at(scope, identity, now);
        assert(bucket == prior.buckets[(scope, identity)]);
        assert((burst - (count - 1)) * TOKEN_UNIT >= TOKEN_UNIT);
    }
}

/// A client that the limiter has not seen in a scope may make as many requests at
/// one instant as the scope's ceiling says: each of them is let through, and the
/// next one is refused.
pub proof fn lemma_burst_then_denied(
    state: LimiterModel,
    scope: RateScope,
    identity: Seq<char>,
    now: u64,
)
    requires
        !state.buckets.contains_key((scope, identity)),
    ensures
        forall|done: nat|
            done < spec_bucket_settings(state.settings, scope).burst ==> #[trigger] after_checks(
                state,
                scope,
                identity,
                now,
                done,
            ).allows(scope, identity, now),
        !after_checks(
            state,
            scope,
            identity,
            now,
            spec_bucket_settings(state.settings, scope).burst as nat,
        ).allows(scope, identity, now),
{
    let burst = spec_bucket_settings(state.settings, scope).burst;
    assert forall|done: nat| done < burst implies #[trigger] after_checks(
        state,
        scope,
        identity,
        now,
        done,
    ).allows(scope, identity, now) by {
        lemma_checks_drain(state, scope, identity, now, done + 1);
    }
    if burst == 0 {
        assert(after_checks(state, scope, identity, now, 0) == state);
        assert(!state.swept(now).buckets.contains_key((scope, identity)));
    } else {
        lemma_checks_drain(state, scope, identity, now, burst as nat);
        let drained = after_checks(state, scope, identity, now, burst as nat);
        assert(drained.swept(now) == drained);
    }
}

/// An empty bucket refuses until the time of one token has passed.
pub proof fn lemma_denied_until_refilled(
    state: LimiterModel,
    scope: RateScope,
    identity: Seq<char>,
    later: u64,
)
    requires
        state.buckets.contains_key((scope, identity)),
        state.buckets[(scope, identity)].tokens == 0,
        !is_stale(state.buckets[(scope, identity)], later),
        nanos_between(state.buckets[(scope, identity)].last_refill, later) * spec_bucket_settings(
            state.settings,
            scope,
        ).per_minute < TOKEN_UNIT,
    ensures
        !state.allows(scope, identity, later),
{
    let swept = state.swept(later);
    assert(swept.buckets.contains_key((scope, identity)));
}

/// Once the time of one token has passed since a bucket ran empty, and less than
/// the time of two, exactly one more request is let through: a check then
/// succeeds, and the check that follows it at the same instant is refused.
pub proof fn lemma_one_token_after_wait(
    state: LimiterModel,
    scope: RateScope,
    identity: Seq<char>,
    later: u64,
)
    requires
        state.buckets.contains_key((scope, identity)),
        state.buckets[(scope, identity)].tokens == 0,
        !is_stale(state.buckets[(scope, identity)], later),
        spec_bucket_settings(state.settings, scope).burst >= 1,
        TOKEN_UNIT <= nanos_between(state.buckets[(scope, identity)].last_refill, later)
            * spec_bucket_settings(state.settings, scope).per_minute < 2 * TOKEN_UNIT,
    ensures
        state.allows(scope, identity, later),
        !state.after_check(scope, identity, later).allows(scope, identity, later),
{
    let limits = spec_bucket_settings(state.settings, scope);
    let swept = state.swept(later);
    let before = state.buckets[(scope, identity)];
    assert(swept.buckets.contains_key((scope, identity)));
    assert(swept.buckets[(scope, identity)] == before);
    assert(limits.per_minute > 0 && later > before.last_refill) by (nonlinear_arith)
        requires
            TOKEN_UNIT <= nanos_between(before.last_refill, later) * limits.per_minute,
            nanos_between(before.last_refill, later) >= 0,
            nanos_between(before.last_refill, later) > 0 ==> later > before.last_refill,
            limits.per_minute >= 0,
            TOKEN_UNIT > 0,
    ;
    let gained = (later - before.last_refill) * limits.per_minute;
    assert(capacity(limits.burst) >= TOKEN_UNIT);
    let bucket = state.bucket_at(scope, identity, later);
    assert(TOKEN_UNIT <= bucket.tokens < 2 * TOKEN_UNIT);
    let next = state.after_check(scope, identity, later);
    assert(next.swept(later) == next);
    assert(next.buckets[(scope, identity)] == bucket.spent());
    let again = next.bucket_at(scope, identity, later);
    assert(again == bucket.spent());
}

/// The state after `identity` asked for a stream `count` times.
pub open spec fn after_acquires(state: LimiterModel, identity: Seq<char>, count: nat)
    -> LimiterModel
    decreases count,
{
    if count == 0 {
        state
    } else {
        after_acquires(state, identity, (count - 1) as nat).after_acquire(identity)
    }
}

/// Asking for a stream and ending one both keep the counts within their caps.
pub proof fn lemma_streams_keep_well_formed(state: LimiterModel, identity: Seq<char>)
    requires
        state.wf(),
    ensures
        state.after_acquire(identity).wf(),
        state.after_release(identity).wf(),
{
    let more = state.after_acquire(identity);
    assert forall|other: Seq<char>| #[trigger]
        more.sse_by_identity.contains_key(other) implies 1 <= more.sse_by_identity[other]
        <= more.settings.sse_max_per_identity by {
        if other != identity {
            assert(state.sse_by_identity.contains_key(other));
        }
    }
    let fewer = state.after_release(identity);
    assert forall|other: Seq<char>| #[trigger]
        fewer.sse_by_identity.contains_key(other) implies 1 <= fewer.sse_by_identity[other]
        <= fewer.settings.sse_max_per_identity by {
        if other != identity {
            assert(state.sse_by_identity.contains_key(other));
        } else {
            assert(state.sse_by_identity.contains_key(identity));
        }
    }
}

proof fn lemma_acquires_count(state: LimiterModel, identity: Seq<char>, count: nat)
    requires
        state.wf(),
        state.sse_active(identity) == 0,
        count <= state.settings.sse_max_per_identity,
        state.sse_global + state.settings.sse_max_per_identity <= state.settings.sse_max_global,
    ensures
        ({
            let reached = after_acquires(state, identity, count);
            &&& reached.settings == state.settings
            &&& reached.sse_active(identity) == count
            &&& reached.sse_global == state.sse_global + count
        }),
        count > 0 ==> after_acquires(state, identity, (count - 1) as nat).sse_refusal(identity)
            is None,
    decreases count,
{
    if count > 0 {
        lemma_acquires_count(state, identity, (count - 1) as nat);
    }
}

/// An identity with no stream open, and room left under the global cap, is
/// granted as many streams as one identity may have, and refused the next.
pub proof fn lemma_identity_cap(state: LimiterModel, identity: Seq<char>)
    requires
        state.wf(),
        state.sse_active(identity) == 0,
        state.sse_global + state.settings.sse_max_per_identity <= state.settings.sse_max_global,
    ensures
        forall|held: nat|
            held < state.settings.sse_max_per_identity ==> (#[trigger] after_acquires(
                state,
                identity,
                held,
            )).sse_refusal(identity) is None,
        after_acquires(
            state,
            identity,
            state.settings.sse_max_per_identity as nat,
        ).sse_refusal(identity) matches Some(denied) && denied.limit
            == state.settings.sse_max_per_identity,
        after_acquires(
            state,
            identity,
            state.settings.sse_max_per_identity as nat,
        ).after_acquire(identity) == after_acquires(
            state,
            identity,
            state.settings.sse_max_per_identity as nat,
        ),
{
    let most = state.settings.sse_max_per_identity;
    assert forall|held: nat| held < most implies (#[trigger] after_acquires(
        state,
        identity,
        held,
    )).sse_refusal(identity) is None by {
        lemma_acquires_count(state, identity, held + 1);
    }
    lemma_acquires_count(state, identity, most as nat);
}

/// Ending one stream of an identity frees one slot of that identity and of no
/// other: it has one fewer open, every other identity has what it had, and where
/// the identity was at its cap and a stream was counted in all, it is granted one
/// stream again and no second one.
pub proof fn lemma_release_frees_one_slot(state: LimiterModel, identity: Seq<char>)
    requires
        state.wf(),
        state.sse_active(identity) >= 1,
    ensures
        state.after_release(identity).sse_active(identity) == state.sse_active(identity) - 1,
        forall|other: Seq<char>|
            other != identity ==> #[trigger] state.after_release(identity).sse_active(other)
                == state.sse_active(other),
        state.sse_global >= 1 ==> state.after_release(identity).sse_global == state.sse_global
            - 1,
        state.sse_active(identity) == state.settings.sse_max_per_identity && state.sse_global
            >= 1 ==> {
            &&& state.sse_refusal(identity) is Some
            &&& state.after_release(identity).sse_refusal(identity) is None
            &&& state.after_release(identity).after_acquire(identity).sse_refusal(identity) is Some
        },
{
}

} // verus!
