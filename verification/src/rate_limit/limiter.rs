//! The limiter that requests are checked against.

use crate::config::RateLimitConfig;
use crate::rate_limit::bucket::{
    elapsed_nanos, reset_after_seconds, retry_after_seconds, RateBucket, TOKEN_UNIT,
};
use crate::rate_limit::clock::{clock_start, nanos_since};
use crate::rate_limit::model::{
    is_stale, CLEANUP_INTERVAL_NANOS, LimiterModel, RateAllowance, RateDecision, RateDenial,
    SSE_CAP_RETRY_AFTER_SECS, SseCapDenied, STALE_BUCKET_NANOS,
};
use crate::rate_limit::scope::{bucket_settings, spec_bucket_settings, RateScope};
use crate::text::owned;
use vstd::hash_map::StringHashMap;
use vstd::prelude::*;
use vstd::string::StringExecFns;

verus! {

/// The scope and identity that a bucket belongs to.
struct BucketKey {
    scope: RateScope,
    identity: String,
}

/// The buckets, found by the name of their scope and identity, and the list of
/// those scopes and identities, which the sweep walks.
struct BucketStore {
    map: StringHashMap<RateBucket>,
    keys: Vec<BucketKey>,
}

/// The character that stands for a scope in the name of a bucket.
spec fn scope_tag(scope: RateScope) -> char {
    match scope {
        RateScope::Read => 'r',
        RateScope::Write => 'w',
        RateScope::Attachment => 'a',
        RateScope::WebhookTest => 't',
        RateScope::Mcp => 'm',
        RateScope::Sse => 's',
    }
}

/// The name that the bucket of a scope and an identity is stored under: the
/// character of the scope, then the identity.
spec fn bucket_name(key: (RateScope, Seq<char>)) -> Seq<char> {
    seq![scope_tag(key.0)] + key.1
}

proof fn lemma_names_differ(a: (RateScope, Seq<char>), b: (RateScope, Seq<char>))
    requires
        bucket_name(a) == bucket_name(b),
    ensures
        a == b,
{
    assert(bucket_name(a)[0] == scope_tag(a.0));
    assert(bucket_name(b)[0] == scope_tag(b.0));
    assert(bucket_name(a).drop_first() =~= a.1);
    assert(bucket_name(b).drop_first() =~= b.1);
}

spec fn key_of(key: BucketKey) -> (RateScope, Seq<char>) {
    (key.scope, key.identity@)
}

spec fn listed(keys: Seq<BucketKey>, name: Seq<char>) -> bool {
    exists|i: int| 0 <= i < keys.len() && bucket_name(key_of(#[trigger] keys[i])) == name
}

/// The list names each bucket of the map once, and nothing else.
spec fn store_sound(map: Map<Seq<char>, RateBucket>, keys: Seq<BucketKey>) -> bool {
    &&& forall|i: int, j: int|
        0 <= i < j < keys.len() ==> key_of(#[trigger] keys[i]) != key_of(#[trigger] keys[j])
    &&& forall|i: int|
        0 <= i < keys.len() ==> map.contains_key(bucket_name(key_of(#[trigger] keys[i])))
    &&& forall|name: Seq<char>| #[trigger] map.contains_key(name) ==> listed(keys, name)
}

/// The buckets of the map, by scope and identity.
spec fn store_view(map: Map<Seq<char>, RateBucket>) -> Map<(RateScope, Seq<char>), RateBucket> {
    Map::new(
        |key: (RateScope, Seq<char>)| map.contains_key(bucket_name(key)),
        |key: (RateScope, Seq<char>)| map[bucket_name(key)],
    )
}

proof fn lemma_store_insert(
    map: Map<Seq<char>, RateBucket>,
    key: (RateScope, Seq<char>),
    bucket: RateBucket,
)
    ensures
        store_view(map.insert(bucket_name(key), bucket)) == store_view(map).insert(key, bucket),
{
    let left = store_view(map.insert(bucket_name(key), bucket));
    let right = store_view(map).insert(key, bucket);
    assert forall|other: (RateScope, Seq<char>)| left.contains_key(other) == right.contains_key(
        other,
    ) by {
        if bucket_name(other) == bucket_name(key) {
            lemma_names_differ(other, key);
        }
    }
    assert forall|other: (RateScope, Seq<char>)| left.contains_key(other) implies left[other]
        == right[other] by {
        if bucket_name(other) == bucket_name(key) {
            lemma_names_differ(other, key);
        }
    }
    assert(left =~= right);
}

/// The name that the bucket of `scope` and `identity` is stored under.
fn bucket_name_of(scope: RateScope, identity: &str) -> (name: String)
    ensures
        name@ == bucket_name((scope, identity@)),
{
    let mut name = String::new();
    name.push(
        match scope {
            RateScope::Read => 'r',
            RateScope::Write => 'w',
            RateScope::Attachment => 'a',
            RateScope::WebhookTest => 't',
            RateScope::Mcp => 'm',
            RateScope::Sse => 's',
        },
    );
    name.append(identity);
    assert(name@ =~= bucket_name((scope, identity@)));
    name
}

impl BucketStore {
    fn empty() -> (store: BucketStore)
        ensures
            store.map@ == Map::<Seq<char>, RateBucket>::empty(),
            store.keys@.len() == 0,
    {
        BucketStore { map: StringHashMap::new(), keys: Vec::new() }
    }
}

proof fn lemma_put_existing(
    map: Map<Seq<char>, RateBucket>,
    keys: Seq<BucketKey>,
    key: (RateScope, Seq<char>),
    bucket: RateBucket,
)
    requires
        store_sound(map, keys),
        map.contains_key(bucket_name(key)),
    ensures
        store_sound(map.insert(bucket_name(key), bucket), keys),
{
    let after = map.insert(bucket_name(key), bucket);
    assert forall|name: Seq<char>| #[trigger] after.contains_key(name) implies listed(
        keys,
        name,
    ) by {
        assert(map.contains_key(name));
    }
}

proof fn lemma_put_new(
    map: Map<Seq<char>, RateBucket>,
    keys: Seq<BucketKey>,
    added: BucketKey,
    bucket: RateBucket,
)
    requires
        store_sound(map, keys),
        !map.contains_key(bucket_name(key_of(added))),
    ensures
        store_sound(map.insert(bucket_name(key_of(added)), bucket), keys.push(added)),
{
    let after = map.insert(bucket_name(key_of(added)), bucket);
    let more = keys.push(added);
    assert forall|i: int, j: int| 0 <= i < j < more.len() implies key_of(#[trigger] more[i])
        != key_of(#[trigger] more[j]) by {
        assert(more[i] == keys[i]);
        if j < keys.len() {
            assert(more[j] == keys[j]);
        } else {
            assert(map.contains_key(bucket_name(key_of(keys[i]))));
        }
    }
    assert forall|i: int| 0 <= i < more.len() implies after.contains_key(
        bucket_name(key_of(#[trigger] more[i])),
    ) by {
        if i < keys.len() {
            assert(more[i] == keys[i]);
            assert(map.contains_key(bucket_name(key_of(keys[i]))));
        }
    }
    assert forall|name: Seq<char>| #[trigger] after.contains_key(name) implies listed(
        more,
        name,
    ) by {
        if name == bucket_name(key_of(added)) {
            assert(more[keys.len() as int] == added);
        } else {
            assert(map.contains_key(name));
            let j = choose|j: int|
                0 <= j < keys.len() && bucket_name(key_of(#[trigger] keys[j])) == name;
            assert(more[j] == keys[j]);
        }
    }
}

/// The buckets of `map` that are not stale at `now`.
spec fn fresh_part(map: Map<Seq<char>, RateBucket>, now: u64) -> Map<Seq<char>, RateBucket> {
    Map::new(
        |name: Seq<char>| map.contains_key(name) && !is_stale(map[name], now),
        |name: Seq<char>| map[name],
    )
}

/// The store without the buckets that are stale at `now`.
fn sweep(store: &BucketStore, now: u64) -> (swept: BucketStore)
    requires
        store_sound(store.map@, store.keys@),
    ensures
        store_sound(swept.map@, swept.keys@),
        swept.map@ == fresh_part(store.map@, now),
{
    let ghost map0 = store.map@;
    let ghost keys0 = store.keys@;
    let mut swept = BucketStore::empty();
    let mut i: usize = 0;
    while i < store.keys.len()
        invariant
            i <= keys0.len(),
            store.keys@ == keys0,
            store.map@ == map0,
            store_sound(map0, keys0),
            store_sound(swept.map@, swept.keys@),
            forall|name: Seq<char>| #[trigger]
                swept.map@.contains_key(name) ==> fresh_part(map0, now).contains_key(name)
                    && swept.map@[name] == map0[name] && listed(keys0.take(i as int), name),
            forall|j: int|
                0 <= j < i && fresh_part(map0, now).contains_key(
                    bucket_name(key_of(#[trigger] keys0[j])),
                ) ==> swept.map@.contains_key(bucket_name(key_of(keys0[j]))),
        decreases keys0.len() - i,
    {
        let scope = store.keys[i].scope;
        let name = bucket_name_of(scope, store.keys[i].identity.as_str());
        let ghost here = keys0[i as int];
        assert(name@ == bucket_name(key_of(here)));
        assert(map0.contains_key(name@));
        let ghost before = swept.map@;
        let ghost seen = keys0.take(i as int);
        let ghost seen_more = keys0.take(i + 1);
        proof {
            assert forall|other: Seq<char>| listed(seen, other) implies listed(
                seen_more,
                other,
            ) by {
                let j = choose|j: int|
                    0 <= j < seen.len() && bucket_name(key_of(#[trigger] seen[j])) == other;
                assert(seen_more[j] == seen[j]);
            }
            assert(seen_more[i as int] == here);
            if before.contains_key(name@) {
                let j = choose|j: int|
                    0 <= j < seen.len() && bucket_name(key_of(#[trigger] seen[j])) == name@;
                assert(seen[j] == keys0[j]);
                lemma_names_differ(key_of(keys0[j]), key_of(here));
                assert(false);
            }
        }
        match store.map.get(name.as_str()) {
            Some(bucket) => {
                if elapsed_nanos(bucket.last_seen, now) < STALE_BUCKET_NANOS {
                    let kept = BucketKey { scope, identity: store.keys[i].identity.clone() };
                    assert(key_of(kept) == key_of(here));
                    proof {
                        lemma_put_new(before, swept.keys@, kept, *bucket);
                    }
                    swept.keys.push(kept);
                    swept.map.insert(name, *bucket);
                }
            },
            None => {},
        }
        i += 1;
    }
    proof {
        assert(keys0.take(keys0.len() as int) == keys0);
        assert forall|name: Seq<char>| fresh_part(map0, now).contains_key(
            name,
        ) implies swept.map@.contains_key(name) by {
            assert(map0.contains_key(name));
            let j = choose|j: int|
                0 <= j < keys0.len() && bucket_name(key_of(#[trigger] keys0[j])) == name;
        }
        assert(swept.map@ =~= fresh_part(map0, now));
    }
    swept
}

/// A stream slot that was granted. It is handed back to the limiter that granted
/// it when the stream ends, whichever way it ends.
pub struct SseConnectionLease {
    identity: String,
}

impl SseConnectionLease {
    /// The identity that holds the slot.
    pub closed spec fn holder(&self) -> Seq<char> {
        self.identity@
    }

    /// The identity that holds the slot.
    pub fn identity(&self) -> (identity: &str)
        ensures
            identity@ == self.holder(),
    {
        self.identity.as_str()
    }
}

/// Token buckets by scope and client identity, and the count of open event
/// streams by identity and in all.
pub struct RateLimiter {
    settings: RateLimitConfig,
    buckets: BucketStore,
    sse_active_by_identity: StringHashMap<u32>,
    sse_active_global: u32,
    last_cleanup: Option<u64>,
    /// Where the limiter's clock starts.
    origin: std::time::Instant,
}

impl View for RateLimiter {
    type V = LimiterModel;

    closed spec fn view(&self) -> LimiterModel {
        LimiterModel {
            settings: self.settings,
            buckets: store_view(self.buckets.map@),
            sse_by_identity: self.sse_active_by_identity@,
            sse_global: self.sse_active_global,
            last_cleanup: self.last_cleanup,
        }
    }
}

impl RateLimiter {
    #[verifier::type_invariant]
    spec fn sound(self) -> bool {
        store_sound(self.buckets.map@, self.buckets.keys@) && self@.wf()
    }

    /// A limiter with the tunables `settings` that has seen no request. Its clock
    /// starts now.
    pub fn new(settings: RateLimitConfig) -> (limiter: RateLimiter)
        ensures
            limiter@ == LimiterModel::initial(settings),
            limiter@.wf(),
    {
        let limiter = RateLimiter {
            settings,
            buckets: BucketStore::empty(),
            sse_active_by_identity: StringHashMap::new(),
            sse_active_global: 0,
            last_cleanup: None,
            origin: clock_start(),
        };
        assert(limiter@.buckets =~= Map::empty());
        limiter
    }

    /// Costs nothing when it runs; after it the verifier knows that the limiter is
    /// well formed, as every limiter is.
    pub fn note_well_formed(&self)
        ensures
            self@.wf(),
    {
        proof {
            use_type_invariant(self);
        }
    }

    /// What the limiter's clock shows: the nanoseconds since the limiter was made.
    pub fn now(&self) -> (nanos: u64) {
        nanos_since(&self.origin)
    }

    /// The tunables that the limiter was made with.
    pub fn settings(&self) -> (settings: RateLimitConfig)
        ensures
            settings == self@.settings,
    {
        self.settings
    }

    /// Checks one request of `identity` in `scope` at the time that the limiter's
    /// clock shows: the nanoseconds since the limiter was made.
    pub fn check(&mut self, scope: RateScope, identity: &str) -> (decision: RateDecision)
        ensures
            exists|now: u64|
                decision@ == old(self)@.decision(scope, identity@, now) && final(self)@ == old(
                    self,
                )@.after_check(scope, identity@, now),
            final(self)@.wf(),
    {
        let now = self.now();
        self.check_with_now(scope, identity, now)
    }

    /// Checks one request of `identity` in `scope` at `now`, in nanoseconds on a
    /// clock that does not go back. The bucket is made full on first use, brought
    /// to `now`, and gives one token if it has one.
    pub fn check_with_now(&mut self, scope: RateScope, identity: &str, now: u64) -> (decision:
        RateDecision)
        ensures
            decision@ == old(self)@.decision(scope, identity@, now),
            final(self)@ == old(self)@.after_check(scope, identity@, now),
            final(self)@.wf(),
    {
        proof {
            use_type_invariant(&*self);
        }
        let limits = bucket_settings(&self.settings, scope);
        let mut store = BucketStore::empty();
        core::mem::swap(&mut store, &mut self.buckets);
        let due = match self.last_cleanup {
            None => true,
            Some(previous) => elapsed_nanos(previous, now) >= CLEANUP_INTERVAL_NANOS,
        };
        if due {
            store = sweep(&store, now);
            self.last_cleanup = Some(now);
        }
        let ghost swept = old(self)@.swept(now);
        assert(store_view(store.map@) =~= swept.buckets);
        let ghost key = (scope, identity@);
        let ghost map_before = store.map@;
        let ghost keys_before = store.keys@;
        let name = bucket_name_of(scope, identity);
        let found: Option<RateBucket> = match store.map.get(name.as_str()) {
            Some(held) => Some(*held),
            None => None,
        };
        let mut bucket = match found {
            Some(held) => held,
            None => RateBucket::new(limits.burst, now),
        };
        assert(bucket.within(limits.burst)) by {
            if map_before.contains_key(name@) {
                assert(swept.buckets.contains_key(key));
                assert(old(self)@.buckets.contains_key(key));
            }
        }
        bucket.refill(limits.per_minute, limits.burst, now);
        assert(bucket == old(self)@.bucket_at(scope, identity@, now));
        let allowed = bucket.try_take();
        if found.is_none() {
            let added = BucketKey { scope, identity: owned(identity) };
            proof {
                lemma_put_new(map_before, keys_before, added, bucket);
            }
            store.keys.push(added);
        } else {
            proof {
                lemma_put_existing(map_before, keys_before, key, bucket);
            }
        }
        store.map.insert(name, bucket);
        proof {
            lemma_store_insert(map_before, key, bucket);
            assert forall|other: (RateScope, Seq<char>)| #[trigger]
                store_view(store.map@).contains_key(other) implies store_view(
                store.map@,
            )[other].within(spec_bucket_settings(self.settings, other.0).burst) by {
                if other != key {
                    assert(swept.buckets.contains_key(other));
                    assert(old(self)@.buckets.contains_key(other));
                }
            }
        }
        self.buckets = store;
        if allowed {
            assert(bucket.tokens / TOKEN_UNIT <= limits.burst) by (nonlinear_arith)
                requires
                    bucket.tokens <= limits.burst * TOKEN_UNIT,
                    TOKEN_UNIT > 0,
            ;
            let remaining: u32 = (bucket.tokens / TOKEN_UNIT) as u32;
            RateDecision::Allow(
                RateAllowance {
                    limit: limits.per_minute,
                    remaining,
                    reset_after_secs: reset_after_seconds(
                        bucket.tokens,
                        limits.per_minute,
                        limits.burst,
                    ),
                },
            )
        } else {
            let retry_after_secs = retry_after_seconds(bucket.tokens, limits.per_minute);
            let mut message = String::from_str("rate limit exceeded for ");
            message.append(scope.description());
            RateDecision::Deny(
                RateDenial {
                    limit: limits.per_minute,
                    remaining: 0,
                    reset_after_secs: retry_after_secs,
                    retry_after_secs,
                    message,
                },
            )
        }
    }

    /// Asks for one more open stream for `identity`. It is refused where the identity
    /// has as many open as one identity may, or where as many are open in all as the
    /// limiter admits; the state is then unchanged.
    pub fn try_acquire_sse_slot(&mut self, identity: &str) -> (granted: Result<
        SseConnectionLease,
        SseCapDenied,
    >)
        ensures
            match granted {
                Ok(lease) => old(self)@.sse_refusal(identity@) is None && lease.holder()
                    == identity@,
                Err(denied) => old(self)@.sse_refusal(identity@) == Some(denied@),
            },
            final(self)@ == old(self)@.after_acquire(identity@),
            final(self)@.wf(),
    {
        proof {
            use_type_invariant(&*self);
        }
        let current_for_identity: u32 = match self.sse_active_by_identity.get(identity) {
            Some(count) => *count,
            None => 0,
        };
        if current_for_identity >= self.settings.sse_max_per_identity {
            return Err(
                SseCapDenied {
                    limit: self.settings.sse_max_per_identity,
                    retry_after_secs: SSE_CAP_RETRY_AFTER_SECS,
                    message: owned("too many active SSE streams for this client identity"),
                },
            );
        }
        if self.sse_active_global >= self.settings.sse_max_global {
            return Err(
                SseCapDenied {
                    limit: self.settings.sse_max_global,
                    retry_after_secs: SSE_CAP_RETRY_AFTER_SECS,
                    message: owned("SSE stream capacity reached for this instance"),
                },
            );
        }
        let mut counts: StringHashMap<u32> = StringHashMap::new();
        core::mem::swap(&mut counts, &mut self.sse_active_by_identity);
        counts.insert(owned(identity), current_for_identity + 1);
        self.sse_active_by_identity = counts;
        self.sse_active_global = self.sse_active_global + 1;
        Ok(SseConnectionLease { identity: owned(identity) })
    }

    /// Takes back the slot of a stream that ended.
    pub fn release_sse_slot(&mut self, lease: SseConnectionLease)
        ensures
            final(self)@ == old(self)@.after_release(lease.holder()),
            final(self)@.wf(),
    {
        proof {
            use_type_invariant(&*self);
        }
        let identity = lease.identity.as_str();
        let current: Option<u32> = match self.sse_active_by_identity.get(identity) {
            Some(count) => Some(*count),
            None => None,
        };
        let global: u32 = if self.sse_active_global > 0 {
            self.sse_active_global - 1
        } else {
            0
        };
        let ghost listed = self.sse_active_by_identity@;
        let mut counts: StringHashMap<u32> = StringHashMap::new();
        core::mem::swap(&mut counts, &mut self.sse_active_by_identity);
        match current {
            Some(count) => {
                if count > 1 {
                    counts.insert(owned(identity), count - 1);
                } else {
                    counts.remove(identity);
                }
            },
            None => {
                assert(listed.remove(identity@) =~= listed);
            },
        }
        self.sse_active_by_identity = counts;
        self.sse_active_global = global;
    }

    /// The streams that `identity` has open.
    pub fn sse_active(&self, identity: &str) -> (open: u32)
        ensures
            open == self@.sse_active(identity@),
    {
        match self.sse_active_by_identity.get(identity) {
            Some(count) => *count,
            None => 0,
        }
    }

    /// The streams open in all.
    pub fn sse_active_global(&self) -> (open: u32)
        ensures
            open == self@.sse_global,
    {
        self.sse_active_global
    }
}

} // verus!
