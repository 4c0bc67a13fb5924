//! The dispatcher: which subscriptions an event goes to, and the queue of the
//! deliveries that failed once.

use crate::error::{AppErrorView, AppResult};
use crate::event_log::query::position_of;
use crate::json::string_views;
use crate::live::{advanced, cursor_view};
use crate::models::{event_views, SystemEventRecord, WebhookRecord, WebhookView};
use crate::order::Position;
use crate::text::str_eq;
use crate::validate::{parse_webhook_events, spec_parse_webhook_events};
use crate::webhooks::delivery::{
    delivery_request, spec_delivery_request, spec_delivery_succeeded, DeliveryRequest,
    DeliveryRequestView,
};
use crate::webhooks::payload::{
    payload_from_system_event, spec_payload_from_system_event, WebhookPayload, WebhookPayloadView,
};
use vstd::prelude::*;

verus! {

/// The milliseconds between two rounds of the dispatcher.
pub const DISPATCH_POLL_INTERVAL_MS: u64 = 1000;

/// The seconds that a failed delivery waits for its retry.
pub const RETRY_DELAY_SECONDS: u64 = 30;

/// The retries that can wait at one time.
pub const MAX_RETRY_QUEUE: usize = 512;

/// The most events that one round takes from the log.
pub const DISPATCH_BATCH_SIZE: i64 = 100;

/// `RETRY_DELAY_SECONDS`, in nanoseconds.
pub const RETRY_DELAY_NANOS: u64 = 30_000_000_000;

/// A subscription is subscribed to `event` where its stored list of events reads as
/// a list that holds `event`. One whose list cannot be read is subscribed to
/// nothing.
pub open spec fn spec_subscribed(webhook: WebhookView, event: Seq<char>) -> bool {
    match spec_parse_webhook_events(webhook.events) {
        Ok(names) => names.contains(event),
        Err(_) => false,
    }
}

/// Whether `webhook` is subscribed to `event`; see [`spec_subscribed`].
pub fn webhook_subscribed_to_event(webhook: &WebhookRecord, event: &str) -> (subscribed: bool)
    ensures
        subscribed == spec_subscribed(webhook@, event@),
{
    match parse_webhook_events(webhook.events.as_str()) {
        Ok(events) => {
            let mut i: usize = 0;
            while i < events.len()
                invariant
                    i <= events.len(),
                    spec_parse_webhook_events(webhook@.events) == Ok::<
                        Seq<Seq<char>>,
                        AppErrorView,
                    >(string_views(events@)),
                    forall|k: int| 0 <= k < i ==> string_views(events@)[k] != event@,
                decreases events.len() - i,
            {
                if str_eq(events[i].as_str(), event) {
                    assert(string_views(events@)[i as int] == event@);
                    return true;
                }
                i += 1;
            }
            false
        },
        Err(_) => false,
    }
}

/// The subscriptions of `webhooks`, as values.
pub open spec fn webhook_views(webhooks: Seq<WebhookRecord>) -> Seq<WebhookView> {
    Seq::new(webhooks.len(), |i: int| webhooks[i]@)
}

/// A subscription is sent `event` where it is switched on and subscribed to it.
pub open spec fn spec_receives(webhook: WebhookView, event: Seq<char>) -> bool {
    webhook.active == 1 && spec_subscribed(webhook, event)
}

/// The subscriptions of `webhooks` that are sent `event`, in their order.
pub open spec fn spec_subscribers(webhooks: Seq<WebhookView>, event: Seq<char>) -> Seq<WebhookView>
    decreases webhooks.len(),
{
    if webhooks.len() == 0 {
        Seq::empty()
    } else {
        let earlier = spec_subscribers(webhooks.drop_last(), event);
        if spec_receives(webhooks.last(), event) {
            earlier.push(webhooks.last())
        } else {
            earlier
        }
    }
}

/// An event is delivered to the subscriptions that are switched on and subscribed
/// to it, and to no other: every subscription that is chosen is one of those
/// given, is switched on and is subscribed to the event, and every one given of
/// which that holds is chosen.
pub proof fn lemma_only_subscribers(webhooks: Seq<WebhookView>, event: Seq<char>)
    ensures
        forall|i: int|
            0 <= i < spec_subscribers(webhooks, event).len() ==> spec_receives(
                #[trigger] spec_subscribers(webhooks, event)[i],
                event,
            ) && webhooks.contains(spec_subscribers(webhooks, event)[i]),
        forall|k: int|
            0 <= k < webhooks.len() && spec_receives(#[trigger] webhooks[k], event)
                ==> spec_subscribers(webhooks, event).contains(webhooks[k]),
        forall|k: int|
            0 <= k < webhooks.len() && !spec_receives(#[trigger] webhooks[k], event)
                ==> !spec_subscribers(webhooks, event).contains(webhooks[k]),
    decreases webhooks.len(),
{
    if webhooks.len() > 0 {
        let shorter = webhooks.drop_last();
        lemma_only_subscribers(shorter, event);
        let earlier = spec_subscribers(shorter, event);
        let chosen = spec_subscribers(webhooks, event);
        assert forall|i: int| 0 <= i < chosen.len() implies spec_receives(
            #[trigger] chosen[i],
            event,
        ) && webhooks.contains(chosen[i]) by {
            if i < earlier.len() {
                assert(chosen[i] == earlier[i]);
                let k = choose|k: int| 0 <= k < shorter.len() && shorter[k] == earlier[i];
                assert(webhooks[k] == chosen[i]);
            } else {
                assert(webhooks[webhooks.len() - 1] == chosen[i]);
            }
        }
        assert forall|k: int|
            0 <= k < webhooks.len() && spec_receives(
                #[trigger] webhooks[k],
                event,
            ) implies chosen.contains(webhooks[k]) by {
            if k < shorter.len() {
                assert(shorter[k] == webhooks[k]);
                let i = choose|i: int| 0 <= i < earlier.len() && earlier[i] == shorter[k];
                assert(chosen[i] == webhooks[k]);
            } else {
                assert(chosen[chosen.len() - 1] == webhooks[k]);
            }
        }
        assert forall|k: int|
            0 <= k < webhooks.len() && !spec_receives(
                #[trigger] webhooks[k],
                event,
            ) implies !chosen.contains(webhooks[k]) by {
            if chosen.contains(webhooks[k]) {
                let i = choose|i: int| 0 <= i < chosen.len() && chosen[i] == webhooks[k];
                assert(spec_receives(chosen[i], event));
            }
        }
    }
}

/// The subscriptions that `event` is delivered to: those of `webhooks` that are
/// switched on and subscribed to it.
pub fn subscribers(webhooks: Vec<WebhookRecord>, event: &str) -> (chosen: Vec<WebhookRecord>)
    ensures
        webhook_views(chosen@) == spec_subscribers(webhook_views(webhooks@), event@),
{
    let ghost given = webhook_views(webhooks@);
    let mut chosen: Vec<WebhookRecord> = Vec::new();
    let mut i: usize = 0;
    assert(given.take(0) =~= Seq::empty());
    assert(webhook_views(chosen@) =~= Seq::empty());
    while i < webhooks.len()
        invariant
            i <= webhooks.len(),
            given == webhook_views(webhooks@),
            webhook_views(chosen@) == spec_subscribers(given.take(i as int), event@),
        decreases webhooks.len() - i,
    {
        proof {
            assert(given.take(i + 1).drop_last() == given.take(i as int));
            assert(given.take(i + 1).last() == webhooks@[i as int]@);
        }
        if webhooks[i].active == 1 && webhook_subscribed_to_event(&webhooks[i], event) {
            let ghost prior = webhook_views(chosen@);
            chosen.push(webhooks[i].duplicate());
            assert(webhook_views(chosen@) =~= prior.push(webhooks@[i as int]@));
        }
        i += 1;
    }
    assert(given.take(webhooks.len() as int) == given);
    chosen
}

/// One delivery that is to be made: the subscription that it goes to, and the
/// request that carries it.
pub struct PlannedDelivery {
    pub webhook: WebhookRecord,
    pub request: DeliveryRequest,
}

pub struct PlannedDeliveryView {
    pub webhook: WebhookView,
    pub request: DeliveryRequestView,
}

impl View for PlannedDelivery {
    type V = PlannedDeliveryView;

    open spec fn view(&self) -> PlannedDeliveryView {
        PlannedDeliveryView { webhook: self.webhook@, request: self.request@ }
    }
}

/// The deliveries of `planned`, as values.
pub open spec fn planned_views(planned: Seq<PlannedDelivery>) -> Seq<PlannedDeliveryView> {
    Seq::new(planned.len(), |i: int| planned[i]@)
}

/// The deliveries that `payload` calls for: one to each of `webhooks` that is
/// switched on and subscribed to its event, in their order, and none to any other.
pub open spec fn spec_plan(webhooks: Seq<WebhookView>, payload: WebhookPayloadView) -> Seq<
    PlannedDeliveryView,
> {
    let chosen = spec_subscribers(webhooks, payload.event);
    Seq::new(
        chosen.len(),
        |i: int|
            PlannedDeliveryView {
                webhook: chosen[i],
                request: spec_delivery_request(chosen[i], payload),
            },
    )
}

/// What an event sets going: its payload, and the deliveries of that payload to
/// the subscriptions of its project that are switched on and subscribed to its
/// action. `webhooks` are the subscriptions of the project of the event.
pub fn dispatch_event(event: SystemEventRecord, webhooks: Vec<WebhookRecord>) -> (planned: (
    WebhookPayload,
    Vec<PlannedDelivery>,
))
    ensures
        planned.0@ == spec_payload_from_system_event(event@),
        planned_views(planned.1@) == spec_plan(webhook_views(webhooks@), planned.0@),
{
    let payload = payload_from_system_event(event);
    let chosen = subscribers(webhooks, payload.event.as_str());
    let mut deliveries: Vec<PlannedDelivery> = Vec::new();
    let mut i: usize = 0;
    while i < chosen.len()
        invariant
            i <= chosen.len(),
            deliveries@.len() == i,
            forall|k: int|
                0 <= k < i ==> (#[trigger] deliveries@[k])@ == (PlannedDeliveryView {
                    webhook: chosen@[k]@,
                    request: spec_delivery_request(chosen@[k]@, payload@),
                }),
        decreases chosen.len() - i,
    {
        let request = delivery_request(&chosen[i], &payload);
        deliveries.push(PlannedDelivery { webhook: chosen[i].duplicate(), request });
        i += 1;
    }
    assert(planned_views(deliveries@) =~= spec_plan(webhook_views(webhooks@), payload@)) by {
        let wanted = spec_plan(webhook_views(webhooks@), payload@);
        assert(wanted.len() == chosen@.len());
        assert forall|k: int| 0 <= k < wanted.len() implies planned_views(deliveries@)[k]
            == wanted[k] by {
            assert(webhook_views(chosen@)[k] == chosen@[k]@);
        }
    }
    (payload, deliveries)
}

/// An event goes once to a subscription that is switched on and subscribed to it:
/// one delivery is made, to its address, with the body of its platform.
pub proof fn lemma_one_subscriber_one_delivery(webhook: WebhookView, payload: WebhookPayloadView)
    requires
        spec_receives(webhook, payload.event),
    ensures
        spec_plan(seq![webhook], payload) == seq![
            PlannedDeliveryView { webhook, request: spec_delivery_request(webhook, payload) },
        ],
        spec_plan(seq![webhook], payload)[0].request.url == webhook.url,
{
    let one = seq![webhook];
    assert(one.drop_last() =~= Seq::<WebhookView>::empty());
    assert(spec_subscribers(one.drop_last(), payload.event) =~= Seq::<WebhookView>::empty());
    assert(spec_subscribers(one, payload.event) =~= one);
    assert(spec_plan(one, payload) =~= seq![
        PlannedDeliveryView { webhook, request: spec_delivery_request(webhook, payload) },
    ]);
}

/// A delivery got through where an answer came, and its status says success.
pub open spec fn delivered(outcome: Option<u16>) -> bool {
    match outcome {
        Some(status) => spec_delivery_succeeded(status),
        None => false,
    }
}

/// A delivery that failed once and waits for its one retry.
pub struct PendingDelivery {
    pub webhook: WebhookRecord,
    pub payload: WebhookPayload,
    /// When the retry is due, in nanoseconds on the dispatcher's clock.
    pub due_at: u64,
}

pub struct PendingDeliveryView {
    pub webhook: WebhookView,
    pub payload: WebhookPayloadView,
    pub due_at: u64,
}

impl View for PendingDelivery {
    type V = PendingDeliveryView;

    open spec fn view(&self) -> PendingDeliveryView {
        PendingDeliveryView { webhook: self.webhook@, payload: self.payload@, due_at: self.due_at }
    }
}

/// The deliveries of `queue`, as values.
pub open spec fn pending_views(queue: Seq<PendingDelivery>) -> Seq<PendingDeliveryView> {
    Seq::new(queue.len(), |i: int| queue[i]@)
}

/// When a delivery that failed at `now` is retried; the end of time where the
/// clock cannot count that far.
pub open spec fn retry_due_at(now: u64) -> u64 {
    if now + RETRY_DELAY_NANOS <= u64::MAX {
        (now + RETRY_DELAY_NANOS) as u64
    } else {
        u64::MAX
    }
}

/// The queue after a delivery failed at `now`: the delivery waits at its end,
/// unless the queue is full, in which case the retry is dropped.
pub open spec fn spec_schedule_retry(
    queue: Seq<PendingDeliveryView>,
    webhook: WebhookView,
    payload: WebhookPayloadView,
    now: u64,
) -> Seq<PendingDeliveryView> {
    if queue.len() >= MAX_RETRY_QUEUE {
        queue
    } else {
        queue.push(PendingDeliveryView { webhook, payload, due_at: retry_due_at(now) })
    }
}

/// Puts a delivery that failed at `now` in line for its retry. Says whether it
/// did: a full queue drops the retry.
pub fn schedule_retry(
    retry_queue: &mut Vec<PendingDelivery>,
    webhook: WebhookRecord,
    payload: WebhookPayload,
    now: u64,
) -> (scheduled: bool)
    ensures
        scheduled == (old(retry_queue)@.len() < MAX_RETRY_QUEUE),
        pending_views(final(retry_queue)@) == spec_schedule_retry(
            pending_views(old(retry_queue)@),
            webhook@,
            payload@,
            now,
        ),
        final(retry_queue)@.len() <= MAX_RETRY_QUEUE || final(retry_queue)@.len() == old(
            retry_queue,
        )@.len(),
{
    if retry_queue.len() >= MAX_RETRY_QUEUE {
        return false;
    }
    let due_at: u64 = if now <= u64::MAX - RETRY_DELAY_NANOS {
        now + RETRY_DELAY_NANOS
    } else {
        u64::MAX
    };
    let ghost before = pending_views(retry_queue@);
    let pending = PendingDelivery { webhook, payload, due_at };
    retry_queue.push(pending);
    assert(pending_views(retry_queue@) =~= before.push(pending@));
    true
}

/// The deliveries of `queue` whose retry is due at `now`, in their order.
pub open spec fn due_entries(queue: Seq<PendingDeliveryView>, now: u64) -> Seq<PendingDeliveryView>
    decreases queue.len(),
{
    if queue.len() == 0 {
        Seq::empty()
    } else if queue.last().due_at <= now {
        due_entries(queue.drop_last(), now).push(queue.last())
    } else {
        due_entries(queue.drop_last(), now)
    }
}

/// The deliveries of `queue` whose retry is still to come at `now`, in their order.
pub open spec fn waiting_entries(queue: Seq<PendingDeliveryView>, now: u64) -> Seq<
    PendingDeliveryView,
>
    decreases queue.len(),
{
    if queue.len() == 0 {
        Seq::empty()
    } else if queue.last().due_at > now {
        waiting_entries(queue.drop_last(), now).push(queue.last())
    } else {
        waiting_entries(queue.drop_last(), now)
    }
}

/// A retry leaves the queue when it is due and at no other time, and it leaves for
/// good: what is handed out and what stays make up the queue, nothing that is
/// handed out stays, and nothing stays that is due.
pub proof fn lemma_retry_once(queue: Seq<PendingDeliveryView>, now: u64)
    ensures
        due_entries(queue, now).len() + waiting_entries(queue, now).len() == queue.len(),
        forall|i: int|
            0 <= i < due_entries(queue, now).len() ==> (#[trigger] due_entries(
                queue,
                now,
            )[i]).due_at <= now,
        forall|i: int|
            0 <= i < waiting_entries(queue, now).len() ==> (#[trigger] waiting_entries(
                queue,
                now,
            )[i]).due_at > now,
        due_entries(waiting_entries(queue, now), now).len() == 0,
    decreases queue.len(),
{
    if queue.len() > 0 {
        lemma_retry_once(queue.drop_last(), now);
        let waiting = waiting_entries(queue, now);
        if queue.last().due_at > now {
            assert(waiting.drop_last() == waiting_entries(queue.drop_last(), now));
        }
    }
}

/// Takes from the queue the deliveries whose retry is due at `now`. Each is tried
/// once more and, whatever comes of it, is not put back.
pub fn process_retry_queue(retry_queue: &mut Vec<PendingDelivery>, now: u64) -> (due: Vec<
    PendingDelivery,
>)
    ensures
        pending_views(due@) == due_entries(pending_views(old(retry_queue)@), now),
        pending_views(final(retry_queue)@) == waiting_entries(
            pending_views(old(retry_queue)@),
            now,
        ),
{
    let ghost before = pending_views(retry_queue@);
    let mut all: Vec<PendingDelivery> = Vec::new();
    core::mem::swap(&mut all, retry_queue);
    let mut due: Vec<PendingDelivery> = Vec::new();
    let mut still_pending: Vec<PendingDelivery> = Vec::new();
    let mut i: usize = 0;
    assert(before.take(0) =~= Seq::empty());
    assert(pending_views(due@) =~= Seq::empty());
    assert(pending_views(still_pending@) =~= Seq::empty());
    while i < all.len()
        invariant
            i <= all.len(),
            before == pending_views(all@),
            pending_views(due@) == due_entries(before.take(i as int), now),
            pending_views(still_pending@) == waiting_entries(before.take(i as int), now),
        decreases all.len() - i,
    {
        proof {
            assert(before.take(i + 1).drop_last() == before.take(i as int));
            assert(before.take(i + 1).last() == all@[i as int]@);
        }
        let pending = PendingDelivery {
            webhook: all[i].webhook.duplicate(),
            payload: all[i].payload.duplicate(),
            due_at: all[i].due_at,
        };
        if pending.due_at > now {
            let ghost prior = pending_views(still_pending@);
            still_pending.push(pending);
            assert(pending_views(still_pending@) =~= prior.push(all@[i as int]@));
        } else {
            let ghost prior = pending_views(due@);
            due.push(pending);
            assert(pending_views(due@) =~= prior.push(all@[i as int]@));
        }
        i += 1;
    }
    assert(before.take(all.len() as int) == before);
    *retry_queue = still_pending;
    due
}

/// The dispatcher: its place in the log of all projects, and the deliveries that
/// wait for their retry. Nothing else touches either.
pub struct Dispatcher {
    cursor: Option<(String, String)>,
    retry_queue: Vec<PendingDelivery>,
}

impl Dispatcher {
    /// The position of the last event that the dispatcher read.
    pub closed spec fn position(&self) -> Option<Position> {
        cursor_view(self.cursor)
    }

    /// The deliveries that wait for their retry, oldest first.
    pub closed spec fn queue(&self) -> Seq<PendingDeliveryView> {
        pending_views(self.retry_queue@)
    }

    /// Starts the dispatcher from what the query for the latest cursor gave. Where
    /// the query failed there is no dispatcher yet: one that does not know where the
    /// log ends would deliver what the log held before it started. The query is
    /// made again at the next round.
    pub fn start_from(latest: AppResult<Option<(String, String)>>) -> (started: AppResult<
        Dispatcher,
    >)
        ensures
            match latest {
                Ok(cursor) => started matches Ok(dispatcher) && dispatcher.position()
                    == cursor_view(cursor) && dispatcher.queue() == Seq::<
                    PendingDeliveryView,
                >::empty(),
                Err(failure) => started matches Err(error) && error@ == failure@,
            },
    {
        match latest {
            Ok(cursor) => Ok(Dispatcher::start(cursor)),
            Err(failure) => Err(failure),
        }
    }

    /// A dispatcher that begins at `latest`, the latest cursor of the log when it
    /// starts, with nothing to retry.
    pub fn start(latest: Option<(String, String)>) -> (dispatcher: Dispatcher)
        ensures
            dispatcher.position() == cursor_view(latest),
            dispatcher.queue() == Seq::<PendingDeliveryView>::empty(),
    {
        let dispatcher = Dispatcher { cursor: latest, retry_queue: Vec::new() };
        assert(dispatcher.queue() =~= Seq::<PendingDeliveryView>::empty());
        dispatcher
    }

    /// The time of the cursor of the next query.
    pub fn after_created_at(&self) -> (created_at: Option<&str>)
        ensures
            match created_at {
                Some(text) => self.position() matches Some(at) && at.0 == text@,
                None => self.position() is None,
            },
    {
        match &self.cursor {
            Some(pair) => Some(pair.0.as_str()),
            None => None,
        }
    }

    /// The id of the cursor of the next query.
    pub fn after_id(&self) -> (id: Option<&str>)
        ensures
            match id {
                Some(text) => self.position() matches Some(at) && at.1 == text@,
                None => self.position() is None,
            },
    {
        match &self.cursor {
            Some(pair) => Some(pair.1.as_str()),
            None => None,
        }
    }

    /// The retries that wait.
    pub fn pending(&self) -> (count: usize)
        ensures
            count == self.queue().len(),
    {
        self.retry_queue.len()
    }

    /// The start of a round, before the log is read: hands out the retries that are
    /// due at `now`.
    pub fn begin_round(&mut self, now: u64) -> (due: Vec<PendingDelivery>)
        ensures
            pending_views(due@) == due_entries(old(self).queue(), now),
            final(self).queue() == waiting_entries(old(self).queue(), now),
            final(self).position() == old(self).position(),
    {
        process_retry_queue(&mut self.retry_queue, now)
    }

    /// Takes what the query of a round gave: the events are those that the round
    /// dispatches, in their order, and the cursor moves to the last of them. Where
    /// the query failed the round is skipped: there is nothing to dispatch, and the
    /// cursor stays where it was, so that the next round asks again.
    pub fn take_events(&mut self, found: AppResult<Vec<SystemEventRecord>>) -> (events: Vec<
        SystemEventRecord,
    >)
        ensures
            final(self).queue() == old(self).queue(),
            match found {
                Ok(read) => events == read && final(self).position() == advanced(
                    old(self).position(),
                    event_views(read@),
                ),
                Err(_) => events@.len() == 0 && final(self).position() == old(self).position(),
            },
    {
        match found {
            Ok(read) => {
                if read.len() > 0 {
                    let last = &read[read.len() - 1];
                    assert(event_views(read@).last() == last@);
                    self.cursor = Some((last.created_at.clone(), last.id.clone()));
                }
                read
            },
            Err(_) => Vec::new(),
        }
    }

    /// Takes note that `event` was read from the log: the cursor moves to it.
    pub fn advance(&mut self, event: &SystemEventRecord)
        ensures
            final(self).position() == Some(position_of(event@)),
            final(self).queue() == old(self).queue(),
    {
        self.cursor = Some((event.created_at.clone(), event.id.clone()));
    }

    /// Takes note of how a first delivery ended at `now`; `outcome` is the status of
    /// the answer, or nothing where none came. One that got through is done: it is
    /// not repeated and nothing is queued. One that failed is put in line for its
    /// one retry, unless the queue is full. Says whether a retry was queued.
    pub fn delivery_finished(
        &mut self,
        webhook: WebhookRecord,
        payload: WebhookPayload,
        outcome: Option<u16>,
        now: u64,
    ) -> (queued: bool)
        ensures
            queued == (!delivered(outcome) && old(self).queue().len() < MAX_RETRY_QUEUE),
            final(self).queue() == if delivered(outcome) {
                old(self).queue()
            } else {
                spec_schedule_retry(old(self).queue(), webhook@, payload@, now)
            },
            final(self).position() == old(self).position(),
    {
        match outcome {
            Some(status) => {
                if 200 <= status && status <= 299 {
                    return false;
                }
            },
            None => {},
        }
        self.delivery_failed(webhook, payload, now)
    }

    /// Takes note that a first delivery failed at `now`: it is put in line for its
    /// one retry, unless the queue is full.
    pub fn delivery_failed(&mut self, webhook: WebhookRecord, payload: WebhookPayload, now: u64)
        -> (scheduled: bool)
        ensures
            scheduled == (old(self).queue().len() < MAX_RETRY_QUEUE),
            final(self).queue() == spec_schedule_retry(old(self).queue(), webhook@, payload@, now),
            final(self).position() == old(self).position(),
    {
        schedule_retry(&mut self.retry_queue, webhook, payload, now)
    }
}

} // verus!
