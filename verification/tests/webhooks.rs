use lattice::models::{SystemEventRecord, WebhookRecord};
use lattice::webhooks::delivery::{content_type, signature_header};
use lattice::webhooks::payload::{compact_json, generic_payload};
use lattice::error::AppError;
use lattice::webhooks::{
    delivery_request, delivery_succeeded, discord_color_for_event, discord_payload,
    dispatch_event, hmac_signature, payload_from_system_event, process_retry_queue,
    schedule_retry, slack_payload, subscribers, test_payload, webhook_body,
    webhook_subscribed_to_event, Dispatcher, PendingDelivery,
};

fn webhook(id: &str, platform: &str, events: &str, secret: Option<&str>) -> WebhookRecord {
    WebhookRecord {
        id: id.to_string(),
        project_id: "proj-a".to_string(),
        name: "capture".to_string(),
        url: format!("http://127.0.0.1:9/{id}"),
        platform: platform.to_string(),
        events: events.to_string(),
        secret: secret.map(|value| value.to_string()),
        active: 1,
        created_at: "2024-01-01T00:00:00Z".to_string(),
        updated_at: "2024-01-01T00:00:00Z".to_string(),
    }
}

fn task_created() -> SystemEventRecord {
    SystemEventRecord {
        id: "e1".to_string(),
        project_slug: "HOOKS".to_string(),
        task_id: Some("t1".to_string()),
        task_number: Some(7),
        actor: "human".to_string(),
        action: "task.created".to_string(),
        detail: "{\"title\": \"a \\\"b\\\"\", \"n\": 1}".to_string(),
        created_at: "2024-05-06T07:08:09Z".to_string(),
    }
}

#[test]
fn hmac_signature_matches_a_known_vector() {
    assert_eq!(
        hmac_signature("Jefe", b"what do ya want for nothing?"),
        "sha256=5bdcc146bf60754e6a042426089575c75a003f089d2739839dec58b964ec3843"
    );
}

#[test]
fn generic_webhook_delivery_is_signed_over_the_exact_body() {
    let hook = webhook("w1", "generic", "[\"task.created\"]", Some("s3cret"));
    let payload = payload_from_system_event(task_created());
    assert!(webhook_subscribed_to_event(&hook, &payload.event));
    let request = delivery_request(&hook, &payload);
    assert_eq!(request.url, "http://127.0.0.1:9/w1");
    assert_eq!(
        request.body,
        "{\"actor\":\"human\",\"created_at\":\"2024-05-06T07:08:09Z\",\
         \"detail\":{\"n\":1,\"title\":\"a \\\"b\\\"\"},\"event\":\"task.created\",\
         \"project\":\"HOOKS\",\"task_display_key\":\"HOOKS-7\",\"task_id\":\"t1\",\
         \"task_number\":7}"
    );
    let signature = request.signature.expect("a generic webhook with a secret signs");
    assert_eq!(signature, hmac_signature("s3cret", request.body.as_bytes()));
    assert!(signature.starts_with("sha256="));
    assert_eq!(signature.len(), 7 + 64);
    assert_ne!(signature, hmac_signature("other", request.body.as_bytes()));
    assert_eq!(signature_header(), "X-Lattice-Signature");
    assert_eq!(content_type(), "application/json");
}

#[test]
fn only_generic_webhooks_with_a_secret_are_signed() {
    let payload = payload_from_system_event(task_created());
    let unsigned = [
        webhook("a", "generic", "[]", None),
        webhook("b", "generic", "[]", Some("   ")),
        webhook("c", "slack", "[]", Some("s3cret")),
        webhook("d", "discord", "[]", Some("s3cret")),
    ];
    for hook in &unsigned {
        assert!(delivery_request(hook, &payload).signature.is_none());
    }
    let padded = webhook("e", "generic", "[]", Some(" s3cret "));
    let request = delivery_request(&padded, &payload);
    assert_eq!(
        request.signature,
        Some(hmac_signature(" s3cret ", request.body.as_bytes()))
    );
}

#[test]
fn subscription_decides_who_gets_an_event() {
    let hooks = vec![
        webhook("a", "generic", "[\"task.created\"]", None),
        webhook("b", "generic", "[\"task.moved\", \" task.created \"]", None),
        webhook("c", "generic", "[\"task.moved\"]", None),
        webhook("d", "generic", "not json", None),
        webhook("e", "generic", "[\"task.created\", \"bogus\"]", None),
        webhook("f", "generic", "[]", None),
        webhook("g", "generic", "[\"\", \"task.created\"]", None),
        webhook("h", "generic", "[1]", None),
    ];
    let chosen: Vec<String> = subscribers(hooks, "task.created")
        .into_iter()
        .map(|hook| hook.id)
        .collect();
    assert_eq!(chosen, vec!["a", "b", "g"]);
    let hook = webhook("a", "generic", "[\"task.created\"]", None);
    assert!(!webhook_subscribed_to_event(&hook, "task.moved"));
    assert!(!webhook_subscribed_to_event(&hook, "test"));
    assert!(!webhook_subscribed_to_event(&hook, ""));
}

#[test]
fn slack_message_summarizes_the_event() {
    let payload = payload_from_system_event(task_created());
    assert_eq!(
        slack_payload(&payload),
        "{\"blocks\":[{\"text\":{\"text\":\"*task.created* `HOOKS-7` in *HOOKS*\",\
         \"type\":\"mrkdwn\"},\"type\":\"section\"},{\"elements\":[{\"text\":\
         \"actor: human \u{2022} 2024-05-06T07:08:09Z\",\"type\":\"mrkdwn\"}],\
         \"type\":\"context\"},{\"text\":{\"text\":\
         \"{\\\"n\\\":1,\\\"title\\\":\\\"a \\\\\\\"b\\\\\\\"\\\"}\",\"type\":\"mrkdwn\"},\
         \"type\":\"section\"}],\"text\":\"[HOOKS] task.created HOOKS-7\"}"
    );
    let hook = webhook("s", "slack", "[]", None);
    assert_eq!(webhook_body(&hook, &payload), slack_payload(&payload));
}

#[test]
fn discord_message_is_one_embed() {
    let mut event = task_created();
    event.task_number = None;
    event.detail = "null".to_string();
    let payload = payload_from_system_event(event);
    assert_eq!(
        discord_payload(&payload),
        "{\"embeds\":[{\"color\":8011775,\"description\":\"{}\",\"footer\":{\"text\":\
         \"HOOKS \u{2022} human\"},\"timestamp\":\"2024-05-06T07:08:09Z\",\
         \"title\":\"task.created \u{2022} task\"}]}"
    );
    let hook = webhook("d", "discord", "[]", None);
    assert_eq!(webhook_body(&hook, &payload), discord_payload(&payload));
    let other = webhook("x", "teams", "[]", None);
    assert_eq!(webhook_body(&other, &payload), generic_payload(&payload));
    assert_eq!(
        generic_payload(&payload),
        "{\"actor\":\"human\",\"created_at\":\"2024-05-06T07:08:09Z\",\"detail\":null,\
         \"event\":\"task.created\",\"project\":\"HOOKS\",\"task_display_key\":null,\
         \"task_id\":\"t1\",\"task_number\":null}"
    );
}

#[test]
fn discord_colors_follow_the_table() {
    assert_eq!(discord_color_for_event("task.created"), 0x7A3FFF);
    assert_eq!(discord_color_for_event("task.moved"), 0x4F9DFF);
    assert_eq!(discord_color_for_event("task.deleted"), 0xC94C4C);
    assert_eq!(discord_color_for_event("task.review_state_changed"), 0xE0A341);
    assert_eq!(discord_color_for_event("question.created"), 0xF0C54A);
    assert_eq!(discord_color_for_event("question.resolved"), 0x4BB47B);
    assert_eq!(discord_color_for_event("spec.updated"), 0x9A65C7);
    assert_eq!(discord_color_for_event("goal.updated"), 0x74BBD6);
    assert_eq!(discord_color_for_event("task.updated"), 0x8A8A8A);
    assert_eq!(discord_color_for_event("test"), 0x8A8A8A);
    assert_eq!(discord_color_for_event(""), 0x8A8A8A);
}

#[test]
fn detail_is_shown_compact() {
    assert_eq!(compact_json("null"), "{}");
    assert_eq!(compact_json("{\"a\":1}"), "{\"a\":1}");
    assert_eq!(compact_json("\"null\""), "\"null\"");
    let mut event = task_created();
    event.detail = "plain words".to_string();
    assert_eq!(payload_from_system_event(event).detail, "\"plain words\"");
    let mut event = task_created();
    event.detail = " [ 1 , 2 ] ".to_string();
    assert_eq!(payload_from_system_event(event).detail, "[1,2]");
}

#[test]
fn test_delivery_uses_a_made_up_event() {
    let payload = test_payload("HOOKS", "2024-05-06T07:08:09Z");
    assert_eq!(payload.event, "test");
    assert_eq!(payload.actor, "system");
    assert_eq!(payload.project, "HOOKS");
    assert!(payload.task_id.is_none());
    assert!(payload.task_number.is_none());
    let hook = webhook("w", "generic", "[\"task.created\"]", Some("top-secret"));
    let request = delivery_request(&hook, &payload);
    assert_eq!(
        request.body,
        "{\"actor\":\"system\",\"created_at\":\"2024-05-06T07:08:09Z\",\
         \"detail\":{\"message\":\"test webhook from lattice\"},\"event\":\"test\",\
         \"project\":\"HOOKS\",\"task_display_key\":null,\"task_id\":null,\
         \"task_number\":null}"
    );
    assert_eq!(
        request.signature,
        Some(hmac_signature("top-secret", request.body.as_bytes()))
    );
}

#[test]
fn only_2xx_is_success() {
    assert!(delivery_succeeded(200));
    assert!(delivery_succeeded(204));
    assert!(delivery_succeeded(299));
    assert!(!delivery_succeeded(199));
    assert!(!delivery_succeeded(300));
    assert!(!delivery_succeeded(500));
    assert!(!delivery_succeeded(0));
}

#[test]
fn failed_delivery_is_retried_once_after_thirty_seconds() {
    let second: u64 = 1_000_000_000;
    let mut dispatcher = Dispatcher::start(None);
    let hook = webhook("w", "generic", "[\"task.created\"]", None);
    let payload = payload_from_system_event(task_created());
    let mut calls = 0;

    let request = delivery_request(&hook, &payload);
    calls += 1;
    assert!(!delivery_succeeded(500));
    assert!(dispatcher.delivery_failed(hook, payload, 100 * second));
    assert_eq!(dispatcher.pending(), 1);

    assert!(dispatcher.begin_round(101 * second).is_empty());
    assert!(dispatcher.begin_round(130 * second - 1).is_empty());
    assert_eq!(dispatcher.pending(), 1);

    let due = dispatcher.begin_round(130 * second);
    assert_eq!(due.len(), 1);
    assert_eq!(due[0].due_at, 130 * second);
    let again = delivery_request(&due[0].webhook, &due[0].payload);
    assert_eq!(again.body, request.body);
    calls += 1;
    assert_eq!(dispatcher.pending(), 0);

    assert!(dispatcher.begin_round(135 * second).is_empty());
    assert!(dispatcher.begin_round(160 * second).is_empty());
    assert!(dispatcher.begin_round(u64::MAX).is_empty());
    assert_eq!(calls, 2);
}

#[test]
fn retry_queue_is_bounded_and_keeps_its_order() {
    let mut queue: Vec<PendingDelivery> = Vec::new();
    for n in 0..512u64 {
        assert!(schedule_retry(
            &mut queue,
            webhook(&format!("w{n}"), "generic", "[]", None),
            test_payload("P", "t"),
            n,
        ));
    }
    assert!(!schedule_retry(
        &mut queue,
        webhook("late", "generic", "[]", None),
        test_payload("P", "t"),
        0,
    ));
    assert_eq!(queue.len(), 512);
    let due = process_retry_queue(&mut queue, 30_000_000_000 + 9);
    let due_ids: Vec<String> = due.into_iter().map(|pending| pending.webhook.id).collect();
    assert_eq!(due_ids.len(), 10);
    assert_eq!(due_ids[0], "w0");
    assert_eq!(due_ids[9], "w9");
    assert_eq!(queue.len(), 502);
    assert_eq!(queue[0].webhook.id, "w10");
    assert_eq!(queue[501].webhook.id, "w511");
    assert!(schedule_retry(
        &mut queue,
        webhook("end", "generic", "[]", None),
        test_payload("P", "t"),
        u64::MAX - 5,
    ));
    assert_eq!(queue[502].due_at, u64::MAX);
}

#[test]
fn dispatcher_cursor_follows_the_events_it_reads() {
    let mut dispatcher = Dispatcher::start(Some(("t0".to_string(), "i0".to_string())));
    assert_eq!(dispatcher.after_created_at(), Some("t0"));
    assert_eq!(dispatcher.after_id(), Some("i0"));
    dispatcher.advance(&task_created());
    assert_eq!(dispatcher.after_created_at(), Some("2024-05-06T07:08:09Z"));
    assert_eq!(dispatcher.after_id(), Some("e1"));
    let idle = Dispatcher::start(None);
    assert_eq!(idle.after_created_at(), None);
    assert_eq!(idle.after_id(), None);
}

#[test]
fn strings_are_escaped_as_json_asks() {
    let mut event = task_created();
    event.task_id = None;
    event.task_number = None;
    event.detail = "1".to_string();
    event.actor = "a\u{1}\n\u{7f}\u{e9}\t\"\\\u{8}\u{c}\r\u{1f} /".to_string();
    let payload = payload_from_system_event(event);
    assert_eq!(
        generic_payload(&payload),
        "{\"actor\":\"a\\u0001\\n\u{7f}\u{e9}\\t\\\"\\\\\\b\\f\\r\\u001f /\",\
         \"created_at\":\"2024-05-06T07:08:09Z\",\"detail\":1,\"event\":\"task.created\",\
         \"project\":\"HOOKS\",\"task_display_key\":null,\"task_id\":null,\
         \"task_number\":null}"
    );
}

#[test]
fn delivered_event_is_sent_once_and_not_queued() {
    let hook = webhook("w1", "generic", "[\"task.created\"]", Some("s3cret"));
    let other = webhook("w2", "generic", "[\"task.moved\"]", Some("s3cret"));
    let mut dispatcher = Dispatcher::start(None);
    let (payload, deliveries) = dispatch_event(task_created(), vec![other, hook]);
    assert_eq!(payload.event, "task.created");
    assert_eq!(deliveries.len(), 1);
    let planned = deliveries.into_iter().next().expect("one delivery");
    assert_eq!(planned.webhook.id, "w1");
    assert_eq!(planned.request.url, "http://127.0.0.1:9/w1");
    assert_eq!(
        planned.request.signature,
        Some(hmac_signature("s3cret", planned.request.body.as_bytes()))
    );
    assert!(planned.request.body.contains("\"event\":\"task.created\""));
    let queued = dispatcher.delivery_finished(planned.webhook, payload, Some(200), 5);
    assert!(!queued);
    assert_eq!(dispatcher.pending(), 0);
    assert!(dispatcher.begin_round(u64::MAX).is_empty());
}

#[test]
fn failed_or_unanswered_delivery_is_queued() {
    let mut dispatcher = Dispatcher::start(None);
    for (n, outcome) in [Some(500), None, Some(199), Some(300)].into_iter().enumerate() {
        let hook = webhook("w", "generic", "[\"task.created\"]", None);
        let payload = payload_from_system_event(task_created());
        assert!(dispatcher.delivery_finished(hook, payload, outcome, 1));
        assert_eq!(dispatcher.pending(), n + 1);
    }
    let hook = webhook("w", "generic", "[\"task.created\"]", None);
    let payload = payload_from_system_event(task_created());
    assert!(!dispatcher.delivery_finished(hook, payload, Some(204), 1));
    assert_eq!(dispatcher.pending(), 4);
}

#[test]
fn event_without_subscribers_plans_nothing() {
    let hooks = vec![
        webhook("a", "slack", "[\"task.moved\"]", None),
        webhook("b", "discord", "broken", None),
    ];
    let (_, deliveries) = dispatch_event(task_created(), hooks);
    assert!(deliveries.is_empty());
    let hooks = vec![
        webhook("a", "slack", "[\"task.created\"]", None),
        webhook("b", "discord", "[\"task.created\"]", None),
    ];
    let (payload, deliveries) = dispatch_event(task_created(), hooks);
    assert_eq!(deliveries.len(), 2);
    assert_eq!(deliveries[0].webhook.id, "a");
    assert_eq!(deliveries[0].request.body, slack_payload(&payload));
    assert!(deliveries[0].request.signature.is_none());
    assert_eq!(deliveries[1].webhook.id, "b");
    assert_eq!(deliveries[1].request.body, discord_payload(&payload));
}

#[test]
fn dispatcher_does_not_start_without_a_cursor_query() {
    assert!(matches!(
        Dispatcher::start_from(Err(AppError::Internal)),
        Err(AppError::Internal)
    ));
    let started = Dispatcher::start_from(Ok(Some(("t".to_string(), "i".to_string()))))
        .ok()
        .expect("the query succeeded");
    assert_eq!(started.after_created_at(), Some("t"));
    assert_eq!(started.after_id(), Some("i"));
    let started = Dispatcher::start_from(Ok(None)).ok().expect("the log is empty");
    assert_eq!(started.after_id(), None);
}

#[test]
fn signature_is_sha256_and_sixty_four_hex_digits() {
    for (secret, body) in [("", ""), ("k", "body"), ("\u{e9}", "{\"a\":1}")] {
        let signature = hmac_signature(secret, body.as_bytes());
        assert_eq!(signature.len(), 71);
        assert!(signature.starts_with("sha256="));
        assert!(signature[7..]
            .chars()
            .all(|c| c.is_ascii_digit() || ('a'..='f').contains(&c)));
    }
}

#[test]
fn switched_off_subscription_gets_nothing() {
    let mut off = webhook("off", "generic", "[\"task.created\"]", None);
    off.active = 0;
    let on = webhook("on", "generic", "[\"task.created\"]", None);
    assert!(webhook_subscribed_to_event(&off, "task.created"));
    let chosen: Vec<String> = subscribers(vec![off.clone(), on.clone()], "task.created")
        .into_iter()
        .map(|hook| hook.id)
        .collect();
    assert_eq!(chosen, vec!["on"]);
    let (_, deliveries) = dispatch_event(task_created(), vec![off]);
    assert!(deliveries.is_empty());
}

#[test]
fn failed_round_query_is_skipped() {
    let mut dispatcher = Dispatcher::start(Some(("t0".to_string(), "i0".to_string())));
    assert!(dispatcher.take_events(Err(AppError::Internal)).is_empty());
    assert_eq!(dispatcher.after_created_at(), Some("t0"));
    assert_eq!(dispatcher.after_id(), Some("i0"));
    assert!(dispatcher.take_events(Ok(Vec::new())).is_empty());
    assert_eq!(dispatcher.after_id(), Some("i0"));
    let mut second = task_created();
    second.id = "e2".to_string();
    second.created_at = "2024-05-06T07:08:10Z".to_string();
    let events = dispatcher.take_events(Ok(vec![task_created(), second]));
    let ids: Vec<String> = events.into_iter().map(|event| event.id).collect();
    assert_eq!(ids, vec!["e1", "e2"]);
    assert_eq!(dispatcher.after_created_at(), Some("2024-05-06T07:08:10Z"));
    assert_eq!(dispatcher.after_id(), Some("e2"));
}
