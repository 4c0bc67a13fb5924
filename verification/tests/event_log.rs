use lattice::error::AppError;
use lattice::event_log::log::ensure_event_recorded;
use lattice::event_log::{validate_event_query, EventLog};
use lattice::live::{normalize_project_filters, LiveSubscription};
use lattice::models::SystemEventRecord;

fn event(id: &str, project: &str, action: &str, created_at: &str) -> SystemEventRecord {
    SystemEventRecord {
        id: id.to_string(),
        project_slug: project.to_string(),
        task_id: None,
        task_number: None,
        actor: "human".to_string(),
        action: action.to_string(),
        detail: "{}".to_string(),
        created_at: created_at.to_string(),
    }
}

fn ids(events: &[SystemEventRecord]) -> Vec<String> {
    events.iter().map(|event| event.id.clone()).collect()
}

#[test]
fn events_with_equal_timestamps_come_back_by_id() {
    let mut log = EventLog::new();
    for id in ["c", "a", "d", "b"] {
        log.append(event(id, "P", "task.created", "2024-01-01T00:00:00Z"))
            .expect("a new id");
    }
    log.append(event("z", "P", "task.created", "2023-12-31T23:59:59Z"))
        .expect("a new id");
    let found = log
        .list_system_events(&Vec::new(), None, None, 200)
        .expect("a valid query");
    assert_eq!(ids(&found), vec!["z", "a", "b", "c", "d"]);
    assert_eq!(log.len(), 5);
}

#[test]
fn query_returns_only_what_lies_beyond_the_cursor() {
    let mut log = EventLog::new();
    log.append(event("a", "P", "x", "2024-01-01T00:00:00Z")).expect("new");
    log.append(event("b", "P", "x", "2024-01-01T00:00:00Z")).expect("new");
    log.append(event("a2", "P", "x", "2024-01-01T00:00:01Z")).expect("new");
    let found = log
        .list_system_events(&Vec::new(), Some("2024-01-01T00:00:00Z"), Some("a"), 10)
        .expect("a valid query");
    assert_eq!(ids(&found), vec!["b", "a2"]);
    let found = log
        .list_system_events(&Vec::new(), Some("2024-01-01T00:00:00Z"), Some("b"), 10)
        .expect("a valid query");
    assert_eq!(ids(&found), vec!["a2"]);
    let again = log
        .list_system_events(&Vec::new(), Some("2024-01-01T00:00:01Z"), Some("a2"), 10)
        .expect("a valid query");
    assert!(again.is_empty());
    let again = log
        .list_system_events(&Vec::new(), Some("2024-01-01T00:00:01Z"), Some("a2"), 10)
        .expect("a valid query");
    assert!(again.is_empty());
}

#[test]
fn query_respects_limit_and_filter() {
    let mut log = EventLog::new();
    log.append(event("1", "A", "x", "t1")).expect("new");
    log.append(event("2", "B", "x", "t2")).expect("new");
    log.append(event("3", "A", "x", "t3")).expect("new");
    log.append(event("4", "C", "x", "t4")).expect("new");
    log.append(event("5", "A", "x", "t5")).expect("new");
    let only_a = vec!["A".to_string()];
    let found = log.list_system_events(&only_a, None, None, 2).expect("valid");
    assert_eq!(ids(&found), vec!["1", "3"]);
    let found = log
        .list_system_events(&only_a, Some("t3"), Some("3"), 2)
        .expect("valid");
    assert_eq!(ids(&found), vec!["5"]);
    let a_and_c = vec!["C".to_string(), "A".to_string()];
    let found = log.list_system_events(&a_and_c, None, None, 200).expect("valid");
    assert_eq!(ids(&found), vec!["1", "3", "4", "5"]);
    let nobody = vec!["Z".to_string()];
    let found = log.list_system_events(&nobody, None, None, 200).expect("valid");
    assert!(found.is_empty());
}

#[test]
fn query_is_refused_for_a_bad_limit_or_half_a_cursor() {
    let log = EventLog::new();
    for limit in [0, -1, 201, i64::MIN, i64::MAX] {
        match log.list_system_events(&Vec::new(), None, None, limit) {
            Err(AppError::BadRequest(message)) => {
                assert_eq!(message, "limit must be between 1 and 200")
            }
            _ => panic!("the limit is out of range"),
        }
    }
    assert!(validate_event_query(None, None, 1).is_ok());
    assert!(validate_event_query(Some("t"), Some("i"), 200).is_ok());
    match validate_event_query(Some("t"), None, 10) {
        Err(AppError::BadRequest(message)) => assert_eq!(
            message,
            "after_created_at and after_id must be provided together"
        ),
        _ => panic!("half a cursor is refused"),
    }
    assert!(validate_event_query(None, Some("i"), 10).is_err());
    match validate_event_query(Some("t"), None, 0) {
        Err(AppError::BadRequest(message)) => {
            assert_eq!(message, "limit must be between 1 and 200")
        }
        _ => panic!("the limit is looked at first"),
    }
}

#[test]
fn latest_cursor_of_an_empty_log_is_none() {
    let mut log = EventLog::new();
    assert_eq!(log.latest_system_event_cursor(&Vec::new()), None);
    log.append(event("1", "A", "x", "t1")).expect("new");
    log.append(event("2", "B", "x", "t2")).expect("new");
    assert_eq!(
        log.latest_system_event_cursor(&Vec::new()),
        Some(("t2".to_string(), "2".to_string()))
    );
    assert_eq!(
        log.latest_system_event_cursor(&vec!["A".to_string()]),
        Some(("t1".to_string(), "1".to_string()))
    );
    assert_eq!(log.latest_system_event_cursor(&vec!["C".to_string()]), None);
}

#[test]
fn duplicate_event_id_is_a_conflict() {
    let mut log = EventLog::new();
    log.append(event("1", "A", "x", "t1")).expect("new");
    match log.append(event("1", "B", "y", "t9")) {
        Err(AppError::Conflict(message)) => assert_eq!(message, "event '1' already exists"),
        _ => panic!("the id is taken"),
    }
    assert_eq!(log.len(), 1);
}

#[test]
fn event_for_a_vanished_task_is_not_found() {
    assert!(ensure_event_recorded("t-1", 1).is_ok());
    match ensure_event_recorded("t-1", 0) {
        Err(AppError::NotFound(message)) => assert_eq!(message, "task 't-1' not found"),
        _ => panic!("no row was written"),
    }
}

#[test]
fn subscriber_gets_later_events_and_no_backlog() {
    let mut log = EventLog::new();
    log.append(event("old", "EVENTS", "task.created", "2024-01-01T00:00:00Z"))
        .expect("new");
    let filter = vec!["EVENTS".to_string()];
    let latest = log.latest_system_event_cursor(&filter);
    let mut subscription = LiveSubscription::subscribe(filter, latest);
    assert!(subscription.poll(&log).is_empty());

    let mut created = event("new", "EVENTS", "task.created", "2024-01-01T00:00:05Z");
    created.task_id = Some("tid".to_string());
    created.task_number = Some(3);
    created.detail = "{ \"title\" : \"Trigger SSE\" }".to_string();
    log.append(created).expect("new");
    log.append(event("other", "ELSEWHERE", "task.created", "2024-01-01T00:00:06Z"))
        .expect("new");

    let frames = subscription.poll(&log);
    assert_eq!(frames.len(), 1);
    assert_eq!(frames[0].id, "new");
    assert_eq!(frames[0].event, "task.created");
    assert_eq!(
        frames[0].data,
        "{\"id\":\"new\",\"project\":\"EVENTS\",\"task_id\":\"tid\",\"task_number\":3,\
         \"task_display_key\":\"EVENTS-3\",\"action\":\"task.created\",\"actor\":\"human\",\
         \"detail\":{\"title\":\"Trigger SSE\"},\"created_at\":\"2024-01-01T00:00:05Z\"}"
    );
    assert!(frames[0].data.contains("\"project\":\"EVENTS\""));
    assert_eq!(subscription.after_created_at(), Some("2024-01-01T00:00:05Z"));
    assert_eq!(subscription.after_id(), Some("new"));
    assert!(subscription.poll(&log).is_empty());
}

#[test]
fn subscription_takes_at_most_a_batch_per_poll() {
    let mut log = EventLog::new();
    let mut subscription = LiveSubscription::subscribe(Vec::new(), None);
    for n in 0..150 {
        log.append(event(&format!("e{n:03}"), "P", "x", "t")).expect("new");
    }
    let first = subscription.poll(&log);
    assert_eq!(first.len(), 100);
    assert_eq!(first[0].id, "e000");
    assert_eq!(first[99].id, "e099");
    let second = subscription.poll(&log);
    assert_eq!(second.len(), 50);
    assert_eq!(second[0].id, "e100");
    assert!(subscription.poll(&log).is_empty());
}

#[test]
fn frame_carries_unreadable_detail_as_a_string() {
    let mut bad = event("1", "P", "spec.updated", "t");
    bad.detail = "not \"json\"".to_string();
    let mut subscription = LiveSubscription::subscribe(Vec::new(), None);
    let frames = subscription.deliver(vec![bad]);
    assert_eq!(
        frames[0].data,
        "{\"id\":\"1\",\"project\":\"P\",\"task_id\":null,\"task_number\":null,\
         \"task_display_key\":null,\"action\":\"spec.updated\",\"actor\":\"human\",\
         \"detail\":\"not \\\"json\\\"\",\"created_at\":\"t\"}"
    );
}

#[test]
fn project_filters_are_normalized_sorted_and_unique() {
    let given = vec![" beta ".to_string(), "ALPHA".to_string(), "Beta".to_string()];
    assert_eq!(
        normalize_project_filters(given).expect("slugs"),
        vec!["ALPHA".to_string(), "BETA".to_string()]
    );
    assert_eq!(
        normalize_project_filters(Vec::new()).expect("no filter"),
        Vec::<String>::new()
    );
    let given = vec!["ok".to_string(), "".to_string(), "bad_one".to_string()];
    match normalize_project_filters(given) {
        Err(AppError::BadRequest(message)) => assert_eq!(message, "project slug cannot be empty"),
        _ => panic!("the first bad name is the error"),
    }
}

#[test]
fn reader_ends_when_a_query_fails() {
    let opened = LiveSubscription::subscribe_from(vec!["P".to_string()], Err(AppError::Internal));
    assert!(matches!(opened, Err(AppError::Internal)));

    let latest = Ok(Some(("t1".to_string(), "a".to_string())));
    let mut subscription = LiveSubscription::subscribe_from(vec!["P".to_string()], latest)
        .ok()
        .expect("the query succeeded");
    assert_eq!(subscription.after_created_at(), Some("t1"));
    assert_eq!(subscription.after_id(), Some("a"));

    let frames = subscription
        .receive(Ok(vec![event("b", "P", "task.moved", "t2")]))
        .ok()
        .expect("events were read");
    assert_eq!(frames.len(), 1);
    assert_eq!(frames[0].event, "task.moved");
    assert_eq!(subscription.after_id(), Some("b"));

    let failed = subscription.receive(Err(AppError::NotFound("gone".to_string())));
    match failed {
        Err(AppError::NotFound(message)) => assert_eq!(message, "gone"),
        _ => panic!("the reader ends with the error of the query"),
    }
    assert_eq!(subscription.after_created_at(), Some("t2"));
    assert_eq!(subscription.after_id(), Some("b"));
}
