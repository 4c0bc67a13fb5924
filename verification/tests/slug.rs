use lattice::error::AppError;
use lattice::slug::{
    display_key, is_canonical_uuid, normalize_slug, parse_display_key, parse_task_ref, TaskRef,
};

#[test]
fn parse_task_ref_accepts_uuid_and_display_key() {
    let uuid = "123e4567-e89b-12d3-a456-426614174000";
    let parsed_uuid = parse_task_ref(uuid).expect("uuid should parse");
    match parsed_uuid {
        TaskRef::Uuid(value) => assert_eq!(value, uuid),
        _ => panic!("expected uuid task ref"),
    }

    let parsed_display = parse_task_ref("LATTICE-42").expect("display key should parse");
    match parsed_display {
        TaskRef::DisplayKey { slug, task_number } => {
            assert_eq!(slug, "LATTICE");
            assert_eq!(task_number, 42);
        }
        _ => panic!("expected display-key task ref"),
    }
}

#[test]
fn parse_task_ref_rejects_invalid_display_key() {
    let result = parse_task_ref("lattice-01");
    assert!(result.is_err());
}

#[test]
fn normalize_slug_rejects_lowercase_and_symbols() {
    let normalized = normalize_slug(" lattice-v1 ").expect("slug normalization should succeed");
    assert_eq!(normalized, "LATTICE-V1");

    assert!(normalize_slug("bad_slug").is_err());
    assert!(normalize_slug("-BAD").is_err());
}

#[test]
fn normalize_slug_names_each_fault() {
    match normalize_slug("   ") {
        Err(AppError::BadRequest(message)) => assert_eq!(message, "project slug cannot be empty"),
        _ => panic!("a blank slug is a bad request"),
    }
    for bad in ["-A", "A-", "A--B"] {
        match normalize_slug(bad) {
            Err(AppError::BadRequest(message)) => assert_eq!(
                message,
                "project slug must not start/end with '-' or contain consecutive '-'"
            ),
            _ => panic!("a misplaced hyphen is a bad request"),
        }
    }
    match normalize_slug("A.B") {
        Err(AppError::BadRequest(message)) => assert_eq!(
            message,
            "project slug may only include uppercase letters, digits, and '-'"
        ),
        _ => panic!("a symbol is a bad request"),
    }
    assert_eq!(normalize_slug("a1-b2").expect("a slug"), "A1-B2");
}

#[test]
fn canonical_uuid_is_hyphenated_in_either_case() {
    assert!(is_canonical_uuid("123e4567-e89b-12d3-a456-426614174000"));
    assert!(is_canonical_uuid("123E4567-E89B-12D3-A456-426614174000"));
    assert!(!is_canonical_uuid("123e4567e89b12d3a456426614174000"));
    assert!(!is_canonical_uuid("{123e4567-e89b-12d3-a456-426614174000}"));
    assert!(!is_canonical_uuid("urn:uuid:123e4567-e89b-12d3-a456-426614174000"));
    assert!(!is_canonical_uuid("not-a-uuid"));
    assert!(!is_canonical_uuid(""));
}

#[test]
fn parse_task_ref_reports_what_it_was_given() {
    match parse_task_ref("nope") {
        Err(AppError::BadRequest(message)) => assert_eq!(
            message,
            "invalid task reference 'nope', expected UUID or DISPLAY_KEY"
        ),
        _ => panic!("a bad reference is a bad request"),
    }
}

#[test]
fn display_key_joins_slug_and_number() {
    assert_eq!(display_key("LATTICE", 42), "LATTICE-42");
    assert_eq!(display_key("A", 0), "A-0");
    assert_eq!(display_key("A", -7), "A--7");
    assert_eq!(display_key("Z9", i64::MAX), "Z9-9223372036854775807");
    assert_eq!(display_key("Z9", i64::MIN), "Z9--9223372036854775808");
}

#[test]
fn parse_display_key_reads_positive_numbers_only() {
    assert_eq!(parse_display_key("AB1-7"), Some(("AB1".to_string(), 7)));
    assert_eq!(parse_display_key("AB-+7"), Some(("AB".to_string(), 7)));
    assert_eq!(
        parse_display_key("AB-9223372036854775807"),
        Some(("AB".to_string(), i64::MAX))
    );
    assert_eq!(parse_display_key("AB-9223372036854775808"), None);
    assert_eq!(parse_display_key("AB-0"), None);
    assert_eq!(parse_display_key("AB-07"), None);
    assert_eq!(parse_display_key("AB--7"), None);
    assert_eq!(parse_display_key("AB-"), None);
    assert_eq!(parse_display_key("AB-+"), None);
    assert_eq!(parse_display_key("AB-7x"), None);
    assert_eq!(parse_display_key("-7"), None);
    assert_eq!(parse_display_key("ab-7"), None);
    assert_eq!(parse_display_key("AB7"), None);
    assert_eq!(parse_display_key("A-B-7"), None);
}

#[test]
fn display_key_reads_back_as_slug_and_number() {
    for (slug, number) in [("A", 1), ("LATTICE", 42), ("Z9", i64::MAX), ("007", 10)] {
        assert_eq!(
            parse_display_key(&display_key(slug, number)),
            Some((slug.to_string(), number))
        );
    }
    assert_eq!(parse_display_key(&display_key("A-B", 1)), None);
    assert_eq!(parse_display_key(&display_key("A", 0)), None);
}

#[test]
fn uuid_reference_is_thirty_six_characters() {
    assert!(!is_canonical_uuid("123e4567-e89b-12d3-a456-42661417400"));
    assert!(!is_canonical_uuid("123e4567-e89b-12d3-a456-4266141740000"));
    match parse_task_ref("123E4567-e89b-12d3-a456-426614174000") {
        Ok(TaskRef::Uuid(id)) => {
            assert_eq!(id, "123E4567-e89b-12d3-a456-426614174000");
            assert_eq!(id.len(), 36);
        }
        _ => panic!("a hyphenated UUID is a task id"),
    }
}
