use lattice::error::AppError;
use lattice::mcp::{
    map_error, normalize_limit_offset, normalize_recent_limit, InitialSpecInput, ToolErrorKind,
};

#[test]
fn tool_errors_are_classed_by_kind() {
    let mapped = map_error(AppError::BadRequest("bad".to_string()));
    assert_eq!((mapped.kind, mapped.message.as_str()), (ToolErrorKind::InvalidParams, "bad"));
    let mapped = map_error(AppError::NotFound("gone".to_string()));
    assert_eq!(
        (mapped.kind, mapped.message.as_str()),
        (ToolErrorKind::ResourceNotFound, "gone")
    );
    let mapped = map_error(AppError::Conflict("twice".to_string()));
    assert_eq!(
        (mapped.kind, mapped.message.as_str()),
        (ToolErrorKind::InvalidRequest, "twice")
    );
    let mapped = map_error(AppError::Unauthorized);
    assert_eq!(
        (mapped.kind, mapped.message.as_str()),
        (ToolErrorKind::InvalidRequest, "unauthorized")
    );
    let mapped = map_error(AppError::Internal);
    assert_eq!(
        (mapped.kind, mapped.message.as_str()),
        (ToolErrorKind::InternalError, "unexpected error")
    );
}

#[test]
fn tool_pages_have_defaults_and_bounds() {
    assert_eq!(normalize_limit_offset(None, None).ok(), Some((50, 0)));
    assert_eq!(normalize_limit_offset(Some(100), Some(3)).ok(), Some((100, 3)));
    for limit in [0, -5, 101] {
        let error = normalize_limit_offset(Some(limit), Some(-1)).err().expect("out of bounds");
        assert_eq!(error.kind, ToolErrorKind::InvalidParams);
        assert_eq!(error.message, "limit must be between 1 and 100");
    }
    let error = normalize_limit_offset(Some(1), Some(-1)).err().expect("a negative offset");
    assert_eq!(error.kind, ToolErrorKind::InvalidParams);
    assert_eq!(error.message, "offset cannot be negative");
    assert_eq!(normalize_recent_limit(None).ok(), Some(10));
    assert_eq!(normalize_recent_limit(Some(1)).ok(), Some(1));
    assert_eq!(normalize_recent_limit(Some(50)).ok(), Some(50));
    for limit in [0, 51, -1] {
        let error = normalize_recent_limit(Some(limit)).err().expect("out of bounds");
        assert_eq!(error.kind, ToolErrorKind::InvalidParams);
        assert_eq!(error.message, "recent_limit must be between 1 and 50");
    }
}

#[test]
fn initial_sections_keep_their_order() {
    let input = InitialSpecInput {
        overview: Some("o".to_string()),
        requirements: None,
        architecture: Some("a".to_string()),
        technical_design: None,
        open_decisions: None,
        references: Some("r".to_string()),
    };
    assert_eq!(
        input.into_sections(),
        vec![
            ("overview", "o".to_string()),
            ("architecture", "a".to_string()),
            ("references", "r".to_string()),
        ]
    );
    let all = InitialSpecInput {
        overview: Some("1".to_string()),
        requirements: Some("2".to_string()),
        architecture: Some("3".to_string()),
        technical_design: Some("4".to_string()),
        open_decisions: Some("5".to_string()),
        references: Some("6".to_string()),
    };
    let names: Vec<&str> = all.into_sections().into_iter().map(|section| section.0).collect();
    assert_eq!(
        names,
        vec![
            "overview",
            "requirements",
            "architecture",
            "technical_design",
            "open_decisions",
            "references"
        ]
    );
    let none = InitialSpecInput {
        overview: None,
        requirements: None,
        architecture: None,
        technical_design: None,
        open_decisions: None,
        references: None,
    };
    assert!(none.into_sections().is_empty());
}
