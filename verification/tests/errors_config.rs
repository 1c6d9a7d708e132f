use taskflow::{
    classify_rows_affected, classify_store_failure, validate_title, AppError, Config,
    title_is_valid,
};

#[test]
fn status_codes_cover_the_taxonomy() {
    assert_eq!(AppError::DatabaseError("x".to_string()).status_code(), 500);
    assert_eq!(AppError::InvalidInput("x".to_string()).status_code(), 400);
    assert_eq!(AppError::NotFound("x".to_string()).status_code(), 404);
}

#[test]
fn messages_carry_kind_prefix_and_detail() {
    assert_eq!(
        AppError::DatabaseError("connection lost".to_string()).message(),
        "Database error: connection lost"
    );
    assert_eq!(
        AppError::InvalidInput("Title is empty".to_string()).message(),
        "Invalid input: Title is empty"
    );
    assert_eq!(
        AppError::NotFound("Task not found".to_string()).message(),
        "Not found: Task not found"
    );
}

#[test]
fn detail_returns_the_payload() {
    assert_eq!(AppError::NotFound("gone".to_string()).detail().as_str(), "gone");
}

#[test]
fn zero_rows_affected_is_not_found() {
    let err = classify_rows_affected(0).unwrap_err();
    assert!(matches!(err, AppError::NotFound(_)));
}

#[test]
fn nonzero_rows_affected_is_success() {
    assert_eq!(classify_rows_affected(3).unwrap(), 3);
    assert_eq!(classify_rows_affected(1).unwrap(), 1);
}

#[test]
fn store_failure_classification() {
    let nf = classify_store_failure(true, "no such row".to_string());
    assert!(matches!(nf, AppError::NotFound(ref m) if m.as_str() == "no such row"));
    let db = classify_store_failure(false, "socket closed".to_string());
    assert!(matches!(db, AppError::DatabaseError(ref m) if m.as_str() == "socket closed"));
}

#[test]
fn config_round_trips_its_values() {
    let c = Config::new(
        "127.0.0.1".to_string(),
        "8080".to_string(),
        "postgres://localhost/tasks".to_string(),
    );
    assert_eq!(c.get_ip(), "127.0.0.1");
    assert_eq!(c.get_port(), "8080");
    assert_eq!(c.get_database_url(), "postgres://localhost/tasks");
}

#[test]
fn title_validation_rule() {
    assert!(title_is_valid("Buy milk"));
    assert!(title_is_valid("  x  "));
    assert!(!title_is_valid(""));
    assert!(!title_is_valid("   "));
    assert!(!title_is_valid(" \t\r\n "));
}

#[test]
fn title_validation_covers_unicode_whitespace() {
    // Characters str::trim removes beyond ASCII: no-break space, next line,
    // ogham space mark, em space, line separator, ideographic space.
    assert!(!title_is_valid("\u{a0}"));
    assert!(!title_is_valid("\u{85}\u{1680}\u{2003}\u{2028}\u{3000}"));
    assert!(!title_is_valid("\u{a0} \u{202f}\u{205f}"));
    assert!(title_is_valid("\u{a0}x"));
}

#[test]
fn validate_title_matches_the_rule() {
    assert!(validate_title("Buy milk").is_ok());
    let err = validate_title("\u{a0}").unwrap_err();
    assert!(matches!(err, AppError::InvalidInput(ref m) if m.as_str() == "Title is empty"));
    assert_eq!(err.status_code(), 400);
}
