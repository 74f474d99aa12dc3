use drive_clone_api::errors::{AppError, DomainError};
use drive_clone_api::sync::{
    clamp_limit, normalize_cursor, DEFAULT_SYNC_LIMIT, MAX_SYNC_LIMIT, MIN_SYNC_LIMIT,
};

#[test]
fn clamp_limit_defaults_when_unset() {
    assert_eq!(clamp_limit(None), DEFAULT_SYNC_LIMIT);
}

#[test]
fn clamp_limit_enforces_bounds() {
    assert_eq!(clamp_limit(Some(0)), MIN_SYNC_LIMIT);
    assert_eq!(clamp_limit(Some(-10)), MIN_SYNC_LIMIT);
    assert_eq!(clamp_limit(Some(1)), 1);
    assert_eq!(clamp_limit(Some(250)), 250);
    assert_eq!(clamp_limit(Some(500)), MAX_SYNC_LIMIT);
    assert_eq!(clamp_limit(Some(5000)), MAX_SYNC_LIMIT);
}

#[test]
fn normalize_cursor_defaults_to_zero() {
    assert_eq!(normalize_cursor(None).unwrap(), 0);
    assert_eq!(normalize_cursor(Some(0)).unwrap(), 0);
    assert_eq!(normalize_cursor(Some(42)).unwrap(), 42);
}

#[test]
fn normalize_cursor_rejects_negative() {
    assert!(matches!(
        normalize_cursor(Some(-1)),
        Err(AppError::Domain(DomainError::Validation(_)))
    ));
}
