use drive_clone_api::auth::User;
use drive_clone_api::config::env_i64;
use drive_clone_api::ids::object_key_for;
use drive_clone_api::errors::{health_answer, AppError, DomainError};
use drive_clone_api::storage::{fake_part_url, PresignedUrl};
use drive_clone_api::uploads::{
    admit_upload, validate_resumable_request, validate_upload_request, ResumableUploadRequest,
    UploadRequest,
};
use drive_clone_api::usecases::{check_update_file, check_update_folder, UpdateFileInput, UpdateFolderInput};
use drive_clone_api::validation::{
    validate_checksum, validate_content_type, validate_filename, validate_folder_name,
    validate_search_query, validate_size,
};

fn owner(used: i64, quota: i64) -> User {
    User {
        id: 9,
        email: "quota@example.com".to_string(),
        display_name: "Quota".to_string(),
        storage_quota_bytes: quota,
        storage_used_bytes: used,
        created_at: 0,
    }
}

fn request(size_bytes: i64) -> UploadRequest {
    UploadRequest {
        filename: "report.txt".to_string(),
        parent_folder_id: None,
        content_type: "text/plain".to_string(),
        size_bytes,
        checksum_sha256: None,
    }
}

/// Checks an upload as the upload use case does: the request first, then
/// the quota with `pending_bytes` already pending.
fn create_upload(user: &User, max: i64, pending_bytes: i64, req: UploadRequest) -> Result<UploadRequest, AppError> {
    let checked = validate_upload_request(req, max)?;
    admit_upload(user, pending_bytes, checked.size_bytes)?;
    Ok(checked)
}

#[test]
fn create_upload_enforces_quota_and_max_size() {
    let user = owner(0, 10);
    let quota_error = create_upload(&user, 10, 6, request(5)).unwrap_err();
    assert_eq!(quota_error, AppError::Domain(DomainError::QuotaExceeded));
    let size_error = create_upload(&user, 10, 6, request(11)).unwrap_err();
    assert_eq!(size_error, AppError::Domain(DomainError::FileTooLarge));
}

#[test]
fn size_limits_bound_both_ends() {
    assert_eq!(validate_size(10, 10), Ok(()));
    assert_eq!(validate_size(0, 10), Ok(()));
    assert_eq!(validate_size(11, 10), Err(DomainError::FileTooLarge));
    assert_eq!(
        validate_size(-1, 10),
        Err(DomainError::Validation("size_bytes must be greater than or equal to zero"))
    );
}

#[test]
fn names_are_trimmed_and_checked() {
    assert_eq!(validate_filename("  report.txt ").unwrap(), "report.txt");
    assert_eq!(
        validate_filename("   "),
        Err(DomainError::Validation("Filename is required"))
    );
    assert_eq!(
        validate_filename("a/b"),
        Err(DomainError::Validation("Filename cannot contain slashes or control characters"))
    );
    assert_eq!(
        validate_filename(&"x".repeat(256)),
        Err(DomainError::Validation("Filename must be at most 255 characters"))
    );
    assert!(validate_filename(&"x".repeat(255)).is_ok());
    assert_eq!(validate_folder_name(" Photos ").unwrap(), "Photos");
    assert_eq!(
        validate_folder_name("a\\b"),
        Err(DomainError::Validation("Folder name cannot contain slashes or control characters"))
    );
    assert_eq!(validate_content_type(" image/png ").unwrap(), "image/png");
    assert_eq!(
        validate_content_type(""),
        Err(DomainError::Validation("Content type is required"))
    );
}

#[test]
fn checksums_must_be_sha256_hex() {
    let digest = "a".repeat(63) + "F";
    assert_eq!(validate_checksum(None), Ok(None));
    assert_eq!(validate_checksum(Some(&digest)).unwrap(), Some(digest.clone()));
    assert_eq!(
        validate_checksum(Some("abc")),
        Err(DomainError::Validation("checksum_sha256 must be 64 hexadecimal characters"))
    );
    let not_hex = "g".repeat(64);
    assert!(validate_checksum(Some(&not_hex)).is_err());
}

#[test]
fn upload_requests_are_checked_in_order() {
    let mut bad = request(11);
    bad.filename = String::new();
    assert_eq!(
        validate_upload_request(bad, 10).unwrap_err(),
        AppError::Domain(DomainError::Validation("Filename is required"))
    );
    let resumable = ResumableUploadRequest {
        filename: " movie.mp4 ".to_string(),
        parent_folder_id: Some(4),
        content_type: "video/mp4".to_string(),
        size_bytes: 100,
        checksum_sha256: None,
        part_size_bytes: Some(7),
    };
    let checked = validate_resumable_request(resumable, 1000).unwrap();
    assert_eq!(checked.filename, "movie.mp4");
    assert_eq!(checked.part_size_bytes, Some(7));
    assert_eq!(checked.parent_folder_id, Some(4));
}

#[test]
fn search_queries_must_hold_text() {
    assert_eq!(
        validate_search_query(" "),
        Err(DomainError::Validation("Enter a search query"))
    );
    assert_eq!(validate_search_query(" report ").unwrap(), "report");
}

#[test]
fn renames_are_checked() {
    let rename = UpdateFileInput { file_id: 1, filename: Some(" new.txt ".to_string()), parent_folder_id: None };
    assert_eq!(check_update_file(&rename).unwrap(), Some("new.txt".to_string()));
    let bad = UpdateFileInput { file_id: 1, filename: Some("".to_string()), parent_folder_id: None };
    assert_eq!(
        check_update_file(&bad).unwrap_err(),
        AppError::Domain(DomainError::Validation("Filename is required"))
    );
    let moved = UpdateFolderInput { folder_id: 1, name: None, parent_folder_id: Some(None) };
    assert_eq!(check_update_folder(&moved).unwrap(), None);
}

#[test]
fn part_urls_carry_upload_id_then_part_number() {
    let presigned = PresignedUrl { url: "http://storage.test/a?method=PUT".to_string(), expires_at: 5 };
    let part = fake_part_url(presigned, "up 1", 3).unwrap();
    assert_eq!(part.url, "http://storage.test/a?method=PUT&uploadId=up+1&partNumber=3");
    assert_eq!(part.expires_at, 5);
}

#[test]
fn health_answers_follow_the_database() {
    let up = health_answer(true);
    assert_eq!((up.status, up.state), (200, "ok"));
    let down = health_answer(false);
    assert_eq!((down.status, down.state), (503, "degraded"));
}

#[test]
fn numeric_settings_follow_integer_parsing() {
    assert_eq!(env_i64(&Some("+42".to_string()), 7), 42);
    assert_eq!(env_i64(&Some("-0".to_string()), 7), 0);
    assert_eq!(env_i64(&Some(" 42".to_string()), 7), 7);
    assert_eq!(env_i64(&Some("9223372036854775808".to_string()), 7), 7);
    assert_eq!(env_i64(&Some("-9223372036854775808".to_string()), 7), i64::MIN);
}

#[test]
fn object_keys_name_the_owner_and_a_hyphenated_uuid() {
    assert_eq!(
        object_key_for(0x0123_4567_89ab_cdef_0123_4567_89ab_cdef, 0x33333333_3333_4333_8333_333333333333),
        "01234567-89ab-cdef-0123-456789abcdef/33333333-3333-4333-8333-333333333333"
    );
}

#[test]
fn tokens_are_url_safe_base64() {
    for token in [drive_clone_api::auth::generate_token(), drive_clone_api::share_link::generate_share_token()] {
        assert_eq!(token.len(), 43);
        assert!(token.chars().all(|c| c.is_ascii_alphanumeric() || c == '-' || c == '_'));
    }
}

#[test]
fn orphan_cutoff_takes_ages_up_to_the_machine_limit() {
    let max_age = i64::MAX / 1_000_000;
    assert_eq!(
        drive_clone_api::jobs::orphan_cutoff(0, max_age),
        -max_age * 1_000_000
    );
}
