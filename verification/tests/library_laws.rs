use drive_clone_api::auth::{dummy_hash, verify_password, bearer_token, hash_token, login_result, normalize_email, User};
use drive_clone_api::clock::MICROS_PER_SECOND;
use drive_clone_api::config::{
    Config, CorsConfig, EnvValues, DEFAULT_MAX_FILE_SIZE_BYTES, DEFAULT_PRESIGNED_URL_TTL_SECONDS,
};
use drive_clone_api::repository::{
    check_completable_row, check_folder_move, check_part_row, check_tree_restore, require_found,
    rows_touched,
};
use drive_clone_api::errors::{AppError, DomainError, HttpError, RepositoryError, StorageError};
use drive_clone_api::files::{
    ChangeEntityType, ChangeOp, FileState, ResumableUploadSession, SearchAccess, StoredObject,
    UploadPart,
};
use drive_clone_api::ids::{object_key_for, SequenceIdGenerator, UuidGenerator};
use drive_clone_api::jobs::{
    purge_action, select_orphans, worker_interval_seconds, PurgeAction, PurgeOutcome,
    PurgeTrashOutput,
};
use drive_clone_api::quota::ensure_quota;
use drive_clone_api::resumable::{
    ensure_pending_session, expected_part_size, normalized_part_size, part_count,
    part_size_computable_checked, session_arithmetic_checked, upload_expiry,
    validate_complete_parts, MIN_RESUMABLE_PART_SIZE_BYTES,
};
use drive_clone_api::share_link::{share_link_expiry, share_url};
use drive_clone_api::sigv4::{canonical_query, canonical_uri};
use drive_clone_api::storage::{presigned_fake_url_at, FakeObjectStorage};
use drive_clone_api::uploads::{admit_upload, resumable_upload_outcome};
use drive_clone_api::usecases::escape_like_literal;

const MIB: i64 = 1024 * 1024;

fn user(used: i64, quota: i64) -> User {
    User {
        id: 7,
        email: "a@b.co".to_string(),
        display_name: "A".to_string(),
        storage_quota_bytes: quota,
        storage_used_bytes: used,
        created_at: 0,
    }
}

fn session(size: i64, part_size: i64, parts: Vec<UploadPart>) -> ResumableUploadSession {
    ResumableUploadSession {
        file_id: 1,
        owner_id: 2,
        filename: "f.bin".to_string(),
        parent_folder_id: None,
        content_type: "application/octet-stream".to_string(),
        size_bytes: size,
        checksum_sha256: None,
        object_key: "2/1".to_string(),
        multipart_upload_id: "up".to_string(),
        part_size_bytes: part_size,
        state: FileState::Pending,
        upload_expires_at: 1_000,
        created_at: 0,
        updated_at: 0,
        completed_at: None,
        parts,
    }
}

fn part(number: i32, size: i64) -> UploadPart {
    UploadPart { part_number: number, size_bytes: size, etag: format!("e{number}") }
}

#[test]
fn quota_accepts_exactly_what_fits() {
    assert_eq!(ensure_quota(10, 100, 20, 70), Ok(()));
    assert_eq!(ensure_quota(10, 100, 20, 71), Err(DomainError::QuotaExceeded));
    assert_eq!(ensure_quota(i64::MAX, i64::MAX, 1, 0), Err(DomainError::QuotaExceeded));
    assert_eq!(admit_upload(&user(10, 100), 20, 70), Ok(()));
    assert_eq!(
        admit_upload(&user(10, 100), 20, 71),
        Err(AppError::Domain(DomainError::QuotaExceeded))
    );
}

#[test]
fn part_sizes_follow_the_multipart_limits() {
    assert_eq!(part_count(20 * MIB, 8 * MIB), 3);
    assert_eq!(normalized_part_size(20 * MIB, None), Ok(8 * MIB));
    assert_eq!(normalized_part_size(20 * MIB, Some(MIB)), Ok(MIN_RESUMABLE_PART_SIZE_BYTES));
    let big = 100_000 * MIB;
    let part_size = normalized_part_size(big, None).unwrap();
    assert!(part_count(big, part_size) <= 10_000);
}

#[test]
fn expected_parts_cover_the_file() {
    let s = session(20 * MIB, 8 * MIB, vec![]);
    assert_eq!(expected_part_size(&s, 1), Ok(8 * MIB));
    assert_eq!(expected_part_size(&s, 3), Ok(4 * MIB));
    assert_eq!(expected_part_size(&s, 0), Err(DomainError::InvalidFileState));
    assert_eq!(expected_part_size(&s, 4), Err(DomainError::InvalidFileState));
    let whole = session(20 * MIB, 8 * MIB, vec![part(1, 8 * MIB), part(2, 8 * MIB), part(3, 4 * MIB)]);
    assert_eq!(validate_complete_parts(&whole), Ok(()));
    let missing = session(20 * MIB, 8 * MIB, vec![part(1, 8 * MIB), part(3, 4 * MIB)]);
    assert_eq!(validate_complete_parts(&missing), Err(DomainError::InvalidFileState));
    let short = session(20 * MIB, 8 * MIB, vec![part(1, 8 * MIB), part(2, 7 * MIB), part(3, 4 * MIB)]);
    assert_eq!(validate_complete_parts(&short), Err(DomainError::InvalidFileState));
}

#[test]
fn sessions_close_at_their_deadline() {
    let deadline = upload_expiry(500, 3);
    assert_eq!(deadline, 500 + 3 * MICROS_PER_SECOND);
    let mut s = session(MIB, 5 * MIB, vec![]);
    s.upload_expires_at = deadline;
    assert!(ensure_pending_session(&s, deadline - 1).is_ok());
    assert_eq!(
        ensure_pending_session(&s, deadline),
        Err(AppError::Domain(DomainError::InvalidFileState))
    );
    s.state = FileState::Complete;
    assert!(ensure_pending_session(&s, 0).is_err());
}

#[test]
fn stored_names_read_back() {
    for state in [FileState::Pending, FileState::Complete, FileState::Expired] {
        assert_eq!(FileState::from(state.as_str().to_string()), state);
    }
    for op in [ChangeOp::Upsert, ChangeOp::Delete] {
        assert_eq!(ChangeOp::from(op.as_str().to_string()), op);
    }
    for t in [ChangeEntityType::File, ChangeEntityType::Folder] {
        assert_eq!(ChangeEntityType::from(t.as_str().to_string()), t);
    }
    assert_eq!(SearchAccess::from_name(SearchAccess::Shared.as_str()), SearchAccess::Shared);
    assert_eq!(SearchAccess::from_name("anything"), SearchAccess::Owned);
}

#[test]
fn fake_storage_reads_back_writes_and_deletes() {
    let mut storage = FakeObjectStorage::new();
    storage.put_object_with_last_modified("b", 2, 20);
    storage.put_object_with_last_modified("a", 1, 10);
    storage.put_object_with_last_modified("b", 3, 30);
    assert_eq!(storage.head_object("b").unwrap().content_length, 3);
    assert_eq!(storage.head_object("c"), Err(StorageError::NotFound));
    let listed = storage.list_objects().unwrap();
    let keys: Vec<&str> = listed.iter().map(|o| o.key.as_str()).collect();
    assert_eq!(keys, vec!["a", "b"]);
    assert_eq!(storage.delete_object("a"), Ok(()));
    assert!(!storage.has_object("a"));
    assert!(storage.has_object("b"));
    assert_eq!(storage.delete_object("a"), Err(StorageError::NotFound));
    storage.fail_delete("b");
    assert_eq!(storage.delete_object("b"), Err(StorageError::Unexpected));
    assert!(storage.has_object("b"));
    assert_eq!(storage.deleted_objects(), vec!["a".to_string(), "a".to_string()]);
}

#[test]
fn fake_presigned_urls_name_the_key_and_method() {
    let storage = FakeObjectStorage::new();
    let put = storage.presign_put("owner/object", "text/plain", 3, 60).unwrap();
    assert_eq!(put.url, "http://storage.test/owner/object?method=PUT");
    let part = storage.presign_upload_part("owner/object", "up-1", 2, 60).unwrap();
    assert_eq!(
        part.url,
        "http://storage.test/owner/object?method=PUT&uploadId=up-1&partNumber=2"
    );
}

#[test]
fn repository_errors_reach_clients_with_their_status() {
    let status = |e: RepositoryError| HttpError::from(AppError::from(e)).response_parts().status;
    assert_eq!(status(RepositoryError::NotFound), 404);
    assert_eq!(status(RepositoryError::DuplicateEmail), 409);
    assert_eq!(status(RepositoryError::InvalidState), 409);
    assert_eq!(status(RepositoryError::Unexpected), 500);
    assert_eq!(HttpError::from(AppError::Storage).response_parts().status, 502);
    assert_eq!(
        HttpError::from(AppError::from(DomainError::EmailTaken)).response_parts().status,
        409
    );
}

#[test]
fn share_links_point_at_the_web_app() {
    assert_eq!(share_url("https://drive.example//", "tok"), "https://drive.example/s/tok");
    assert_eq!(share_url("https://drive.example", "tok"), "https://drive.example/s/tok");
    assert_eq!(share_link_expiry(10, None), Ok(None));
    assert_eq!(share_link_expiry(10, Some(2)), Ok(Some(10 + 2 * MICROS_PER_SECOND)));
    assert!(matches!(
        share_link_expiry(10, Some(0)),
        Err(AppError::Domain(DomainError::Validation(_)))
    ));
}

#[test]
fn object_keys_nest_under_the_owner() {
    let key = object_key_for(1, 0xff);
    assert_eq!(
        key,
        "00000000-0000-0000-0000-000000000001/00000000-0000-0000-0000-0000000000ff"
    );
}

#[test]
fn bearer_tokens_and_hashes() {
    assert_eq!(bearer_token(Some("Bearer abc")), Some("abc".to_string()));
    assert_eq!(bearer_token(Some("Basic abc")), None);
    assert_eq!(bearer_token(None), None);
    let hashed = hash_token("abc");
    assert_ne!(hashed, "abc");
    assert_eq!(hashed, "ba7816bf8f01cfea414140de5dae2223b00361a396177a9cb410ff61f20015ad");
    assert_eq!(normalize_email("  A@B.Co "), "a@b.co");
    assert!(login_result(None, true).is_err());
    assert!(login_result(Some(user(0, 1)), false).is_err());
    assert_eq!(login_result(Some(user(0, 1)), true).unwrap().id, 7);
}

#[test]
fn orphans_are_old_and_unknown() {
    let objects = vec![
        StoredObject { key: "known".to_string(), last_modified: 0, size_bytes: 1 },
        StoredObject { key: "old".to_string(), last_modified: 5, size_bytes: 1 },
        StoredObject { key: "new".to_string(), last_modified: 50, size_bytes: 1 },
    ];
    let orphans = select_orphans(&vec!["known".to_string()], &objects, 10);
    let keys: Vec<&str> = orphans.iter().map(|o| o.key.as_str()).collect();
    assert_eq!(keys, vec!["old"]);
}

#[test]
fn purge_tallies_follow_delete_outcomes() {
    assert_eq!(purge_action(Ok(())), PurgeAction::PurgeRow);
    assert_eq!(purge_action(Err(StorageError::NotFound)), PurgeAction::PurgeRow);
    assert_eq!(purge_action(Err(StorageError::Unexpected)), PurgeAction::ReleaseClaim);
    let output = PurgeTrashOutput::from_outcomes(
        &vec![PurgeOutcome::Purged, PurgeOutcome::Failed, PurgeOutcome::Skipped, PurgeOutcome::Purged],
        3,
    );
    assert_eq!(output.purged_files, 2);
    assert_eq!(output.failed_files, 1);
    assert_eq!(output.purged_folders, 3);
}

#[test]
fn like_patterns_escape_wildcards() {
    assert_eq!(escape_like_literal("50%_a\\b"), "50\\%\\_a\\\\b");
    assert_eq!(escape_like_literal("plain"), "plain");
}

#[test]
fn canonical_query_ignores_pair_order() {
    let a = vec![
        ("b".to_string(), "1".to_string()),
        ("a".to_string(), "2".to_string()),
    ];
    let b = vec![
        ("a".to_string(), "2".to_string()),
        ("b".to_string(), "1".to_string()),
    ];
    assert_eq!(canonical_query(&a), canonical_query(&b));
}

#[test]
fn canonical_uri_encodes_each_segment_and_keeps_empty_ones() {
    let path = "//a b//é/";
    let joined = path
        .split('/')
        .map(|segment| canonical_uri(segment))
        .collect::<Vec<_>>()
        .join("/");
    assert_eq!(canonical_uri(path), joined);
    assert_eq!(canonical_uri(path), "//a%20b//%C3%A9/");
}

#[test]
fn fake_multipart_upload_ids_name_the_key() {
    let mut storage = FakeObjectStorage::new();
    assert_eq!(
        storage.create_multipart_upload("u/1", "text/plain").unwrap(),
        "fake-upload-u/1"
    );
    assert_eq!(
        storage.create_multipart_upload("u/2", "text/plain").unwrap(),
        "fake-upload-u/2"
    );
}

#[test]
fn fake_presigned_urls_expire_after_their_lifetime() {
    let presigned = presigned_fake_url_at("GET", "a b/c", 60, 1_000).unwrap();
    assert_eq!(presigned.url, "http://storage.test/a%20b/c?method=GET");
    assert_eq!(presigned.expires_at, 1_000 + 60 * MICROS_PER_SECOND);
}

#[test]
fn failed_session_rows_abort_the_multipart_upload() {
    let outcome = resumable_upload_outcome(Err(RepositoryError::Unexpected));
    assert!(outcome.abort_multipart_upload);
    assert_eq!(outcome.result.unwrap_err(), AppError::Repository);
    let written = resumable_upload_outcome(Ok(session(MIB, 5 * MIB, vec![])));
    assert!(!written.abort_multipart_upload);
    let out = written.result.unwrap();
    assert_eq!(out.file_id, 1);
    assert_eq!(out.part_size_bytes, 5 * MIB);
    assert_eq!(out.expires_at, 1_000);
}

#[test]
fn worker_ticks_at_least_every_second() {
    assert_eq!(worker_interval_seconds(0), 1);
    assert_eq!(worker_interval_seconds(-5), 1);
    assert_eq!(worker_interval_seconds(30), 30);
}

#[test]
fn repository_rows_are_checked_before_writes() {
    assert_eq!(check_part_row(FileState::Pending, 10, 10), Ok(()));
    assert_eq!(check_part_row(FileState::Pending, 10, 0), Err(RepositoryError::InvalidState));
    assert_eq!(check_part_row(FileState::Pending, 10, 11), Err(RepositoryError::InvalidState));
    assert_eq!(check_part_row(FileState::Complete, 10, 5), Err(RepositoryError::InvalidState));
    assert_eq!(check_completable_row(FileState::Pending, 5, 5), Ok(()));
    assert_eq!(check_completable_row(FileState::Pending, 5, 6), Err(RepositoryError::InvalidState));
    assert_eq!(check_completable_row(FileState::Expired, 5, 5), Err(RepositoryError::InvalidState));
    assert_eq!(check_tree_restore(None), Err(RepositoryError::NotFound));
    assert_eq!(check_tree_restore(Some(true)), Err(RepositoryError::InvalidState));
    assert_eq!(check_tree_restore(Some(false)), Ok(()));
    assert_eq!(rows_touched(0), Err(RepositoryError::NotFound));
    assert_eq!(rows_touched(3), Ok(()));
    assert_eq!(require_found(false), Err(RepositoryError::NotFound));
    assert_eq!(require_found(true), Ok(()));
}

#[test]
fn folders_never_move_into_their_own_tree() {
    assert_eq!(check_folder_move(1, Some(Some(1)), false), Err(RepositoryError::InvalidState));
    assert_eq!(check_folder_move(1, Some(Some(2)), true), Err(RepositoryError::InvalidState));
    assert_eq!(check_folder_move(1, Some(Some(2)), false), Ok(()));
    assert_eq!(check_folder_move(1, Some(None), false), Ok(()));
    assert_eq!(check_folder_move(1, None, true), Ok(()));
}

#[test]
fn part_arithmetic_checks() {
    assert!(part_size_computable_checked(20 * MIB, None));
    assert!(!part_size_computable_checked(i64::MAX, None));
    assert!(session_arithmetic_checked(&session(MIB, 5 * MIB, vec![])));
    assert!(!session_arithmetic_checked(&session(MIB, 0, vec![])));
    assert!(!session_arithmetic_checked(&session(i64::MAX, 5, vec![])));
}

#[test]
fn cors_origins_are_the_trimmed_pieces() {
    let cors = CorsConfig {
        allowed_origins: Some(" https://a.example , https://b.example".to_string()),
    };
    assert_eq!(
        cors.origin_candidates(),
        Some(vec!["https://a.example".to_string(), "https://b.example".to_string()])
    );
    assert_eq!(CorsConfig { allowed_origins: None }.origin_candidates(), None);
}

#[test]
fn config_falls_back_to_defaults() {
    let values = EnvValues {
        host: None,
        port: Some("9000".to_string()),
        database_url: None,
        max_file_size_bytes: Some("lots".to_string()),
        presigned_url_ttl_seconds: Some("60".to_string()),
        public_web_url: None,
        worker_interval_seconds: None,
        trash_retention_days: None,
    };
    let config = Config::from_values(&values);
    assert_eq!(config.address(), "0.0.0.0:9000");
    assert_eq!(config.database_url, "");
    assert_eq!(config.max_file_size_bytes, DEFAULT_MAX_FILE_SIZE_BYTES);
    assert_eq!(config.presigned_url_ttl_seconds, 60);
    assert_ne!(config.presigned_url_ttl_seconds, DEFAULT_PRESIGNED_URL_TTL_SECONDS);
    assert_eq!(config.public_web_url, "http://localhost:3000");
}

#[test]
fn identifiers_come_in_order_or_as_version_4() {
    let mut ids = SequenceIdGenerator::new(vec![3, 1]);
    assert_eq!(ids.new_uuid(), 3);
    assert_eq!(ids.new_uuid(), 1);
    let random = UuidGenerator.new_uuid();
    assert_eq!((random >> 76) & 0xf, 4);
    assert_eq!((random >> 62) & 0x3, 2);
    assert_ne!(random, UuidGenerator.new_uuid());
}

#[test]
fn dummy_hash_is_a_real_hash_of_its_password() {
    let hash = dummy_hash().unwrap();
    assert!(verify_password("not-a-real-password", &hash));
    assert!(!verify_password("another-password", &hash));
}
