use vstd::prelude::*;

use crate::auth::User;
use crate::errors::{app_error_from_domain, app_error_from_repository, AppError, DomainError, RepositoryError};
use crate::files::{PendingFile, ResumableUploadSession};
use crate::quota::{ensure_quota, quota_allows};
use crate::s3::opt_text;
use crate::storage::PresignedUrl;
use crate::validation::{
    spec_validate_checksum, spec_validate_content_type, spec_validate_filename, spec_validate_size,
    validate_checksum, validate_content_type, validate_filename, validate_size,
};

verus! {

/// A request to upload one file in a single `PUT`. Identifiers are the
/// 128-bit values of UUIDs.
#[derive(Debug, Clone)]
pub struct UploadRequest {
    pub filename: String,
    pub parent_folder_id: Option<u128>,
    pub content_type: String,
    pub size_bytes: i64,
    pub checksum_sha256: Option<String>,
}

/// A request to upload one file in parts.
#[derive(Debug, Clone)]
pub struct ResumableUploadRequest {
    pub filename: String,
    pub parent_folder_id: Option<u128>,
    pub content_type: String,
    pub size_bytes: i64,
    pub checksum_sha256: Option<String>,
    pub part_size_bytes: Option<i64>,
}

/// The pending file row a single-shot upload creates.
#[derive(Debug, Clone)]
pub struct CreatePendingFileRecord {
    pub owner_id: u128,
    pub filename: String,
    pub parent_folder_id: Option<u128>,
    pub content_type: String,
    pub size_bytes: i64,
    pub checksum_sha256: Option<String>,
    pub object_key: String,
}

/// The session row a resumable upload creates. `upload_expires_at` counts
/// microseconds since the Unix epoch.
#[derive(Debug, Clone)]
pub struct CreateResumableUploadRecord {
    pub owner_id: u128,
    pub filename: String,
    pub parent_folder_id: Option<u128>,
    pub content_type: String,
    pub size_bytes: i64,
    pub checksum_sha256: Option<String>,
    pub object_key: String,
    pub multipart_upload_id: String,
    pub part_size_bytes: i64,
    pub upload_expires_at: i64,
}

/// What a started single-shot upload hands back.
#[derive(Debug, Clone)]
pub struct CreateUploadOutput {
    pub file_id: u128,
    pub upload_url: String,
    pub object_key: String,
    pub expires_at: i64,
}

/// What a started resumable upload hands back.
#[derive(Debug, Clone)]
pub struct CreateResumableUploadOutput {
    pub file_id: u128,
    pub object_key: String,
    pub part_size_bytes: i64,
    pub expires_at: i64,
}

/// The checked file name, content type and checksum of an upload, or the
/// first error: the name, then the content type, then the size against
/// `max_file_size_bytes`, then the checksum.
pub open spec fn spec_validate_upload(
    filename: Seq<char>,
    content_type: Seq<char>,
    size_bytes: i64,
    checksum: Option<Seq<char>>,
    max_file_size_bytes: i64,
) -> Result<(Seq<char>, Seq<char>, Option<Seq<char>>), DomainError> {
    match spec_validate_filename(filename) {
        Err(e) => Err(e),
        Ok(f) => match spec_validate_content_type(content_type) {
            Err(e) => Err(e),
            Ok(c) => match spec_validate_size(size_bytes, max_file_size_bytes) {
                Err(e) => Err(e),
                Ok(_) => match spec_validate_checksum(checksum) {
                    Err(e) => Err(e),
                    Ok(k) => Ok((f, c, k)),
                },
            },
        },
    }
}

/// Checks the declared fields of an upload, in the order
/// `spec_validate_upload` gives, and keeps their checked forms.
fn validate_upload_fields(
    filename: &str,
    content_type: &str,
    size_bytes: i64,
    checksum: &Option<String>,
    max_file_size_bytes: i64,
) -> (r: Result<(String, String, Option<String>), AppError>)
    ensures
        match spec_validate_upload(filename@, content_type@, size_bytes, opt_text(*checksum), max_file_size_bytes) {
            Err(e) => r == Err::<(String, String, Option<String>), AppError>(app_error_from_domain(e)),
            Ok(v) => r matches Ok(w) && w.0@ == v.0 && w.1@ == v.1 && opt_text(w.2) == v.2,
        },
{
    let filename = match validate_filename(filename) {
        Ok(f) => f,
        Err(e) => {
            return Err(AppError::from(e));
        },
    };
    let content_type = match validate_content_type(content_type) {
        Ok(c) => c,
        Err(e) => {
            return Err(AppError::from(e));
        },
    };
    match validate_size(size_bytes, max_file_size_bytes) {
        Ok(()) => {},
        Err(e) => {
            return Err(AppError::from(e));
        },
    }
    let checked = match checksum {
        Some(c) => validate_checksum(Some(c.as_str())),
        None => validate_checksum(None),
    };
    match checked {
        Ok(k) => Ok((filename, content_type, k)),
        Err(e) => Err(AppError::from(e)),
    }
}

/// Checks a single-shot upload request against the upload rules and the
/// configured maximum size, and gives it back with its name, content type
/// and checksum in their checked forms.
pub fn validate_upload_request(request: UploadRequest, max_file_size_bytes: i64) -> (r: Result<UploadRequest, AppError>)
    ensures
        match spec_validate_upload(
            request.filename@,
            request.content_type@,
            request.size_bytes,
            opt_text(request.checksum_sha256),
            max_file_size_bytes,
        ) {
            Err(e) => r == Err::<UploadRequest, AppError>(app_error_from_domain(e)),
            Ok(v) => r matches Ok(w) && w.filename@ == v.0 && w.content_type@ == v.1 && opt_text(
                w.checksum_sha256,
            ) == v.2 && w.size_bytes == request.size_bytes && w.parent_folder_id == request.parent_folder_id,
        },
{
    match validate_upload_fields(
        request.filename.as_str(),
        request.content_type.as_str(),
        request.size_bytes,
        &request.checksum_sha256,
        max_file_size_bytes,
    ) {
        Ok((filename, content_type, checksum_sha256)) => Ok(
            UploadRequest {
                filename,
                parent_folder_id: request.parent_folder_id,
                content_type,
                size_bytes: request.size_bytes,
                checksum_sha256,
            },
        ),
        Err(e) => Err(e),
    }
}

/// Checks a resumable upload request as `validate_upload_request` does; the
/// requested part size is left for `normalized_part_size`.
pub fn validate_resumable_request(request: ResumableUploadRequest, max_file_size_bytes: i64) -> (r: Result<
    ResumableUploadRequest,
    AppError,
>)
    ensures
        match spec_validate_upload(
            request.filename@,
            request.content_type@,
            request.size_bytes,
            opt_text(request.checksum_sha256),
            max_file_size_bytes,
        ) {
            Err(e) => r == Err::<ResumableUploadRequest, AppError>(app_error_from_domain(e)),
            Ok(v) => r matches Ok(w) && w.filename@ == v.0 && w.content_type@ == v.1 && opt_text(
                w.checksum_sha256,
            ) == v.2 && w.size_bytes == request.size_bytes && w.parent_folder_id == request.parent_folder_id
                && w.part_size_bytes == request.part_size_bytes,
        },
{
    match validate_upload_fields(
        request.filename.as_str(),
        request.content_type.as_str(),
        request.size_bytes,
        &request.checksum_sha256,
        max_file_size_bytes,
    ) {
        Ok((filename, content_type, checksum_sha256)) => Ok(
            ResumableUploadRequest {
                filename,
                parent_folder_id: request.parent_folder_id,
                content_type,
                size_bytes: request.size_bytes,
                checksum_sha256,
                part_size_bytes: request.part_size_bytes,
            },
        ),
        Err(e) => Err(e),
    }
}

/// Admits a new upload of `size_bytes` for `user`, given the bytes of the
/// uploads the user still has pending.
pub fn admit_upload(user: &User, pending_bytes: i64, size_bytes: i64) -> (r: Result<(), AppError>)
    ensures
        r is Ok <==> quota_allows(
            user.storage_used_bytes as int,
            user.storage_quota_bytes as int,
            pending_bytes as int,
            size_bytes as int,
        ),
        r is Err ==> r == Err::<(), AppError>(app_error_from_domain(DomainError::QuotaExceeded)),
{
    match ensure_quota(user.storage_used_bytes, user.storage_quota_bytes, pending_bytes, size_bytes) {
        Ok(()) => Ok(()),
        Err(e) => Err(AppError::from(e)),
    }
}

/// The pending file row for a single-shot upload stored under `object_key`.
pub fn pending_file_record(owner_id: u128, request: UploadRequest, object_key: String) -> (r: CreatePendingFileRecord)
    ensures
        r.owner_id == owner_id,
        r.filename == request.filename,
        r.parent_folder_id == request.parent_folder_id,
        r.content_type == request.content_type,
        r.size_bytes == request.size_bytes,
        r.checksum_sha256 == request.checksum_sha256,
        r.object_key == object_key,
{
    CreatePendingFileRecord {
        owner_id,
        filename: request.filename,
        parent_folder_id: request.parent_folder_id,
        content_type: request.content_type,
        size_bytes: request.size_bytes,
        checksum_sha256: request.checksum_sha256,
        object_key,
    }
}

/// The answer to a started single-shot upload: the new file, where to put
/// its bytes and until when.
pub fn create_upload_output(pending: PendingFile, presigned: PresignedUrl) -> (r: CreateUploadOutput)
    ensures
        r.file_id == pending.id,
        r.upload_url == presigned.url,
        r.object_key == pending.object_key,
        r.expires_at == presigned.expires_at,
{
    CreateUploadOutput {
        file_id: pending.id,
        upload_url: presigned.url,
        object_key: pending.object_key,
        expires_at: presigned.expires_at,
    }
}

/// The session row for a resumable upload whose multipart upload
/// `multipart_upload_id` was opened under `object_key`.
pub fn resumable_upload_record(
    owner_id: u128,
    request: ResumableUploadRequest,
    part_size_bytes: i64,
    object_key: String,
    multipart_upload_id: String,
    upload_expires_at: i64,
) -> (r: CreateResumableUploadRecord)
    ensures
        r.owner_id == owner_id,
        r.filename == request.filename,
        r.parent_folder_id == request.parent_folder_id,
        r.content_type == request.content_type,
        r.size_bytes == request.size_bytes,
        r.checksum_sha256 == request.checksum_sha256,
        r.object_key == object_key,
        r.multipart_upload_id == multipart_upload_id,
        r.part_size_bytes == part_size_bytes,
        r.upload_expires_at == upload_expires_at,
{
    CreateResumableUploadRecord {
        owner_id,
        filename: request.filename,
        parent_folder_id: request.parent_folder_id,
        content_type: request.content_type,
        size_bytes: request.size_bytes,
        checksum_sha256: request.checksum_sha256,
        object_key,
        multipart_upload_id,
        part_size_bytes,
        upload_expires_at,
    }
}

/// How a resumable upload ends once its session row was written or
/// refused: whether the multipart upload opened for it must be aborted,
/// and the answer.
#[derive(Debug)]
pub struct ResumableUploadOutcome {
    pub abort_multipart_upload: bool,
    pub result: Result<CreateResumableUploadOutput, AppError>,
}

/// Decides the end of a resumable upload from the outcome of writing its
/// session row: a written session is answered with its file, part size and
/// deadline; a refused one has its multipart upload aborted and the
/// repository error answered.
pub fn resumable_upload_outcome(written: Result<ResumableUploadSession, RepositoryError>) -> (r: ResumableUploadOutcome)
    ensures
        r.abort_multipart_upload <==> written is Err,
        match written {
            Ok(session) => r.result matches Ok(out) && out.file_id == session.file_id && out.object_key
                == session.object_key && out.part_size_bytes == session.part_size_bytes
                && out.expires_at == session.upload_expires_at,
            Err(e) => r.result == Err::<CreateResumableUploadOutput, AppError>(app_error_from_repository(e)),
        },
{
    match written {
        Ok(session) => ResumableUploadOutcome {
            abort_multipart_upload: false,
            result: Ok(CreateResumableUploadOutput {
                file_id: session.file_id,
                object_key: session.object_key,
                part_size_bytes: session.part_size_bytes,
                expires_at: session.upload_expires_at,
            }),
        },
        Err(e) => ResumableUploadOutcome { abort_multipart_upload: true, result: Err(AppError::from(e)) },
    }
}

} // verus!
