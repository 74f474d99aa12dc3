use vstd::prelude::*;

use crate::files::UploadPart;
use crate::resumable::{ExpireUploadsOutput, RecordUploadPartInput};
use crate::text::{trim, trim_str};
use crate::usecases::{PresignUploadPartInput, SearchFilesInput, ShareFileInput};

verus! {

/// Body of `POST /auth/signup`.
#[derive(Debug, Clone)]
pub struct SignupRequest {
    pub email: String,
    pub password: String,
    pub display_name: String,
}

/// Body of `POST /auth/login`.
#[derive(Debug, Clone)]
pub struct LoginRequest {
    pub email: String,
    pub password: String,
}

/// A recorded part as the API returns it.
#[derive(Debug, Clone)]
pub struct UploadPartResponse {
    pub part_number: i32,
    pub size_bytes: i64,
    pub etag: String,
}

impl From<UploadPart> for UploadPartResponse {
    fn from(part: UploadPart) -> (r: UploadPartResponse) {
        UploadPartResponse {
            part_number: part.part_number,
            size_bytes: part.size_bytes,
            etag: part.etag,
        }
    }
}

impl vstd::std_specs::convert::FromSpecImpl<UploadPart> for UploadPartResponse {
    open spec fn obeys_from_spec() -> bool {
        true
    }

    open spec fn from_spec(v: UploadPart) -> UploadPartResponse {
        UploadPartResponse { part_number: v.part_number, size_bytes: v.size_bytes, etag: v.etag }
    }
}

/// Body of a request to presign one part.
#[derive(Debug, Clone, Copy)]
pub struct PresignUploadPartRequest {
    pub part_number: i32,
}

impl PresignUploadPartRequest {
    pub fn into_input(self, file_id: u128) -> (r: PresignUploadPartInput)
        ensures
            r.file_id == file_id,
            r.part_number == self.part_number,
    {
        PresignUploadPartInput { file_id, part_number: self.part_number }
    }
}

/// Body of a request recording one uploaded part.
#[derive(Debug, Clone)]
pub struct RecordUploadPartRequest {
    pub size_bytes: i64,
    pub etag: String,
}

impl RecordUploadPartRequest {
    pub fn into_input(self, file_id: u128, part_number: i32) -> (r: RecordUploadPartInput)
        ensures
            r.file_id == file_id,
            r.part_number == part_number,
            r.size_bytes == self.size_bytes,
            r.etag == self.etag,
    {
        RecordUploadPartInput { file_id, part_number, size_bytes: self.size_bytes, etag: self.etag }
    }
}

/// Result of the expiry job as the API returns it.
#[derive(Debug, Clone, Copy)]
pub struct ExpireUploadsResponse {
    pub expired_count: usize,
    pub aborted_count: usize,
}

impl From<ExpireUploadsOutput> for ExpireUploadsResponse {
    fn from(output: ExpireUploadsOutput) -> (r: ExpireUploadsResponse) {
        ExpireUploadsResponse {
            expired_count: output.expired_count,
            aborted_count: output.aborted_count,
        }
    }
}

impl vstd::std_specs::convert::FromSpecImpl<ExpireUploadsOutput> for ExpireUploadsResponse {
    open spec fn obeys_from_spec() -> bool {
        true
    }

    open spec fn from_spec(v: ExpireUploadsOutput) -> ExpireUploadsResponse {
        ExpireUploadsResponse { expired_count: v.expired_count, aborted_count: v.aborted_count }
    }
}

/// Query string of `GET /search`.
#[derive(Debug, Clone)]
pub struct SearchFilesQuery {
    pub q: String,
    pub include_deleted: bool,
    pub limit: Option<i64>,
}

impl SearchFilesQuery {
    /// The query text without surrounding whitespace.
    pub fn normalized_query(&self) -> (r: String)
        ensures
            r@ == trim(self.q@),
    {
        trim_str(self.q.as_str())
    }
}

impl From<SearchFilesQuery> for SearchFilesInput {
    fn from(query: SearchFilesQuery) -> (r: SearchFilesInput) {
        SearchFilesInput { query: query.q, include_deleted: query.include_deleted, limit: query.limit }
    }
}

impl vstd::std_specs::convert::FromSpecImpl<SearchFilesQuery> for SearchFilesInput {
    open spec fn obeys_from_spec() -> bool {
        true
    }

    open spec fn from_spec(v: SearchFilesQuery) -> SearchFilesInput {
        SearchFilesInput { query: v.q, include_deleted: v.include_deleted, limit: v.limit }
    }
}

/// Body of a request to share a file with someone.
#[derive(Debug, Clone)]
pub struct ShareFileRequest {
    pub email: String,
}

impl ShareFileRequest {
    pub fn into_input(self, file_id: u128) -> (r: ShareFileInput)
        ensures
            r.file_id == file_id,
            r.email == self.email,
    {
        ShareFileInput { file_id, email: self.email }
    }
}

} // verus!
