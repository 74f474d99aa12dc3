use vstd::prelude::*;

use crate::errors::{AppError, DomainError};
use crate::files::PublicShareTarget;
use crate::errors::app_error_from_domain;
use crate::text::{chars_of, push_char};
use crate::validation::{spec_validate_filename, spec_validate_folder_name, validate_filename, validate_folder_name};

verus! {

pub const DEFAULT_SEARCH_LIMIT: i64 = 20;

pub const MAX_SEARCH_LIMIT: i64 = 50;

/// A filename search.
#[derive(Debug, Clone)]
pub struct SearchFilesInput {
    pub query: String,
    pub include_deleted: bool,
    pub limit: Option<i64>,
}

/// The number of hits a search returns: 20 by default, kept within `1..=50`.
pub fn search_limit(limit: Option<i64>) -> (r: i64)
    ensures
        r == match limit {
            None => DEFAULT_SEARCH_LIMIT,
            Some(v) => if v < 1 {
                1
            } else if v > MAX_SEARCH_LIMIT {
                MAX_SEARCH_LIMIT
            } else {
                v
            },
        },
{
    let wanted = match limit {
        Some(v) => v,
        None => DEFAULT_SEARCH_LIMIT,
    };
    if wanted < 1 {
        1
    } else if wanted > MAX_SEARCH_LIMIT {
        MAX_SEARCH_LIMIT
    } else {
        wanted
    }
}

/// How one character of a search text is written inside a SQL `LIKE`
/// pattern: `\\`, `%` and `_` get a `\\` in front, other characters stay.
pub open spec fn like_escape_char(c: char) -> Seq<char> {
    if c == '\\' || c == '%' || c == '_' {
        seq!['\\', c]
    } else {
        seq![c]
    }
}

/// A text made literal inside a SQL `LIKE` pattern.
pub open spec fn spec_escape_like_literal(s: Seq<char>) -> Seq<char>
    decreases s.len(),
{
    if s.len() == 0 {
        Seq::empty()
    } else {
        spec_escape_like_literal(s.drop_last()) + like_escape_char(s.last())
    }
}

/// Escapes the `LIKE` wildcards and the escape character of a search text.
pub fn escape_like_literal(value: &str) -> (r: String)
    ensures
        r@ == spec_escape_like_literal(value@),
{
    let chars = chars_of(value);
    let n = chars.len();
    let mut escaped = String::new();
    for i in 0..n
        invariant
            n == chars@.len(),
            chars@ == value@,
            escaped@ == spec_escape_like_literal(chars@.take(i as int)),
    {
        let c = chars[i];
        let ghost before = escaped@;
        if c == '\\' || c == '%' || c == '_' {
            push_char(&mut escaped, '\\');
        }
        push_char(&mut escaped, c);
        proof {
            assert(escaped@ =~= before + like_escape_char(c));
            assert(chars@.take(i + 1).drop_last() =~= chars@.take(i as int));
        }
    }
    assert(chars@.take(n as int) =~= chars@);
    escaped
}

/// A request to share a file with the account behind an email address.
#[derive(Debug, Clone)]
pub struct ShareFileInput {
    pub file_id: u128,
    pub email: String,
}

/// Who a file is shared with: the account found for the email, which must
/// exist and must not be the owner.
pub fn check_share_grantee(owner_id: u128, grantee_id: Option<u128>) -> (r: Result<u128, AppError>)
    ensures
        grantee_id is None ==> r == Err::<u128, AppError>(AppError::Domain(DomainError::UserNotFound)),
        grantee_id == Some(owner_id) ==> r == Err::<u128, AppError>(
            AppError::Domain(DomainError::Validation("Cannot share a file with yourself")),
        ),
        grantee_id is Some && grantee_id != Some(owner_id) ==> r == Ok::<u128, AppError>(
            grantee_id->0,
        ),
{
    match grantee_id {
        None => Err(AppError::Domain(DomainError::UserNotFound)),
        Some(g) => {
            if g == owner_id {
                Err(AppError::Domain(DomainError::Validation("Cannot share a file with yourself")))
            } else {
                Ok(g)
            }
        },
    }
}

/// A rename and/or move of a file. `parent_folder_id` is `None` when the
/// parent is left alone and `Some(None)` to move the file to the root.
#[derive(Debug, Clone)]
pub struct UpdateFileInput {
    pub file_id: u128,
    pub filename: Option<String>,
    pub parent_folder_id: Option<Option<u128>>,
}

/// Refuses a file update that changes nothing, then checks the new file
/// name, if any, and gives it back in its checked form.
pub fn check_update_file(input: &UpdateFileInput) -> (r: Result<Option<String>, AppError>)
    ensures
        input.filename is None && input.parent_folder_id is None ==> r == Err::<Option<String>, AppError>(
            AppError::Domain(DomainError::Validation("Provide a filename or parent folder")),
        ),
        input.filename is None && input.parent_folder_id is Some ==> r == Ok::<Option<String>, AppError>(None),
        input.filename matches Some(name) ==> match spec_validate_filename(name@) {
            Ok(t) => r matches Ok(Some(s)) && s@ == t,
            Err(e) => r == Err::<Option<String>, AppError>(app_error_from_domain(e)),
        },
{
    match &input.filename {
        None => {
            if input.parent_folder_id.is_none() {
                Err(AppError::Domain(DomainError::Validation("Provide a filename or parent folder")))
            } else {
                Ok(None)
            }
        },
        Some(name) => match validate_filename(name.as_str()) {
            Ok(t) => Ok(Some(t)),
            Err(e) => Err(AppError::from(e)),
        },
    }
}

/// A rename and/or move of a folder.
#[derive(Debug, Clone)]
pub struct UpdateFolderInput {
    pub folder_id: u128,
    pub name: Option<String>,
    pub parent_folder_id: Option<Option<u128>>,
}

/// Refuses a folder update that changes nothing, then checks the new
/// folder name, if any, and gives it back in its checked form.
pub fn check_update_folder(input: &UpdateFolderInput) -> (r: Result<Option<String>, AppError>)
    ensures
        input.name is None && input.parent_folder_id is None ==> r == Err::<Option<String>, AppError>(
            AppError::Domain(DomainError::Validation("Provide a folder name or parent folder")),
        ),
        input.name is None && input.parent_folder_id is Some ==> r == Ok::<Option<String>, AppError>(None),
        input.name matches Some(name) ==> match spec_validate_folder_name(name@) {
            Ok(t) => r matches Ok(Some(s)) && s@ == t,
            Err(e) => r == Err::<Option<String>, AppError>(app_error_from_domain(e)),
        },
{
    match &input.name {
        None => {
            if input.parent_folder_id.is_none() {
                Err(AppError::Domain(DomainError::Validation("Provide a folder name or parent folder")))
            } else {
                Ok(None)
            }
        },
        Some(name) => match validate_folder_name(name.as_str()) {
            Ok(t) => Ok(Some(t)),
            Err(e) => Err(AppError::from(e)),
        },
    }
}

/// A new folder.
#[derive(Debug, Clone)]
pub struct CreateFolderInput {
    pub name: String,
    pub parent_folder_id: Option<u128>,
}

/// A request for a public link to a file, optionally expiring.
#[derive(Debug, Clone, Copy)]
pub struct CreateShareLinkInput {
    pub file_id: u128,
    pub expires_in_seconds: Option<i64>,
}

/// A new share link; `token` is shown this once.
#[derive(Debug, Clone)]
pub struct CreateShareLinkOutput {
    pub id: u128,
    pub token: String,
    pub url: String,
    pub expires_at: Option<i64>,
}

/// What a visitor of a valid share link gets.
#[derive(Debug, Clone)]
pub struct ResolveShareLinkOutput {
    pub filename: String,
    pub size_bytes: i64,
    pub content_type: String,
    pub download_url: String,
}

impl ResolveShareLinkOutput {
    /// The answer for a resolved link: the file's metadata and a download
    /// URL for its object.
    pub fn from_target(target: PublicShareTarget, download_url: String) -> (r: ResolveShareLinkOutput)
        ensures
            r.filename == target.filename,
            r.size_bytes == target.size_bytes,
            r.content_type == target.content_type,
            r.download_url == download_url,
    {
        ResolveShareLinkOutput {
            filename: target.filename,
            size_bytes: target.size_bytes,
            content_type: target.content_type,
            download_url,
        }
    }
}

/// Which part of which resumable upload to presign.
#[derive(Debug, Clone, Copy)]
pub struct PresignUploadPartInput {
    pub file_id: u128,
    pub part_number: i32,
}

/// A presigned part upload.
#[derive(Debug, Clone)]
pub struct PresignUploadPartOutput {
    pub file_id: u128,
    pub part_number: i32,
    pub upload_url: String,
    pub expires_at: i64,
    pub expected_size_bytes: i64,
}

/// A presigned download.
#[derive(Debug, Clone)]
pub struct DownloadFileOutput {
    pub download_url: String,
    pub expires_at: i64,
}

} // verus!
