use vstd::prelude::*;

use crate::errors::DomainError;
use crate::text::{chars_of, trim, trim_str};

verus! {

/// The longest file name, folder name or content type accepted, in
/// characters.
pub const MAX_NAME_CHARS: usize = 255;

/// Whether `c` is a control character (`U+0000..U+001F` or `U+007F`).
pub open spec fn is_control(c: char) -> bool {
    (c as u32) < 32 || (c as u32) == 127
}

/// Whether `c` may not stand in a name: a control character, and for file
/// and folder names also a path separator.
pub open spec fn forbidden_char(c: char, separators_forbidden: bool) -> bool {
    is_control(c) || (separators_forbidden && (c == '/' || c == '\\'))
}

/// What is wrong with a trimmed name, if anything.
#[derive(Debug, Clone, Copy, PartialEq, Eq)]
pub enum NameProblem {
    Empty,
    TooLong,
    ForbiddenChar,
}

/// The first problem of a trimmed name: empty, longer than
/// `MAX_NAME_CHARS` characters, or holding a forbidden character.
pub open spec fn name_problem(t: Seq<char>, separators_forbidden: bool) -> Option<NameProblem> {
    if t.len() == 0 {
        Some(NameProblem::Empty)
    } else if t.len() > MAX_NAME_CHARS {
        Some(NameProblem::TooLong)
    } else if exists|i: int| 0 <= i < t.len() && forbidden_char(#[trigger] t[i], separators_forbidden) {
        Some(NameProblem::ForbiddenChar)
    } else {
        None
    }
}

fn char_forbidden(c: char, separators_forbidden: bool) -> (r: bool)
    ensures
        r == forbidden_char(c, separators_forbidden),
{
    let code = c as u32;
    code < 32 || code == 127 || (separators_forbidden && (c == '/' || c == '\\'))
}

/// Finds the problem of a trimmed name.
fn find_name_problem(t: &str, separators_forbidden: bool) -> (r: Option<NameProblem>)
    ensures
        r == name_problem(t@, separators_forbidden),
{
    let chars = chars_of(t);
    let n = chars.len();
    if n == 0 {
        return Some(NameProblem::Empty);
    }
    if n > MAX_NAME_CHARS {
        return Some(NameProblem::TooLong);
    }
    for i in 0..n
        invariant
            n == chars@.len(),
            0 < n <= MAX_NAME_CHARS,
            chars@ == t@,
            forall|j: int| 0 <= j < i ==> !forbidden_char(#[trigger] chars@[j], separators_forbidden),
    {
        if char_forbidden(chars[i], separators_forbidden) {
            assert(forbidden_char(t@[i as int], separators_forbidden));
            return Some(NameProblem::ForbiddenChar);
        }
    }
    None
}

/// The error a file name problem is answered with.
pub open spec fn filename_error(p: NameProblem) -> DomainError {
    match p {
        NameProblem::Empty => DomainError::Validation("Filename is required"),
        NameProblem::TooLong => DomainError::Validation("Filename must be at most 255 characters"),
        NameProblem::ForbiddenChar => DomainError::Validation(
            "Filename cannot contain slashes or control characters",
        ),
    }
}

/// The error a folder name problem is answered with.
pub open spec fn folder_name_error(p: NameProblem) -> DomainError {
    match p {
        NameProblem::Empty => DomainError::Validation("Folder name is required"),
        NameProblem::TooLong => DomainError::Validation("Folder name must be at most 255 characters"),
        NameProblem::ForbiddenChar => DomainError::Validation(
            "Folder name cannot contain slashes or control characters",
        ),
    }
}

/// The error a content type problem is answered with.
pub open spec fn content_type_error(p: NameProblem) -> DomainError {
    match p {
        NameProblem::Empty => DomainError::Validation("Content type is required"),
        NameProblem::TooLong => DomainError::Validation("Content type must be at most 255 characters"),
        NameProblem::ForbiddenChar => DomainError::Validation(
            "Content type cannot contain control characters",
        ),
    }
}

/// A file name as stored: trimmed, and refused when it is empty, too long,
/// or holds a slash, a backslash or a control character.
pub open spec fn spec_validate_filename(name: Seq<char>) -> Result<Seq<char>, DomainError> {
    match name_problem(trim(name), true) {
        Some(p) => Err(filename_error(p)),
        None => Ok(trim(name)),
    }
}

/// A folder name as stored, under the same rules as a file name.
pub open spec fn spec_validate_folder_name(name: Seq<char>) -> Result<Seq<char>, DomainError> {
    match name_problem(trim(name), true) {
        Some(p) => Err(folder_name_error(p)),
        None => Ok(trim(name)),
    }
}

/// A content type as stored: trimmed, and refused when it is empty, too
/// long, or holds a control character.
pub open spec fn spec_validate_content_type(content_type: Seq<char>) -> Result<Seq<char>, DomainError> {
    match name_problem(trim(content_type), false) {
        Some(p) => Err(content_type_error(p)),
        None => Ok(trim(content_type)),
    }
}

/// Checks and trims a file name.
pub fn validate_filename(name: &str) -> (r: Result<String, DomainError>)
    ensures
        match spec_validate_filename(name@) {
            Ok(t) => r matches Ok(s) && s@ == t,
            Err(e) => r == Err::<String, DomainError>(e),
        },
{
    let t = trim_str(name);
    match find_name_problem(t.as_str(), true) {
        Some(NameProblem::Empty) => Err(DomainError::Validation("Filename is required")),
        Some(NameProblem::TooLong) => Err(DomainError::Validation("Filename must be at most 255 characters")),
        Some(NameProblem::ForbiddenChar) => Err(
            DomainError::Validation("Filename cannot contain slashes or control characters"),
        ),
        None => Ok(t),
    }
}

/// Checks and trims a folder name.
pub fn validate_folder_name(name: &str) -> (r: Result<String, DomainError>)
    ensures
        match spec_validate_folder_name(name@) {
            Ok(t) => r matches Ok(s) && s@ == t,
            Err(e) => r == Err::<String, DomainError>(e),
        },
{
    let t = trim_str(name);
    match find_name_problem(t.as_str(), true) {
        Some(NameProblem::Empty) => Err(DomainError::Validation("Folder name is required")),
        Some(NameProblem::TooLong) => Err(
            DomainError::Validation("Folder name must be at most 255 characters"),
        ),
        Some(NameProblem::ForbiddenChar) => Err(
            DomainError::Validation("Folder name cannot contain slashes or control characters"),
        ),
        None => Ok(t),
    }
}

/// Checks and trims a content type.
pub fn validate_content_type(content_type: &str) -> (r: Result<String, DomainError>)
    ensures
        match spec_validate_content_type(content_type@) {
            Ok(t) => r matches Ok(s) && s@ == t,
            Err(e) => r == Err::<String, DomainError>(e),
        },
{
    let t = trim_str(content_type);
    match find_name_problem(t.as_str(), false) {
        Some(NameProblem::Empty) => Err(DomainError::Validation("Content type is required")),
        Some(NameProblem::TooLong) => Err(
            DomainError::Validation("Content type must be at most 255 characters"),
        ),
        Some(NameProblem::ForbiddenChar) => Err(
            DomainError::Validation("Content type cannot contain control characters"),
        ),
        None => Ok(t),
    }
}

/// Whether a declared size is acceptable: not negative (a `Validation`
/// error) and at most the configured maximum (`FileTooLarge`).
pub open spec fn spec_validate_size(size_bytes: i64, max_file_size_bytes: i64) -> Result<(), DomainError> {
    if size_bytes < 0 {
        Err(DomainError::Validation("size_bytes must be greater than or equal to zero"))
    } else if size_bytes > max_file_size_bytes {
        Err(DomainError::FileTooLarge)
    } else {
        Ok(())
    }
}

/// Refuses a negative size, then a size above `max_file_size_bytes`.
pub fn validate_size(size_bytes: i64, max_file_size_bytes: i64) -> (r: Result<(), DomainError>)
    ensures
        r == spec_validate_size(size_bytes, max_file_size_bytes),
        r is Ok <==> 0 <= size_bytes <= max_file_size_bytes,
{
    if size_bytes < 0 {
        Err(DomainError::Validation("size_bytes must be greater than or equal to zero"))
    } else if size_bytes > max_file_size_bytes {
        Err(DomainError::FileTooLarge)
    } else {
        Ok(())
    }
}

/// Whether `c` is a hexadecimal digit, in either case.
pub open spec fn is_hex_char(c: char) -> bool {
    (48 <= (c as u32) <= 57) || (97 <= (c as u32) <= 102) || (65 <= (c as u32) <= 70)
}

/// Whether a trimmed checksum is a SHA-256 digest in hex: 64 hex digits.
pub open spec fn is_sha256_hex(t: Seq<char>) -> bool {
    t.len() == 64 && forall|i: int| 0 <= i < 64 ==> is_hex_char(#[trigger] t[i])
}

/// A declared checksum as stored: none stays none; one is trimmed and
/// must be 64 hexadecimal digits.
pub open spec fn spec_validate_checksum(checksum: Option<Seq<char>>) -> Result<Option<Seq<char>>, DomainError> {
    match checksum {
        None => Ok(None),
        Some(c) => if is_sha256_hex(trim(c)) {
            Ok(Some(trim(c)))
        } else {
            Err(DomainError::Validation("checksum_sha256 must be 64 hexadecimal characters"))
        },
    }
}

fn char_is_hex(c: char) -> (r: bool)
    ensures
        r == is_hex_char(c),
{
    let code = c as u32;
    (48 <= code && code <= 57) || (97 <= code && code <= 102) || (65 <= code && code <= 70)
}

/// Checks and trims a declared SHA-256 checksum.
pub fn validate_checksum(checksum: Option<&str>) -> (r: Result<Option<String>, DomainError>)
    ensures
        match spec_validate_checksum(
            match checksum {
                Some(c) => Some(c@),
                None => None,
            },
        ) {
            Ok(None) => r == Ok::<Option<String>, DomainError>(None),
            Ok(Some(t)) => r matches Ok(Some(s)) && s@ == t,
            Err(e) => r == Err::<Option<String>, DomainError>(e),
        },
{
    match checksum {
        None => Ok(None),
        Some(c) => {
            let t = trim_str(c);
            let chars = chars_of(t.as_str());
            let n = chars.len();
            if n != 64 {
                return Err(DomainError::Validation("checksum_sha256 must be 64 hexadecimal characters"));
            }
            for i in 0..n
                invariant
                    n == chars@.len() == 64,
                    chars@ == t@,
                    t@ == trim(c@),
                    checksum == Some(c),
                    forall|j: int| 0 <= j < i ==> is_hex_char(#[trigger] chars@[j]),
            {
                if !char_is_hex(chars[i]) {
                    assert(!is_hex_char(trim(c@)[i as int]));
                    return Err(DomainError::Validation("checksum_sha256 must be 64 hexadecimal characters"));
                }
            }
            Ok(Some(t))
        },
    }
}

/// A search query as used: trimmed, and refused when nothing is left.
pub open spec fn spec_validate_search_query(query: Seq<char>) -> Result<Seq<char>, DomainError> {
    if trim(query).len() == 0 {
        Err(DomainError::Validation("Enter a search query"))
    } else {
        Ok(trim(query))
    }
}

/// Checks and trims a search query.
pub fn validate_search_query(query: &str) -> (r: Result<String, DomainError>)
    ensures
        match spec_validate_search_query(query@) {
            Ok(t) => r matches Ok(s) && s@ == t,
            Err(e) => r == Err::<String, DomainError>(e),
        },
{
    let t = trim_str(query);
    let chars = chars_of(t.as_str());
    if chars.len() == 0 {
        Err(DomainError::Validation("Enter a search query"))
    } else {
        Ok(t)
    }
}

} // verus!
