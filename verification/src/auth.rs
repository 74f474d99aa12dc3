use vstd::prelude::*;

use crate::clock::{MICROS_PER_DAY};
use vstd::string::StringSliceAdditionalSpecFns;
use vstd::utf8::encode_utf8;

use crate::crypto::{
    argon2_hash, argon2_verifies, argon2_verify, base64_url_encode, base64_url_unpadded, is_url_safe_base64_char, lemma_base64_url_unpadded_shape, hex_digit,
    hex_lower, random_32_bytes, sha256, sha256_digest,
};
use crate::text::{
    char_is_whitespace, chars_of, is_unicode_whitespace, push_char, string_from_chars, to_lowercase,
    trim, trim_str, unicode_lowercase,
};

verus! {

broadcast use vstd::string::group_string_axioms;

/// Sessions live this many days.
pub const SESSION_TTL_DAYS: i64 = 30;

/// An account as the API shows it. `id` is the 128-bit value of a UUID;
/// `created_at` counts microseconds since the Unix epoch.
#[derive(Debug, Clone)]
pub struct User {
    pub id: u128,
    pub email: String,
    pub display_name: String,
    pub storage_quota_bytes: i64,
    pub storage_used_bytes: i64,
    pub created_at: i64,
}

/// Errors of the authentication endpoints.
#[derive(Debug, Clone, Copy, PartialEq, Eq)]
pub enum ApiError {
    Validation(&'static str),
    EmailTaken,
    InvalidCredentials,
    Unauthorized,
    QuotaExceeded,
    FileTooLarge,
    FileNotFound,
    InvalidFileState,
    StorageError,
    Internal,
}

/// Status code and JSON body fields of an error response.
#[derive(Debug, Clone, Copy, PartialEq, Eq)]
pub struct ErrorResponse {
    pub status: u16,
    pub code: &'static str,
    pub message: &'static str,
}

impl ApiError {
    /// The HTTP status, error code and message this error is answered with.
    pub fn response_parts(&self) -> (r: ErrorResponse)
        ensures
            r.status == api_error_status(*self),
            r.code@ == api_error_code(*self),
            r.message@ == api_error_message(*self),
    {
        match self {
            ApiError::Validation(message) => ErrorResponse {
                status: 422,
                code: "validation_error",
                message,
            },
            ApiError::EmailTaken => ErrorResponse {
                status: 409,
                code: "email_taken",
                message: "An account with this email already exists",
            },
            ApiError::InvalidCredentials => ErrorResponse {
                status: 401,
                code: "invalid_credentials",
                message: "Invalid email or password",
            },
            ApiError::Unauthorized => ErrorResponse {
                status: 401,
                code: "unauthorized",
                message: "Missing or invalid session token",
            },
            ApiError::QuotaExceeded => ErrorResponse {
                status: 409,
                code: "quota_exceeded",
                message: "Not enough storage quota is available",
            },
            ApiError::FileTooLarge => ErrorResponse {
                status: 413,
                code: "file_too_large",
                message: "File exceeds the maximum allowed size",
            },
            ApiError::FileNotFound => ErrorResponse {
                status: 404,
                code: "file_not_found",
                message: "File was not found",
            },
            ApiError::InvalidFileState => ErrorResponse {
                status: 409,
                code: "invalid_file_state",
                message: "File is not in the expected state",
            },
            ApiError::StorageError => ErrorResponse {
                status: 502,
                code: "storage_error",
                message: "Object storage could not satisfy the request",
            },
            ApiError::Internal => ErrorResponse {
                status: 500,
                code: "internal_error",
                message: "Something went wrong",
            },
        }
    }
}

pub open spec fn api_error_status(e: ApiError) -> u16 {
    match e {
        ApiError::Validation(_) => 422,
        ApiError::EmailTaken => 409,
        ApiError::InvalidCredentials => 401,
        ApiError::Unauthorized => 401,
        ApiError::QuotaExceeded => 409,
        ApiError::FileTooLarge => 413,
        ApiError::FileNotFound => 404,
        ApiError::InvalidFileState => 409,
        ApiError::StorageError => 502,
        ApiError::Internal => 500,
    }
}

pub open spec fn api_error_code(e: ApiError) -> Seq<char> {
    match e {
        ApiError::Validation(_) => "validation_error"@,
        ApiError::EmailTaken => "email_taken"@,
        ApiError::InvalidCredentials => "invalid_credentials"@,
        ApiError::Unauthorized => "unauthorized"@,
        ApiError::QuotaExceeded => "quota_exceeded"@,
        ApiError::FileTooLarge => "file_too_large"@,
        ApiError::FileNotFound => "file_not_found"@,
        ApiError::InvalidFileState => "invalid_file_state"@,
        ApiError::StorageError => "storage_error"@,
        ApiError::Internal => "internal_error"@,
    }
}

pub open spec fn api_error_message(e: ApiError) -> Seq<char> {
    match e {
        ApiError::Validation(message) => message@,
        ApiError::EmailTaken => "An account with this email already exists"@,
        ApiError::InvalidCredentials => "Invalid email or password"@,
        ApiError::Unauthorized => "Missing or invalid session token"@,
        ApiError::QuotaExceeded => "Not enough storage quota is available"@,
        ApiError::FileTooLarge => "File exceeds the maximum allowed size"@,
        ApiError::FileNotFound => "File was not found"@,
        ApiError::InvalidFileState => "File is not in the expected state"@,
        ApiError::StorageError => "Object storage could not satisfy the request"@,
        ApiError::Internal => "Something went wrong"@,
    }
}

/// Whether `c` occurs in `s`.
pub open spec fn has_char(s: Seq<char>, c: char) -> bool {
    exists|i: int| 0 <= i < s.len() && s[i] == c
}

/// Whether `s` holds a character with the Unicode `White_Space` property.
pub open spec fn has_whitespace(s: Seq<char>) -> bool {
    exists|i: int| 0 <= i < s.len() && is_unicode_whitespace(s[i])
}

/// Whether `s` has the shape `local@domain`: exactly one `@`, something
/// before it, and a domain that holds a `.` but neither starts nor ends with
/// one.
pub open spec fn email_shape(s: Seq<char>) -> bool {
    exists|at: int|
        0 < at < s.len() && s[at] == '@' && !has_char(s.take(at), '@') && #[trigger] domain_ok(
            s.subrange(at + 1, s.len() as int),
        )
}

/// Whether the part after `@` is an acceptable domain.
pub open spec fn domain_ok(domain: Seq<char>) -> bool {
    &&& !has_char(domain, '@')
    &&& has_char(domain, '.')
    &&& domain[0] != '.'
    &&& domain.last() != '.'
}

/// Length in bytes of the UTF-8 encoding of `chars`, as `str::len` reports it.
pub open spec fn utf8_len(chars: Seq<char>) -> usize {
    encode_utf8(chars).len() as usize
}

/// Whether an (already normalized) email address is accepted: at most 254
/// bytes, no whitespace, and of the shape `local@domain`.
pub open spec fn email_valid(email: Seq<char>) -> bool {
    &&& utf8_len(email) <= 254
    &&& !has_whitespace(email)
    &&& email_shape(email)
}

/// Whether a password is accepted: at least 8 characters, at most 128 bytes.
pub open spec fn password_valid(password: Seq<char>) -> bool {
    password.len() >= 8 && utf8_len(password) <= 128
}

/// Whether a display name is accepted: 1 to 100 characters.
pub open spec fn display_name_valid(name: Seq<char>) -> bool {
    1 <= name.len() <= 100
}

/// Index of the first `c` in `chars`, if any.
pub fn find_char(chars: &[char], c: char) -> (r: Option<usize>)
    ensures
        r is None ==> !has_char(chars@, c),
        r matches Some(i) ==> i < chars@.len() && chars@[i as int] == c && !has_char(
            chars@.take(i as int),
            c,
        ),
{
    let n = chars.len();
    for i in 0..n
        invariant
            n == chars@.len(),
            !has_char(chars@.take(i as int), c),
    {
        if chars[i] == c {
            return Some(i);
        }
        proof {
            assert forall|k: int| 0 <= k < i + 1 implies #[trigger] chars@.take(i + 1)[k] != c by {
                if k < i {
                    assert(chars@.take(i as int)[k] == chars@.take(i + 1)[k]);
                }
            }
        }
    }
    assert(chars@.take(n as int) =~= chars@);
    None
}

/// Accepts an email address that is at most 254 bytes long, holds no
/// whitespace and has the shape `local@domain` with a dotted domain.
pub fn validate_email(email: &str) -> (r: Result<(), ApiError>)
    ensures
        r is Ok <==> email_valid(email@),
        r is Err ==> r == Err::<(), ApiError>(ApiError::Validation("Enter a valid email address")),
{
    if email.len() > 254 {
        return Err(ApiError::Validation("Enter a valid email address"));
    }
    let chars = chars_of(email);
    let n = chars.len();
    for i in 0..n
        invariant
            n == chars@.len(),
            chars@ == email@,
            forall|k: int| 0 <= k < i ==> !is_unicode_whitespace(chars@[k]),
    {
        if char_is_whitespace(chars[i]) {
            assert(has_whitespace(email@));
            return Err(ApiError::Validation("Enter a valid email address"));
        }
    }
    let at = match find_char(chars.as_slice(), '@') {
        Some(at) => at,
        None => {
            assert(!email_shape(email@));
            return Err(ApiError::Validation("Enter a valid email address"));
        },
    };
    let domain = &chars.as_slice()[at + 1..n];
    assert(domain@ == email@.subrange(at + 1, n as int));
    proof {
        assert forall|a: int|
            0 < a < email@.len() && email@[a] == '@' && !has_char(email@.take(a), '@') implies a
            == at by {
            if a < at {
                assert(chars@.take(at as int)[a] == '@');
            } else if a > at {
                assert(email@.take(a)[at as int] == '@');
            }
        }
    }
    if at == 0 {
        return Err(ApiError::Validation("Enter a valid email address"));
    }
    let domain_len = domain.len();
    if domain_len == 0 {
        assert(!domain_ok(domain@));
        return Err(ApiError::Validation("Enter a valid email address"));
    }
    if find_char(domain, '@').is_some() || find_char(domain, '.').is_none()
        || domain[0] == '.' || domain[domain_len - 1] == '.' {
        assert(!domain_ok(domain@));
        return Err(ApiError::Validation("Enter a valid email address"));
    }
    assert(domain_ok(domain@));
    assert(!has_whitespace(email@));
    assert(email_shape(email@));
    Ok(())
}


/// Accepts a password of at least 8 characters and at most 128 bytes.
pub fn validate_password(password: &str) -> (r: Result<(), ApiError>)
    ensures
        r is Ok <==> password_valid(password@),
        r is Err ==> r == Err::<(), ApiError>(
            ApiError::Validation("Password must be between 8 and 128 characters"),
        ),
{
    let chars = chars_of(password);
    if chars.len() >= 8 && password.len() <= 128 {
        Ok(())
    } else {
        Err(ApiError::Validation("Password must be between 8 and 128 characters"))
    }
}

/// Accepts a display name of 1 to 100 characters.
pub fn validate_display_name(display_name: &str) -> (r: Result<(), ApiError>)
    ensures
        r is Ok <==> display_name_valid(display_name@),
        r is Err ==> r == Err::<(), ApiError>(
            ApiError::Validation("Name must be between 1 and 100 characters"),
        ),
{
    let chars = chars_of(display_name);
    if !display_name.is_empty() && chars.len() <= 100 {
        Ok(())
    } else {
        Err(ApiError::Validation("Name must be between 1 and 100 characters"))
    }
}

/// The canonical form of an email address: trimmed, then lowercased.
pub open spec fn spec_normalize_email(email: Seq<char>) -> Seq<char> {
    unicode_lowercase(trim(email))
}

/// Trims and lowercases an email address.
pub fn normalize_email(email: &str) -> (r: String)
    ensures
        r@ == spec_normalize_email(email@),
{
    let trimmed = trim_str(email);
    to_lowercase(trimmed.as_str())
}

/// The stored form of a session token: the lowercase hexadecimal SHA-256
/// digest of its UTF-8 bytes.
pub open spec fn spec_hash_token(token: &str) -> Seq<char> {
    hex_lower(sha256(token.spec_bytes()))
}

/// Hashes a session token for storage; only the hash is ever persisted.
pub fn hash_token(token: &str) -> (r: String)
    ensures
        r@ == spec_hash_token(token),
        r@.len() == 64,
{
    let digest = sha256_digest(token.as_bytes());
    let n = digest.len();
    let mut out = String::new();
    for i in 0..n
        invariant
            n == digest@.len() == 32,
            digest@ == sha256(token.spec_bytes()),
            out@ == hex_lower(digest@.take(i as int)),
    {
        let b = digest[i];
        let hi = b / 16;
        let lo = b % 16;
        let c_hi = if hi < 10 {
            (hi + 48) as char
        } else {
            (hi + 87) as char
        };
        let c_lo = if lo < 10 {
            (lo + 48) as char
        } else {
            (lo + 87) as char
        };
        let ghost before = out@;
        push_char(&mut out, c_hi);
        push_char(&mut out, c_lo);
        proof {
            let next = digest@.take(i + 1);
            assert forall|k: int| 0 <= k < 2 * (i + 1) implies #[trigger] out@[k] == hex_lower(
                next,
            )[k] by {
                if k < 2 * i {
                    assert(next[k / 2] == digest@.take(i as int)[k / 2]);
                }
            }
            assert(out@ =~= hex_lower(next));
        }
    }
    assert(digest@.take(32) =~= digest@);
    out
}

/// Generates an opaque 32-byte random token, base64url (no padding) encoded.
/// The plaintext token is only ever returned once, at creation time.
pub fn generate_token() -> (r: String)
    ensures
        exists|bytes: Seq<u8>| bytes.len() == 32 && r@ == base64_url_unpadded(bytes),
        r@.len() == 43,
        forall|i: int| 0 <= i < r@.len() ==> is_url_safe_base64_char(#[trigger] r@[i]),
{
    let bytes = random_32_bytes();
    proof {
        lemma_base64_url_unpadded_shape(bytes@);
    }
    base64_url_encode(bytes.as_slice())
}

/// Hashes a password into a PHC string with a fresh salt; the result always
/// verifies against the same password, and hashing succeeds for every
/// password of at most `0xFFFFFFFF` bytes.
pub fn hash_password(password: &str) -> (r: Result<String, ApiError>)
    ensures
        r matches Ok(hash) ==> argon2_verifies(password@, hash@),
        r is Err ==> r == Err::<String, ApiError>(ApiError::Internal),
        password.spec_bytes().len() <= 0xFFFF_FFFF ==> r is Ok,
{
    match argon2_hash(password) {
        Some(hash) => Ok(hash),
        None => Err(ApiError::Internal),
    }
}

/// Whether `password` matches the stored hash; a hash that does not parse
/// matches nothing.
pub fn verify_password(password: &str, hash: &str) -> (r: bool)
    ensures
        r == argon2_verifies(password@, hash@),
{
    argon2_verify(password, hash)
}

/// A throwaway password hash, verified against when an email is unknown so
/// that the response time does not reveal whether an account exists.
pub fn dummy_hash() -> (r: Result<String, ApiError>)
    ensures
        r matches Ok(hash) && argon2_verifies("not-a-real-password"@, hash@),
{
    let password = "not-a-real-password";
    proof {
        reveal_strlit("not-a-real-password");
    }
    assert(password.is_ascii());
    assert(password.spec_bytes().len() == 19);
    hash_password(password)
}

/// The token of an `Authorization` header value of the form `Bearer <token>`.
pub open spec fn spec_bearer_token(header: Seq<char>) -> Option<Seq<char>> {
    if header.len() >= 7 && header.take(7) == "Bearer "@ {
        Some(header.skip(7))
    } else {
        None
    }
}

/// Extracts the token from an `Authorization` header value; a missing header
/// or another scheme gives `None`.
pub fn bearer_token(header: Option<&str>) -> (r: Option<String>)
    ensures
        r matches Some(t) ==> header matches Some(h) && spec_bearer_token(h@) == Some(t@),
        r is None ==> header is None || spec_bearer_token(header->0@) is None,
{
    match header {
        None => None,
        Some(h) => {
            let chars = chars_of(h);
            let prefix = chars_of("Bearer ");
            proof {
                reveal_strlit("Bearer ");
            }
            if chars.len() < 7 {
                return None;
            }
            for i in 0..7
                invariant
                    chars@ == h@,
                    header == Some(h),
                    prefix@ == "Bearer "@,
                    prefix@.len() == 7,
                    chars@.len() >= 7,
                    forall|k: int| 0 <= k < i ==> chars@[k] == prefix@[k],
            {
                if chars[i] != prefix[i] {
                    assert(h@.take(7)[i as int] != "Bearer "@[i as int]);
                    return None;
                }
            }
            assert(h@.take(7) =~= "Bearer "@);
            let rest = &chars.as_slice()[7..chars.len()];
            assert(rest@ =~= h@.skip(7));
            Some(string_from_chars(rest))
        },
    }
}

/// The deadline of a session created at `now` (microseconds).
pub open spec fn spec_session_expiry(now: int) -> int {
    now + SESSION_TTL_DAYS * MICROS_PER_DAY
}

/// Deadline of a session created at `now`: thirty days later.
pub fn session_expiry(now: i64) -> (r: i64)
    requires
        spec_session_expiry(now as int) <= i64::MAX,
    ensures
        r == spec_session_expiry(now as int),
{
    now + SESSION_TTL_DAYS * MICROS_PER_DAY
}

/// A sign-up request.
#[derive(Debug, Clone)]
pub struct SignupRequest {
    pub email: String,
    pub password: String,
    pub display_name: String,
}

/// A log-in request.
#[derive(Debug, Clone)]
pub struct LoginRequest {
    pub email: String,
    pub password: String,
}

/// What a sign-up stores, after normalization and validation.
#[derive(Debug, Clone)]
pub struct NewAccount {
    pub email: String,
    pub display_name: String,
}

/// Normalizes and validates a sign-up request: the email is trimmed and
/// lowercased and the display name trimmed; then the email, the password
/// and the display name are checked in that order.
pub fn prepare_signup(request: &SignupRequest) -> (r: Result<NewAccount, ApiError>)
    ensures
        ({
            let email = spec_normalize_email(request.email@);
            let name = trim(request.display_name@);
            &&& r is Ok <==> email_valid(email) && password_valid(request.password@)
                && display_name_valid(name)
            &&& r matches Ok(account) ==> account.email@ == email && account.display_name@ == name
            &&& !email_valid(email) ==> r == Err::<NewAccount, ApiError>(
                ApiError::Validation("Enter a valid email address"),
            )
            &&& email_valid(email) && !password_valid(request.password@) ==> r == Err::<
                NewAccount,
                ApiError,
            >(ApiError::Validation("Password must be between 8 and 128 characters"))
            &&& email_valid(email) && password_valid(request.password@) && !display_name_valid(
                name,
            ) ==> r == Err::<NewAccount, ApiError>(
                ApiError::Validation("Name must be between 1 and 100 characters"),
            )
        }),
{
    let email = normalize_email(request.email.as_str());
    let display_name = trim_str(request.display_name.as_str());
    validate_email(email.as_str())?;
    validate_password(request.password.as_str())?;
    validate_display_name(display_name.as_str())?;
    Ok(NewAccount { email, display_name })
}


/// A signed-in user and the plaintext session token handed back once.
#[derive(Debug, Clone)]
pub struct AuthResponse {
    pub user: User,
    pub token: String,
}

/// The outcome of a log-in: the account when one was found for the email
/// and the password verified against its hash, `InvalidCredentials`
/// otherwise (the same answer for an unknown email and a wrong password).
pub fn login_result(user: Option<User>, verified: bool) -> (r: Result<User, ApiError>)
    ensures
        r is Ok <==> user is Some && verified,
        r matches Ok(u) ==> user == Some(u),
        r is Err ==> r == Err::<User, ApiError>(ApiError::InvalidCredentials),
{
    match user {
        Some(u) => {
            if verified {
                Ok(u)
            } else {
                Err(ApiError::InvalidCredentials)
            }
        },
        None => Err(ApiError::InvalidCredentials),
    }
}

/// A session expires exactly thirty days of 86 400 000 000 microseconds
/// after it was created, and expiries keep the order of creation times.
pub proof fn lemma_session_lasts_thirty_days(now: int, later: int)
    ensures
        spec_session_expiry(now) == now + 2_592_000_000_000,
        spec_session_expiry(later) - spec_session_expiry(now) == later - now,
{
}

} // verus!
