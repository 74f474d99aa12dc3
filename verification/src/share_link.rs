use vstd::prelude::*;

use crate::clock::{MICROS_PER_SECOND};
use vstd::string::StringSliceAdditionalSpecFns;

use crate::crypto::{base64_url_encode, base64_url_unpadded, is_url_safe_base64_char, lemma_base64_url_unpadded_shape, random_32_bytes, sha256, sha256_digest};
use crate::errors::{AppError, DomainError};
use crate::text::{chars_of, push_char, string_from_chars};

verus! {

broadcast use vstd::string::group_string_axioms;

/// Generate an opaque 32-byte random token, base64url (no padding) encoded.
/// The plaintext token is only ever returned once, at creation time.
pub fn generate_share_token() -> (r: String)
    ensures
        exists|bytes: Seq<u8>| bytes.len() == 32 && r@ == base64_url_unpadded(bytes),
        r@.len() == 43,
        forall|i: int| 0 <= i < r@.len() ==> is_url_safe_base64_char(#[trigger] r@[i]),
{
    let bytes = random_32_bytes();
    proof {
        lemma_base64_url_unpadded_shape(bytes@);
    }
    base64_url_encode(bytes.as_slice())
}

/// Hash a share token with SHA-256. Only the hash is persisted, so a database
/// dump never leaks working links.
pub fn hash_share_token(token: &str) -> (r: Vec<u8>)
    ensures
        r@ == sha256(token.spec_bytes()),
        r@.len() == 32,
{
    sha256_digest(token.as_bytes())
}

/// `s` without its trailing `c` characters.
pub open spec fn strip_trailing(s: Seq<char>, c: char) -> Seq<char>
    decreases s.len(),
{
    if s.len() > 0 && s.last() == c {
        strip_trailing(s.drop_last(), c)
    } else {
        s
    }
}

/// The public URL of a share link: the web base URL without trailing
/// slashes, then `/s/`, then the token.
pub open spec fn spec_share_url(public_web_url: Seq<char>, token: Seq<char>) -> Seq<char> {
    strip_trailing(public_web_url, '/') + "/s/"@ + token
}

/// Builds the public URL of a share link.
pub fn share_url(public_web_url: &str, token: &str) -> (r: String)
    ensures
        r@ == spec_share_url(public_web_url@, token@),
{
    let base = chars_of(public_web_url);
    let mut end = base.len();
    proof {
        lemma_take_all(base@);
    }
    while end > 0 && base[end - 1] == '/'
        invariant
            end <= base@.len(),
            base@ == public_web_url@,
            strip_trailing(base@, '/') == strip_trailing(base@.take(end as int), '/'),
        decreases end,
    {
        proof {
            assert(base@.take(end as int).drop_last() =~= base@.take(end - 1));
        }
        end = end - 1;
    }
    let mut url = string_from_chars(&base.as_slice()[0..end]);
    assert(base@.subrange(0, end as int) =~= base@.take(end as int));
    url.append("/s/");
    url.append(token);
    url
}

/// Proves the loop start of `share_url`: nothing stripped yet.
proof fn lemma_take_all(s: Seq<char>)
    ensures
        s.take(s.len() as int) == s,
{
    assert(s.take(s.len() as int) =~= s);
}

/// The expiry a link gets: none when no lifetime is asked for, otherwise
/// `now` plus the lifetime.
pub open spec fn spec_share_link_expiry(now: int, expires_in_seconds: Option<i64>) -> Result<
    Option<int>,
    AppError,
> {
    match expires_in_seconds {
        None => Ok(None),
        Some(seconds) => if seconds <= 0 {
            Err(AppError::Domain(DomainError::Validation("expires_in_seconds must be greater than zero")))
        } else {
            Ok(Some(now + seconds * MICROS_PER_SECOND))
        },
    }
}

/// When a new share link expires: refused for a non-positive lifetime.
pub fn share_link_expiry(now: i64, expires_in_seconds: Option<i64>) -> (r: Result<Option<i64>, AppError>)
    requires
        expires_in_seconds matches Some(s) ==> s * MICROS_PER_SECOND <= i64::MAX && now + s
            * MICROS_PER_SECOND <= i64::MAX,
    ensures
        match spec_share_link_expiry(now as int, expires_in_seconds) {
            Ok(None) => r == Ok::<Option<i64>, AppError>(None),
            Ok(Some(at)) => r matches Ok(Some(x)) && x == at,
            Err(e) => r == Err::<Option<i64>, AppError>(e),
        },
{
    match expires_in_seconds {
        None => Ok(None),
        Some(seconds) => {
            if seconds <= 0 {
                return Err(
                    AppError::Domain(
                        DomainError::Validation("expires_in_seconds must be greater than zero"),
                    ),
                );
            }
            Ok(Some(now + seconds * MICROS_PER_SECOND))
        },
    }
}

/// A share link asked to expire after `s` seconds expires `s` seconds of
/// 1 000 000 microseconds after `now`; without a lifetime it never
/// expires; a lifetime that is not positive is refused.
pub proof fn lemma_share_link_expiry_counts_seconds(now: int, expires_in_seconds: Option<i64>)
    ensures
        expires_in_seconds is None ==> spec_share_link_expiry(now, expires_in_seconds) == Ok::<Option<int>, AppError>(None),
        match expires_in_seconds {
            Some(s) => (s > 0 ==> spec_share_link_expiry(now, expires_in_seconds) == Ok::<Option<int>, AppError>(
                Some(now + s * 1_000_000),
            )) && (s <= 0 ==> spec_share_link_expiry(now, expires_in_seconds) is Err),
            None => true,
        },
{
}

} // verus!
