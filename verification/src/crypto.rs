use vstd::prelude::*;
use vstd::string::StringSliceAdditionalSpecFns;

use argon2::password_hash::rand_core::{OsRng, RngCore};
use argon2::password_hash::SaltString;
use argon2::{Argon2, PasswordHash, PasswordHasher, PasswordVerifier};
use base64::engine::general_purpose::URL_SAFE_NO_PAD;
use base64::Engine;
use hmac::{Hmac, Mac};
use sha2::{Digest, Sha256};

verus! {

broadcast use vstd::string::group_string_axioms;

/// The SHA-256 digest of a byte string.
pub uninterp spec fn sha256(bytes: Seq<u8>) -> Seq<u8>;

/// `Sha256::digest` from `sha2`: the 32-byte SHA-256 digest of `bytes`.
#[verifier::external_body]
pub(crate) fn sha256_digest(bytes: &[u8]) -> (r: Vec<u8>)
    ensures
        r@ == sha256(bytes@),
        r@.len() == 32,
{
    Sha256::digest(bytes).to_vec()
}

/// The HMAC-SHA256 tag of `message` under `key`.
pub uninterp spec fn hmac_sha256_tag(key: Seq<u8>, message: Seq<u8>) -> Seq<u8>;

/// `Hmac::<Sha256>` from `hmac`: keyed with `key` (any length is accepted),
/// fed `message`, finalized into its 32-byte tag.
#[verifier::external_body]
pub(crate) fn hmac_sha256(key: &[u8], message: &[u8]) -> (r: Vec<u8>)
    ensures
        r@ == hmac_sha256_tag(key@, message@),
        r@.len() == 32,
{
    let mut mac = Hmac::<Sha256>::new_from_slice(key).expect("HMAC accepts keys of any length");
    mac.update(message);
    mac.finalize().into_bytes().to_vec()
}

/// The lowercase hexadecimal digit for `n` in `0..16`.
pub open spec fn hex_digit(n: int) -> char {
    if n < 10 {
        (n + 48) as char
    } else {
        (n + 87) as char
    }
}

/// Lowercase hexadecimal text of a byte string: two digits per byte, high
/// nibble first.
pub open spec fn hex_lower(bytes: Seq<u8>) -> Seq<char> {
    Seq::new(
        2 * bytes.len(),
        |i: int|
            if i % 2 == 0 {
                hex_digit(bytes[i / 2] as int / 16)
            } else {
                hex_digit(bytes[i / 2] as int % 16)
            },
    )
}

/// `hex::encode`: lowercase hexadecimal text of `bytes`.
#[verifier::external_body]
pub(crate) fn hex_encode(bytes: &[u8]) -> (r: String)
    ensures
        r@ == hex_lower(bytes@),
{
    hex::encode(bytes)
}

/// Length of unpadded base64 text for `n` bytes.
pub open spec fn base64_unpadded_len(n: int) -> int {
    4 * (n / 3) + if n % 3 == 0 {
        0int
    } else if n % 3 == 1 {
        2int
    } else {
        3int
    }
}

/// Whether `c` belongs to the URL-safe base64 alphabet.
pub open spec fn is_url_safe_base64_char(c: char) -> bool {
    ('A' <= c <= 'Z') || ('a' <= c <= 'z') || ('0' <= c <= '9') || c == '-' || c == '_'
}

/// The URL-safe base64 character for a 6-bit value `n` in `0..64`:
/// `A`-`Z`, `a`-`z`, `0`-`9`, then `-` and `_`.
pub open spec fn base64_url_char(n: int) -> char {
    if n < 26 {
        (n + 65) as char
    } else if n < 52 {
        (n + 71) as char
    } else if n < 62 {
        (n - 4) as char
    } else if n == 62 {
        '-'
    } else {
        '_'
    }
}

/// Unpadded URL-safe base64 text of a byte string: each group of three
/// bytes becomes four characters of six bits each, high bits first; a last
/// group of two bytes becomes three characters and one of one byte two,
/// the missing low bits taken as zero.
pub open spec fn base64_url_unpadded(bytes: Seq<u8>) -> Seq<char>
    decreases bytes.len(),
{
    if bytes.len() >= 3 {
        let (b0, b1, b2) = (bytes[0] as int, bytes[1] as int, bytes[2] as int);
        seq![
            base64_url_char(b0 / 4),
            base64_url_char((b0 % 4) * 16 + b1 / 16),
            base64_url_char((b1 % 16) * 4 + b2 / 64),
            base64_url_char(b2 % 64),
        ] + base64_url_unpadded(bytes.skip(3))
    } else if bytes.len() == 2 {
        let (b0, b1) = (bytes[0] as int, bytes[1] as int);
        seq![
            base64_url_char(b0 / 4),
            base64_url_char((b0 % 4) * 16 + b1 / 16),
            base64_url_char((b1 % 16) * 4),
        ]
    } else if bytes.len() == 1 {
        let b0 = bytes[0] as int;
        seq![base64_url_char(b0 / 4), base64_url_char((b0 % 4) * 16)]
    } else {
        Seq::empty()
    }
}

/// Base64 text has `base64_unpadded_len` characters, all from the URL-safe
/// alphabet.
pub proof fn lemma_base64_url_unpadded_shape(bytes: Seq<u8>)
    ensures
        base64_url_unpadded(bytes).len() == base64_unpadded_len(bytes.len() as int),
        forall|i: int|
            0 <= i < base64_url_unpadded(bytes).len() ==> is_url_safe_base64_char(
                #[trigger] base64_url_unpadded(bytes)[i],
            ),
    decreases bytes.len(),
{
    if bytes.len() >= 3 {
        lemma_base64_url_unpadded_shape(bytes.skip(3));
        let head = base64_url_unpadded(bytes).take(4);
        assert(base64_url_unpadded(bytes) =~= head + base64_url_unpadded(bytes.skip(3)));
        assert forall|i: int| 0 <= i < base64_url_unpadded(bytes).len() implies is_url_safe_base64_char(
            #[trigger] base64_url_unpadded(bytes)[i],
        ) by {
            if i >= 4 {
                assert(base64_url_unpadded(bytes)[i] == base64_url_unpadded(bytes.skip(3))[i - 4]);
            }
        }
    }
}

/// `URL_SAFE_NO_PAD.encode` from `base64`: URL-safe alphabet, no padding.
/// The crate panics only where the output length overflows `usize`.
#[verifier::external_body]
pub(crate) fn base64_url_encode(bytes: &[u8]) -> (r: String)
    requires
        base64_unpadded_len(bytes@.len() as int) <= usize::MAX,
    ensures
        r@ == base64_url_unpadded(bytes@),
{
    URL_SAFE_NO_PAD.encode(bytes)
}

/// `OsRng::fill_bytes` from `rand_core` (as re-exported by `argon2`): 32
/// bytes from the operating system's random source. Nothing is known of
/// their values.
#[verifier::external_body]
pub(crate) fn random_32_bytes() -> (r: Vec<u8>)
    ensures
        r@.len() == 32,
{
    let mut bytes = [0_u8; 32];
    OsRng.fill_bytes(&mut bytes);
    bytes.to_vec()
}

/// Whether `password` matches the PHC-format Argon2 hash string `hash`.
pub uninterp spec fn argon2_verifies(password: Seq<char>, hash: Seq<char>) -> bool;

/// `PasswordHash::new` followed by `Argon2::default().verify_password` from
/// `argon2`: true exactly when `hash` parses as a PHC string and `password`
/// matches it.
#[verifier::external_body]
pub(crate) fn argon2_verify(password: &str, hash: &str) -> (r: bool)
    ensures
        r == argon2_verifies(password@, hash@),
{
    PasswordHash::new(hash)
        .map(|parsed| Argon2::default().verify_password(password.as_bytes(), &parsed).is_ok())
        .unwrap_or(false)
}

/// `Argon2::default().hash_password` from `argon2` with a fresh random salt
/// (`SaltString::generate(&mut OsRng)`): a PHC hash string of `password`,
/// which `argon2_verify` accepts for the same password. The salt, and so the
/// string, differs from call to call; `None` stands for the crate's error.
/// With the default parameters and a generated 16-byte salt, the only input
/// the crate refuses is a password of more than `MAX_PWD_LEN` (`0xFFFFFFFF`)
/// bytes.
#[verifier::external_body]
pub(crate) fn argon2_hash(password: &str) -> (r: Option<String>)
    ensures
        r matches Some(hash) ==> argon2_verifies(password@, hash@),
        password.spec_bytes().len() <= 0xFFFF_FFFF ==> r is Some,
{
    let salt = SaltString::generate(&mut OsRng);
    Argon2::default()
        .hash_password(password.as_bytes(), &salt)
        .map(|hash| hash.to_string())
        .ok()
}

} // verus!
