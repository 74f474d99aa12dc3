use vstd::prelude::*;
use vstd::string::StringSliceAdditionalSpecFns;

use crate::auth::find_char;
use crate::clock::SystemClock;
use crate::clock::{format_utc, utc_formatted, within_chrono_range};
use crate::crypto::{hmac_sha256, hmac_sha256_tag};
use crate::errors::StorageError;
use crate::files::{CompletedUploadPart, ObjectMetadata};
use crate::sigv4::{
    canonical_query, canonical_request, canonical_uri, credential_scope, pair_texts, signature,
    spec_canonical_query, spec_canonical_request, spec_canonical_uri, spec_credential_scope,
    spec_signature, spec_string_to_sign, string_to_sign,
};
use crate::clock::MICROS_PER_SECOND;
use crate::resumable::{spec_upload_expiry, upload_expiry};
use crate::storage::PresignedUrl;
use crate::text::{
    chars_of, i32_decimal, i32_to_text, i64_decimal, i64_to_text, parse_i64, parsed_i64, push_char,
    split_on, split_text, string_from_chars, texts, trim, trim_str,
};
use crate::url_text::{
    append_query_pair, clear_path, host_text, parse_url, parsed_url, path_text, port_number,
    push_path_segment, query_pairs, replace_host, url_host_replaced, url_host_text,
    url_pair_appended, url_path_cleared, url_path_text, url_port_number, url_query_pairs,
    url_segment_pushed,
};

verus! {

broadcast use vstd::string::group_string_axioms;

/// Whether `pattern` occurs in `s` at index `i`.
pub open spec fn occurs_at(s: Seq<char>, pattern: Seq<char>, i: int) -> bool {
    0 <= i && i + pattern.len() <= s.len() && s.subrange(i, i + pattern.len()) == pattern
}

/// Index of the first occurrence of `pattern` in `s`, as `str::find` gives it.
#[verifier::opaque]
pub open spec fn first_occurrence(s: Seq<char>, pattern: Seq<char>) -> Option<int> {
    if exists|i: int| occurs_at(s, pattern, i) {
        Some(choose|i: int| occurs_at(s, pattern, i) && forall|j: int| 0 <= j < i ==> !occurs_at(s, pattern, j))
    } else {
        None
    }
}

proof fn lemma_first_occurrence_is(s: Seq<char>, pattern: Seq<char>, i: int)
    requires
        occurs_at(s, pattern, i),
        forall|j: int| 0 <= j < i ==> !occurs_at(s, pattern, j),
    ensures
        first_occurrence(s, pattern) == Some(i),
{
    reveal(first_occurrence);
    let k = choose|k: int| occurs_at(s, pattern, k) && forall|j: int| 0 <= j < k ==> !occurs_at(s, pattern, j);
    assert(occurs_at(s, pattern, k) && forall|j: int| 0 <= j < k ==> !occurs_at(s, pattern, j));
    if k < i {
        assert(!occurs_at(s, pattern, k));
    }
    if i < k {
        assert(!occurs_at(s, pattern, i));
    }
}

/// Index of the first occurrence of `pattern` in `s`, searching from the start.
pub fn find_pattern(s: &[char], pattern: &[char]) -> (r: Option<usize>)
    ensures
        r is None ==> first_occurrence(s@, pattern@) is None,
        r matches Some(i) ==> first_occurrence(s@, pattern@) == Some(i as int) && i
            + pattern@.len() <= s@.len() && occurs_at(s@, pattern@, i as int),
{
    let n = s.len();
    let m = pattern.len();
    if m == 0 {
        assert(s@.subrange(0, 0) =~= pattern@);
        proof {
            lemma_first_occurrence_is(s@, pattern@, 0);
        }
        return Some(0);
    }
    if m > n {
        assert forall|i: int| !occurs_at(s@, pattern@, i) by {}
        reveal(first_occurrence);
        return None;
    }
    let mut i: usize = 0;
    while i <= n - m
        invariant
            0 < m <= n,
            n == s@.len(),
            m == pattern@.len(),
            i <= n - m + 1,
            forall|j: int| 0 <= j < i ==> !occurs_at(s@, pattern@, j),
        decreases n - m + 1 - i,
    {
        let mut k: usize = 0;
        let mut same = true;
        while k < m
            invariant
                m <= n,
                n == s@.len(),
                m == pattern@.len(),
                i + m <= n,
                k <= m,
                same ==> forall|t: int| 0 <= t < k ==> s@[i + t] == pattern@[t],
                !same ==> !occurs_at(s@, pattern@, i as int),
            decreases m - k,
        {
            if s[i + k] != pattern[k] {
                proof {
                    if occurs_at(s@, pattern@, i as int) {
                        assert(s@.subrange(i as int, i + m)[k as int] == s@[i + k]);
                    }
                }
                same = false;
            }
            k = k + 1;
        }
        if same {
            assert(s@.subrange(i as int, i + m) =~= pattern@);
            proof {
                lemma_first_occurrence_is(s@, pattern@, i as int);
            }
            return Some(i);
        }
        i = i + 1;
    }
    assert forall|j: int| !occurs_at(s@, pattern@, j) by {
        if 0 <= j && j + m <= n {
            assert(j < i);
        }
    }
    reveal(first_occurrence);
    None
}

/// The text between the first `<tag>` and the first `</tag>` after it.
pub open spec fn spec_extract_xml_text(xml: Seq<char>, tag: Seq<char>) -> Option<Seq<char>> {
    let open = "<"@ + tag + ">"@;
    let close = "</"@ + tag + ">"@;
    match first_occurrence(xml, open) {
        None => None,
        Some(o) => {
            let start = o + open.len();
            match first_occurrence(xml.subrange(start, xml.len() as int), close) {
                None => None,
                Some(c) => Some(xml.subrange(start, start + c)),
            }
        },
    }
}

/// Reads the text of the first `<tag>...</tag>` element of an XML body.
pub fn extract_xml_text(xml: &str, tag: &str) -> (r: Option<String>)
    ensures
        r is None ==> spec_extract_xml_text(xml@, tag@) is None,
        r matches Some(t) ==> spec_extract_xml_text(xml@, tag@) == Some(t@),
{
    let mut open = String::new();
    open.append("<");
    open.append(tag);
    open.append(">");
    let mut close = String::new();
    close.append("</");
    close.append(tag);
    close.append(">");
    let text = chars_of(xml);
    let open_chars = chars_of(open.as_str());
    let close_chars = chars_of(close.as_str());
    assert(open_chars@ == "<"@ + tag@ + ">"@);
    assert(close_chars@ == "</"@ + tag@ + ">"@);
    let o = match find_pattern(text.as_slice(), open_chars.as_slice()) {
        Some(o) => o,
        None => {
            return None;
        },
    };
    let text_len = text.len();
    let start = o + open_chars.len();
    let rest = &text.as_slice()[start..text_len];
    let c = match find_pattern(rest, close_chars.as_slice()) {
        Some(c) => c,
        None => {
            return None;
        },
    };
    assert(rest@.subrange(c as int, c + close_chars@.len()) == close_chars@);
    let end = start + c;
    Some(string_from_chars(&text.as_slice()[start..end]))
}


/// How one character is written inside XML text.
pub open spec fn xml_escape_char(c: char) -> Seq<char> {
    if c == '&' {
        "&amp;"@
    } else if c == '<' {
        "&lt;"@
    } else if c == '>' {
        "&gt;"@
    } else if c == '"' {
        "&quot;"@
    } else if c == '\'' {
        "&apos;"@
    } else {
        seq![c]
    }
}

/// XML text for `s`: `&`, `<`, `>`, `"` and `'` become entities.
pub open spec fn spec_escape_xml(s: Seq<char>) -> Seq<char>
    decreases s.len(),
{
    if s.len() == 0 {
        Seq::empty()
    } else {
        spec_escape_xml(s.drop_last()) + xml_escape_char(s.last())
    }
}

/// Escapes the five XML special characters.
pub fn escape_xml(value: &str) -> (r: String)
    ensures
        r@ == spec_escape_xml(value@),
{
    let chars = chars_of(value);
    let n = chars.len();
    let mut out = String::new();
    for i in 0..n
        invariant
            n == chars@.len(),
            chars@ == value@,
            out@ == spec_escape_xml(chars@.take(i as int)),
    {
        let c = chars[i];
        if c == '&' {
            out.append("&amp;");
        } else if c == '<' {
            out.append("&lt;");
        } else if c == '>' {
            out.append("&gt;");
        } else if c == '"' {
            out.append("&quot;");
        } else if c == '\'' {
            out.append("&apos;");
        } else {
            push_char(&mut out, c);
            assert(seq![c] =~= Seq::<char>::empty().push(c));
        }
        proof {
            assert(chars@.take(i + 1).drop_last() =~= chars@.take(i as int));
            assert(chars@.take(i + 1).last() == c);
        }
    }
    assert(chars@.take(n as int) =~= chars@);
    out
}

/// The XML fragment for one completed part.
pub open spec fn part_xml(part: CompletedUploadPart) -> Seq<char> {
    "<Part>"@ + "<PartNumber>"@ + i32_decimal(part.part_number) + "</PartNumber>"@
        + "<ETag>"@ + spec_escape_xml(part.etag@) + "</ETag>"@ + "</Part>"@
}

/// The XML fragments of a run of parts, in order.
pub open spec fn parts_xml(parts: Seq<CompletedUploadPart>) -> Seq<char>
    decreases parts.len(),
{
    if parts.len() == 0 {
        Seq::empty()
    } else {
        parts_xml(parts.drop_last()) + part_xml(parts.last())
    }
}

/// The body of a `CompleteMultipartUpload` request listing `parts`.
pub open spec fn spec_complete_multipart_xml(parts: Seq<CompletedUploadPart>) -> Seq<char> {
    "<CompleteMultipartUpload>"@ + parts_xml(parts) + "</CompleteMultipartUpload>"@
}

/// Builds the body of a `CompleteMultipartUpload` request.
pub fn complete_multipart_xml(parts: &[CompletedUploadPart]) -> (r: String)
    ensures
        r@ == spec_complete_multipart_xml(parts@),
{
    let mut xml = String::new();
    xml.append("<CompleteMultipartUpload>");
    let n = parts.len();
    for i in 0..n
        invariant
            n == parts@.len(),
            xml@ == "<CompleteMultipartUpload>"@ + parts_xml(parts@.take(i as int)),
    {
        let part = &parts[i];
        let ghost before = xml@;
        xml.append("<Part>");
        xml.append("<PartNumber>");
        let number = i32_to_text(part.part_number);
        xml.append(number.as_str());
        xml.append("</PartNumber>");
        xml.append("<ETag>");
        let etag = escape_xml(part.etag.as_str());
        xml.append(etag.as_str());
        xml.append("</ETag>");
        xml.append("</Part>");
        proof {
            assert(parts@.take(i + 1).drop_last() =~= parts@.take(i as int));
            assert(parts@.take(i + 1).last() == *part);
            assert(xml@ =~= before + part_xml(*part));
            assert(xml@ =~= "<CompleteMultipartUpload>"@ + parts_xml(parts@.take(i + 1)));
        }
    }
    xml.append("</CompleteMultipartUpload>");
    assert(parts@.take(n as int) =~= parts@);
    xml
}

/// Whether a byte is left as is by SigV4 percent-encoding.
pub open spec fn is_unreserved(b: u8) -> bool {
    (65 <= b <= 90) || (97 <= b <= 122) || (48 <= b <= 57) || b == 45 || b == 95 || b == 46 || b
        == 126
}

/// The uppercase hexadecimal digit for `n` in `0..16`.
pub open spec fn hex_digit_upper(n: int) -> char {
    if n < 10 {
        (n + 48) as char
    } else {
        (n + 55) as char
    }
}

/// How one byte is written by SigV4 percent-encoding.
pub open spec fn percent_encode_byte(b: u8) -> Seq<char> {
    if is_unreserved(b) {
        seq![b as char]
    } else {
        seq!['%', hex_digit_upper(b as int / 16), hex_digit_upper(b as int % 16)]
    }
}

/// SigV4 percent-encoding of a byte string: unreserved bytes stay, every
/// other byte becomes `%XX` with uppercase hex digits.
pub open spec fn spec_percent_encode(bytes: Seq<u8>) -> Seq<char>
    decreases bytes.len(),
{
    if bytes.len() == 0 {
        Seq::empty()
    } else {
        spec_percent_encode(bytes.drop_last()) + percent_encode_byte(bytes.last())
    }
}

fn upper_hex(n: u8) -> (c: char)
    requires
        n < 16,
    ensures
        c == hex_digit_upper(n as int),
{
    if n < 10 {
        (n + 48) as char
    } else {
        (n + 55) as char
    }
}

/// Appends the SigV4 percent-encoding of one byte.
pub fn push_percent_encoded(out: &mut String, b: u8)
    ensures
        final(out)@ == old(out)@ + percent_encode_byte(b),
{
    let ghost before = out@;
    if (65 <= b && b <= 90) || (97 <= b && b <= 122) || (48 <= b && b <= 57) || b == 45 || b
        == 95 || b == 46 || b == 126 {
        push_char(out, b as char);
        assert(out@ =~= before + seq![b as char]);
    } else {
        push_char(out, '%');
        push_char(out, upper_hex(b / 16));
        push_char(out, upper_hex(b % 16));
        assert(out@ =~= before + seq!['%', hex_digit_upper(b as int / 16), hex_digit_upper(b as int % 16)]);
    }
}

fn percent_encode_bytes(bytes: &[u8]) -> (r: String)
    ensures
        r@ == spec_percent_encode(bytes@),
{
    let n = bytes.len();
    let mut out = String::new();
    for i in 0..n
        invariant
            n == bytes@.len(),
            out@ == spec_percent_encode(bytes@.take(i as int)),
    {
        push_percent_encoded(&mut out, bytes[i]);
        proof {
            assert(bytes@.take(i + 1).drop_last() =~= bytes@.take(i as int));
        }
    }
    assert(bytes@.take(n as int) =~= bytes@);
    out
}

/// Percent-encodes one path segment for a SigV4 canonical URI.
pub fn percent_encode_path_segment(value: &str) -> (r: String)
    ensures
        r@ == spec_percent_encode(value.spec_bytes()),
{
    percent_encode_bytes(value.as_bytes())
}

/// Percent-encodes a query key or value for a SigV4 canonical query string.
pub fn percent_encode_query(value: &str) -> (r: String)
    ensures
        r@ == spec_percent_encode(value.spec_bytes()),
{
    percent_encode_bytes(value.as_bytes())
}

/// The SigV4 signing key for a secret, a `YYYYMMDD` date and a region:
/// `HMAC(HMAC(HMAC(HMAC("AWS4" + secret, date), region), "s3"), "aws4_request")`.
pub open spec fn spec_signing_key(secret: Seq<char>, date: Seq<char>, region: Seq<char>) -> Seq<u8> {
    let date_key = hmac_sha256_tag(vstd::utf8::encode_utf8("AWS4"@ + secret), vstd::utf8::encode_utf8(date));
    let region_key = hmac_sha256_tag(date_key, vstd::utf8::encode_utf8(region));
    let service_key = hmac_sha256_tag(region_key, vstd::utf8::encode_utf8("s3"@));
    hmac_sha256_tag(service_key, vstd::utf8::encode_utf8("aws4_request"@))
}

/// Derives the SigV4 signing key.
pub fn signing_key(secret: &str, date: &str, region: &str) -> (r: Result<Vec<u8>, StorageError>)
    ensures
        r matches Ok(key) && key@ == spec_signing_key(secret@, date@, region@),
{
    let mut prefixed = String::new();
    prefixed.append("AWS4");
    prefixed.append(secret);
    let date_key = hmac_sha256(prefixed.as_str().as_bytes(), date.as_bytes());
    let region_key = hmac_sha256(date_key.as_slice(), region.as_bytes());
    let service_key = hmac_sha256(region_key.as_slice(), "s3".as_bytes());
    let key = hmac_sha256(service_key.as_slice(), "aws4_request".as_bytes());
    Ok(key)
}

/// Where the bucket goes in object URLs.
#[derive(Debug, Clone, Copy, PartialEq, Eq)]
pub enum S3UrlStyle {
    /// `https://host/bucket/key`.
    Path,
    /// `https://bucket.host/key`.
    VirtualHost,
}

/// The text of an optional string.
pub open spec fn opt_text(value: Option<String>) -> Option<Seq<char>> {
    match value {
        Some(v) => Some(v@),
        None => None,
    }
}

/// The URL style a setting names: `path` when it is unset, otherwise
/// `path` or `virtual-host`; any other text names none.
pub open spec fn spec_url_style(value: Option<Seq<char>>) -> Option<S3UrlStyle> {
    match value {
        None => Some(S3UrlStyle::Path),
        Some(v) => if v == "path"@ {
            Some(S3UrlStyle::Path)
        } else if v == "virtual-host"@ {
            Some(S3UrlStyle::VirtualHost)
        } else {
            None
        },
    }
}

impl S3UrlStyle {
    /// Reads the URL style setting.
    pub fn from_value(value: &Option<String>) -> (r: Result<S3UrlStyle, StorageError>)
        ensures
            r matches Ok(style) ==> spec_url_style(opt_text(*value)) == Some(style),
            r is Err ==> spec_url_style(opt_text(*value)) is None && r == Err::<S3UrlStyle, StorageError>(
                StorageError::Unexpected,
            ),
    {
        match value {
            None => Ok(S3UrlStyle::Path),
            Some(v) => {
                if crate::files::text_equals(v.as_str(), "path") {
                    Ok(S3UrlStyle::Path)
                } else if crate::files::text_equals(v.as_str(), "virtual-host") {
                    Ok(S3UrlStyle::VirtualHost)
                } else {
                    Err(StorageError::Unexpected)
                }
            },
        }
    }
}

/// A setting that must be present.
pub fn required_value(value: &Option<String>) -> (r: Result<String, StorageError>)
    ensures
        match *value {
            Some(v) => r matches Ok(t) && t@ == v@,
            None => r == Err::<String, StorageError>(StorageError::Unexpected),
        },
{
    match value {
        Some(v) => Ok(v.clone()),
        None => Err(StorageError::Unexpected),
    }
}

/// The object storage settings as read from the environment.
#[derive(Debug, Clone)]
pub struct S3Settings {
    pub endpoint_url: Option<String>,
    pub public_endpoint_url: Option<String>,
    pub bucket: Option<String>,
    pub region: Option<String>,
    pub access_key_id: Option<String>,
    pub secret_access_key: Option<String>,
    pub url_style: Option<String>,
}

/// Object storage reached over the S3 API with SigV4 presigned URLs. URLs
/// are kept as their serialized text.
#[derive(Debug, Clone)]
pub struct S3ObjectStorage {
    pub endpoint_url: String,
    pub public_endpoint_url: String,
    pub bucket: String,
    pub region: String,
    pub access_key_id: String,
    pub secret_access_key: String,
    pub url_style: S3UrlStyle,
}

/// Whether every setting is usable: the endpoint is present and a URL, the
/// public endpoint is absent or a URL, the four credentials are present and
/// the URL style is known.
pub open spec fn settings_usable(settings: S3Settings) -> bool {
    &&& settings.endpoint_url matches Some(e) && parsed_url(e@) is Some
    &&& settings.public_endpoint_url matches Some(p) ==> parsed_url(p@) is Some
    &&& settings.bucket is Some
    &&& settings.region is Some
    &&& settings.access_key_id is Some
    &&& settings.secret_access_key is Some
    &&& spec_url_style(opt_text(settings.url_style)) is Some
}

/// The public endpoint: the one given, or the endpoint itself.
pub open spec fn spec_public_endpoint(settings: S3Settings) -> Option<Seq<char>> {
    match settings.public_endpoint_url {
        Some(p) => parsed_url(p@),
        None => match settings.endpoint_url {
            Some(e) => parsed_url(e@),
            None => None,
        },
    }
}

/// The URL after pushing each of `segments` as a path segment in turn.
pub open spec fn pushed_all(url: Option<Seq<char>>, segments: Seq<Seq<char>>) -> Option<Seq<char>>
    decreases segments.len(),
{
    if segments.len() == 0 {
        url
    } else {
        match pushed_all(url, segments.drop_last()) {
            Some(u) => url_segment_pushed(u, segments.last()),
            None => None,
        }
    }
}

/// The URL of an object: the base with its path replaced by the bucket
/// (path style) and the `/`-separated key, or with the bucket put in front
/// of its host (virtual-host style) and the key as its path.
pub open spec fn spec_object_url(style: S3UrlStyle, bucket: Seq<char>, base: Seq<char>, key: Seq<char>) -> Option<Seq<char>> {
    let segments = split_text(key, '/');
    match style {
        S3UrlStyle::Path => match url_path_cleared(base) {
            Some(u) => pushed_all(url_segment_pushed(u, bucket), segments),
            None => None,
        },
        S3UrlStyle::VirtualHost => match url_host_text(base) {
            Some(h) => match url_host_replaced(base, bucket + seq!['.'] + h) {
                Some(u) => pushed_all(url_path_cleared(u), segments),
                None => None,
            },
            None => None,
        },
    }
}

/// The `host` header a URL is signed with: its host, with `:port` where
/// the URL names a port.
pub open spec fn spec_signed_host(url: Seq<char>) -> Option<Seq<char>> {
    match url_host_text(url) {
        Some(h) => match url_port_number(url) {
            Some(port) => Some(h + seq![':'] + i64_decimal(port as i64)),
            None => Some(h),
        },
        None => None,
    }
}

/// The URL after appending each pair as a query pair in turn.
pub open spec fn appended_all(url: Option<Seq<char>>, pairs: Seq<(Seq<char>, Seq<char>)>) -> Option<Seq<char>>
    decreases pairs.len(),
{
    if pairs.len() == 0 {
        url
    } else {
        match appended_all(url, pairs.drop_last()) {
            Some(u) => url_pair_appended(u, pairs.last().0, pairs.last().1),
            None => None,
        }
    }
}

/// The query pairs of a presigned URL before its signature: algorithm,
/// credential, timestamp, lifetime and signed headers, then the extra pairs.
pub open spec fn spec_presign_pairs(
    credential: Seq<char>,
    amz_date: Seq<char>,
    ttl_seconds: i64,
    extra: Seq<(Seq<char>, Seq<char>)>,
) -> Seq<(Seq<char>, Seq<char>)> {
    seq![
        ("X-Amz-Algorithm"@, "AWS4-HMAC-SHA256"@),
        ("X-Amz-Credential"@, credential),
        ("X-Amz-Date"@, amz_date),
        ("X-Amz-Expires"@, i64_decimal(ttl_seconds)),
        ("X-Amz-SignedHeaders"@, "host"@),
    ] + extra
}

/// The unsigned URL with its `X-Amz-Signature` pair appended: the signature
/// covers the method, the canonical URI of its path, the canonical query of
/// its pairs and the host.
pub open spec fn spec_signed_url(
    unsigned: Seq<char>,
    method: Seq<char>,
    host: Seq<char>,
    amz_date: Seq<char>,
    scope: Seq<char>,
    secret: Seq<char>,
    date: Seq<char>,
    region: Seq<char>,
) -> Option<Seq<char>> {
    match url_query_pairs(unsigned) {
        Some(pairs) => match url_path_text(unsigned) {
            Some(path) => {
                let request = spec_canonical_request(
                    method,
                    spec_canonical_uri(vstd::utf8::encode_utf8(path)),
                    spec_canonical_query(pairs),
                    host,
                );
                let sig = spec_signature(secret, date, region, spec_string_to_sign(amz_date, scope, request));
                url_pair_appended(unsigned, "X-Amz-Signature"@, sig)
            },
            None => None,
        },
        None => None,
    }
}

/// The presigned URL for `method` on an object under `base`, valid from
/// `now` (microseconds since the Unix epoch) for `ttl_seconds`.
pub open spec fn spec_presigned_url(
    storage: S3ObjectStorage,
    method: Seq<char>,
    base: Seq<char>,
    object_key: Seq<char>,
    ttl_seconds: i64,
    extra: Seq<(Seq<char>, Seq<char>)>,
    now: i64,
) -> Option<Seq<char>> {
    match utc_formatted(now, "%Y%m%dT%H%M%SZ"@) {
        Some(amz_date) => match utc_formatted(now, "%Y%m%d"@) {
            Some(date) => {
                let scope = spec_credential_scope(date, storage.region@);
                let credential = storage.access_key_id@ + seq!['/'] + scope;
                match spec_object_url(storage.url_style, storage.bucket@, base, object_key) {
                    Some(url) => match spec_signed_host(url) {
                        Some(host) => match appended_all(
                            Some(url),
                            spec_presign_pairs(credential, amz_date, ttl_seconds, extra),
                        ) {
                            Some(unsigned) => spec_signed_url(
                                unsigned,
                                method,
                                host,
                                amz_date,
                                scope,
                                storage.secret_access_key@,
                                date,
                                storage.region@,
                            ),
                            None => None,
                        },
                        None => None,
                    },
                    None => None,
                }
            },
            None => None,
        },
        None => None,
    }
}

/// Pushes each segment as a path segment in turn.
pub(crate) fn push_segments(url: String, segments: &Vec<String>) -> (r: Result<String, StorageError>)
    ensures
        match pushed_all(Some(url@), texts(segments@)) {
            Some(u) => r matches Ok(t) && t@ == u,
            None => r == Err::<String, StorageError>(StorageError::Unexpected),
        },
{
    let n = segments.len();
    let ghost start = url@;
    let mut current = url;
    proof {
        assert(texts(segments@).take(0) =~= Seq::<Seq<char>>::empty());
    }
    for i in 0..n
        invariant
            n == segments@.len(),
            start == url@,
            pushed_all(Some(start), texts(segments@).take(i as int)) == Some(current@),
    {
        let next = push_path_segment(current.as_str(), segments[i].as_str());
        proof {
            let t = texts(segments@).take(i + 1);
            assert(t.drop_last() =~= texts(segments@).take(i as int));
            assert(t.last() == segments@[i as int]@);
        }
        match next {
            Some(u) => {
                current = u;
            },
            None => {
                proof {
                    assert(pushed_all(Some(start), texts(segments@).take(i + 1)) is None);
                    lemma_pushed_all_stays_none(start, texts(segments@), (i + 1) as int);
                }
                return Err(StorageError::Unexpected);
            },
        }
    }
    assert(texts(segments@).take(n as int) =~= texts(segments@));
    Ok(current)
}

proof fn lemma_pushed_all_stays_none(url: Seq<char>, segments: Seq<Seq<char>>, k: int)
    requires
        0 <= k <= segments.len(),
        pushed_all(Some(url), segments.take(k)) is None,
    ensures
        pushed_all(Some(url), segments) is None,
    decreases segments.len() - k,
{
    if k < segments.len() {
        assert(segments.take(k + 1).drop_last() =~= segments.take(k));
        lemma_pushed_all_stays_none(url, segments, k + 1);
    } else {
        assert(segments.take(k) =~= segments);
    }
}

proof fn lemma_appended_all_stays_none(url: Seq<char>, pairs: Seq<(Seq<char>, Seq<char>)>, k: int)
    requires
        0 <= k <= pairs.len(),
        appended_all(Some(url), pairs.take(k)) is None,
    ensures
        appended_all(Some(url), pairs) is None,
    decreases pairs.len() - k,
{
    if k < pairs.len() {
        assert(pairs.take(k + 1).drop_last() =~= pairs.take(k));
        lemma_appended_all_stays_none(url, pairs, k + 1);
    } else {
        assert(pairs.take(k) =~= pairs);
    }
}

/// Appends each pair as a query pair in turn.
fn append_pairs(url: String, pairs: &Vec<(String, String)>) -> (r: Result<String, StorageError>)
    ensures
        match appended_all(Some(url@), pair_texts(pairs@)) {
            Some(u) => r matches Ok(t) && t@ == u,
            None => r == Err::<String, StorageError>(StorageError::Unexpected),
        },
{
    let n = pairs.len();
    let ghost start = url@;
    let mut current = url;
    proof {
        assert(pair_texts(pairs@).take(0) =~= Seq::<(Seq<char>, Seq<char>)>::empty());
    }
    for i in 0..n
        invariant
            n == pairs@.len(),
            start == url@,
            appended_all(Some(start), pair_texts(pairs@).take(i as int)) == Some(current@),
    {
        let next = append_query_pair(current.as_str(), pairs[i].0.as_str(), pairs[i].1.as_str());
        proof {
            let t = pair_texts(pairs@).take(i + 1);
            assert(t.drop_last() =~= pair_texts(pairs@).take(i as int));
            assert(t.last() == (pairs@[i as int].0@, pairs@[i as int].1@));
        }
        match next {
            Some(u) => {
                current = u;
            },
            None => {
                proof {
                    assert(appended_all(Some(start), pair_texts(pairs@).take(i + 1)) is None);
                    lemma_appended_all_stays_none(start, pair_texts(pairs@), (i + 1) as int);
                }
                return Err(StorageError::Unexpected);
            },
        }
    }
    assert(pair_texts(pairs@).take(n as int) =~= pair_texts(pairs@));
    Ok(current)
}

/// The `host` header a URL is signed with.
pub fn signed_host(url: &str) -> (r: Result<String, StorageError>)
    ensures
        match spec_signed_host(url@) {
            Some(h) => r matches Ok(t) && t@ == h,
            None => r == Err::<String, StorageError>(StorageError::Unexpected),
        },
{
    let mut host = match host_text(url) {
        Some(h) => h,
        None => {
            return Err(StorageError::Unexpected);
        },
    };
    match port_number(url) {
        Some(port) => {
            push_char(&mut host, ':');
            let digits = i64_to_text(port as i64);
            host.append(digits.as_str());
        },
        None => {},
    }
    Ok(host)
}

/// Appends the SigV4 signature to an unsigned presigned URL.
pub fn sign_url(
    unsigned: &str,
    method: &str,
    host: &str,
    amz_date: &str,
    scope: &str,
    secret: &str,
    date: &str,
    region: &str,
) -> (r: Result<String, StorageError>)
    ensures
        match spec_signed_url(unsigned@, method@, host@, amz_date@, scope@, secret@, date@, region@) {
            Some(u) => r matches Ok(t) && t@ == u,
            None => r == Err::<String, StorageError>(StorageError::Unexpected),
        },
{
    let pairs = match query_pairs(unsigned) {
        Some(p) => p,
        None => {
            return Err(StorageError::Unexpected);
        },
    };
    let query = canonical_query(&pairs);
    let path = match path_text(unsigned) {
        Some(p) => p,
        None => {
            return Err(StorageError::Unexpected);
        },
    };
    let uri = canonical_uri(path.as_str());
    let request = canonical_request(method, uri.as_str(), query.as_str(), host);
    let to_sign = string_to_sign(amz_date, scope, request.as_str());
    let sig = match signature(secret, date, region, to_sign.as_str()) {
        Ok(t) => t,
        Err(e) => {
            return Err(e);
        },
    };
    match append_query_pair(unsigned, "X-Amz-Signature", sig.as_str()) {
        Some(u) => Ok(u),
        None => Err(StorageError::Unexpected),
    }
}

impl S3ObjectStorage {
    /// Builds the storage from its settings.
    pub fn from_settings(settings: &S3Settings) -> (r: Result<S3ObjectStorage, StorageError>)
        ensures
            r is Ok <==> settings_usable(*settings),
            r is Err ==> r == Err::<S3ObjectStorage, StorageError>(StorageError::Unexpected),
            r matches Ok(s) ==> {
                &&& settings.endpoint_url matches Some(e) && parsed_url(e@) == Some(s.endpoint_url@)
                &&& spec_public_endpoint(*settings) == Some(s.public_endpoint_url@)
                &&& opt_text(settings.bucket) == Some(s.bucket@)
                &&& opt_text(settings.region) == Some(s.region@)
                &&& opt_text(settings.access_key_id) == Some(s.access_key_id@)
                &&& opt_text(settings.secret_access_key) == Some(s.secret_access_key@)
                &&& spec_url_style(opt_text(settings.url_style)) == Some(s.url_style)
            },
    {
        let endpoint_text = match required_value(&settings.endpoint_url) {
            Ok(v) => v,
            Err(e) => {
                return Err(e);
            },
        };
        let endpoint_url = match parse_url(endpoint_text.as_str()) {
            Some(u) => u,
            None => {
                return Err(StorageError::Unexpected);
            },
        };
        let public_endpoint_url = match &settings.public_endpoint_url {
            Some(p) => match parse_url(p.as_str()) {
                Some(u) => u,
                None => {
                    return Err(StorageError::Unexpected);
                },
            },
            None => endpoint_url.clone(),
        };
        let bucket = match required_value(&settings.bucket) {
            Ok(v) => v,
            Err(e) => {
                return Err(e);
            },
        };
        let region = match required_value(&settings.region) {
            Ok(v) => v,
            Err(e) => {
                return Err(e);
            },
        };
        let access_key_id = match required_value(&settings.access_key_id) {
            Ok(v) => v,
            Err(e) => {
                return Err(e);
            },
        };
        let secret_access_key = match required_value(&settings.secret_access_key) {
            Ok(v) => v,
            Err(e) => {
                return Err(e);
            },
        };
        let url_style = match S3UrlStyle::from_value(&settings.url_style) {
            Ok(v) => v,
            Err(e) => {
                return Err(e);
            },
        };
        Ok(S3ObjectStorage {
            endpoint_url,
            public_endpoint_url,
            bucket,
            region,
            access_key_id,
            secret_access_key,
            url_style,
        })
    }

    /// The URL of an object under `base`.
    pub fn object_url(&self, base: &str, object_key: &str) -> (r: Result<String, StorageError>)
        ensures
            match spec_object_url(self.url_style, self.bucket@, base@, object_key@) {
                Some(u) => r matches Ok(t) && t@ == u,
                None => r == Err::<String, StorageError>(StorageError::Unexpected),
            },
    {
        let segments = split_on(object_key, '/');
        match self.url_style {
            S3UrlStyle::Path => {
                let cleared = match clear_path(base) {
                    Some(u) => u,
                    None => {
                        return Err(StorageError::Unexpected);
                    },
                };
                match push_path_segment(cleared.as_str(), self.bucket.as_str()) {
                    Some(u) => push_segments(u, &segments),
                    None => {
                        proof {
                            lemma_pushed_all_none(texts(segments@));
                        }
                        Err(StorageError::Unexpected)
                    },
                }
            },
            S3UrlStyle::VirtualHost => {
                let host = match host_text(base) {
                    Some(h) => h,
                    None => {
                        return Err(StorageError::Unexpected);
                    },
                };
                let mut bucket_host = self.bucket.clone();
                push_char(&mut bucket_host, '.');
                bucket_host.append(host.as_str());
                assert(bucket_host@ =~= self.bucket@ + seq!['.'] + host@);
                let moved = match replace_host(base, bucket_host.as_str()) {
                    Some(u) => u,
                    None => {
                        return Err(StorageError::Unexpected);
                    },
                };
                match clear_path(moved.as_str()) {
                    Some(u) => push_segments(u, &segments),
                    None => {
                        proof {
                            lemma_pushed_all_none(texts(segments@));
                        }
                        Err(StorageError::Unexpected)
                    },
                }
            },
        }
    }

    /// Presigns `method` on an object under `base` at the instant `now`
    /// (microseconds since the Unix epoch), for `ttl_seconds`, with extra
    /// query pairs signed along.
    pub fn presign_with_query_at(
        &self,
        method: &str,
        base: &str,
        object_key: &str,
        ttl_seconds: i64,
        extra_query: &Vec<(String, String)>,
        now: i64,
    ) -> (r: Result<PresignedUrl, StorageError>)
        requires
            i64::MIN <= ttl_seconds * MICROS_PER_SECOND <= i64::MAX,
            i64::MIN <= spec_upload_expiry(now as int, ttl_seconds as int) <= i64::MAX,
        ensures
            match spec_presigned_url(*self, method@, base@, object_key@, ttl_seconds, pair_texts(extra_query@), now) {
                Some(u) => r matches Ok(p) && p.url@ == u && p.expires_at == spec_upload_expiry(now as int, ttl_seconds as int),
                None => r == Err::<PresignedUrl, StorageError>(StorageError::Unexpected),
            },
            within_chrono_range(now) ==> utc_formatted(now, "%Y%m%dT%H%M%SZ"@) is Some && utc_formatted(
                now,
                "%Y%m%d"@,
            ) is Some,
    {
        let expires_at = upload_expiry(now, ttl_seconds);
        let amz_date = match format_utc(now, "%Y%m%dT%H%M%SZ") {
            Some(t) => t,
            None => {
                return Err(StorageError::Unexpected);
            },
        };
        let date = match format_utc(now, "%Y%m%d") {
            Some(t) => t,
            None => {
                return Err(StorageError::Unexpected);
            },
        };
        let scope = credential_scope(date.as_str(), self.region.as_str());
        let mut credential = self.access_key_id.clone();
        push_char(&mut credential, '/');
        credential.append(scope.as_str());
        assert(credential@ =~= self.access_key_id@ + seq!['/'] + scope@);
        let url = match self.object_url(base, object_key) {
            Ok(u) => u,
            Err(e) => {
                return Err(e);
            },
        };
        let host = match signed_host(url.as_str()) {
            Ok(h) => h,
            Err(e) => {
                return Err(e);
            },
        };
        let ghost credential_text = credential@;
        let mut pairs: Vec<(String, String)> = Vec::new();
        pairs.push(("X-Amz-Algorithm".to_owned(), "AWS4-HMAC-SHA256".to_owned()));
        pairs.push(("X-Amz-Credential".to_owned(), credential));
        pairs.push(("X-Amz-Date".to_owned(), amz_date.clone()));
        pairs.push(("X-Amz-Expires".to_owned(), i64_to_text(ttl_seconds)));
        pairs.push(("X-Amz-SignedHeaders".to_owned(), "host".to_owned()));
        let ghost head = pair_texts(pairs@);
        proof {
            assert(head =~= spec_presign_pairs(credential_text, amz_date@, ttl_seconds, Seq::empty()));
            assert(pair_texts(extra_query@).take(0) =~= Seq::<(Seq<char>, Seq<char>)>::empty());
            assert(head =~= head + pair_texts(extra_query@).take(0));
        }
        let n = extra_query.len();
        for i in 0..n
            invariant
                n == extra_query@.len(),
                pair_texts(pairs@) == head + pair_texts(extra_query@).take(i as int),
        {
            let key = extra_query[i].0.clone();
            let value = extra_query[i].1.clone();
            let ghost before = pair_texts(pairs@);
            pairs.push((key, value));
            proof {
                assert(pair_texts(pairs@) =~= before.push((extra_query@[i as int].0@, extra_query@[i as int].1@)));
                assert(pair_texts(extra_query@).take(i + 1) =~= pair_texts(extra_query@).take(i as int).push(
                    (extra_query@[i as int].0@, extra_query@[i as int].1@),
                ));
                assert(pair_texts(pairs@) =~= head + pair_texts(extra_query@).take(i + 1));
            }
        }
        proof {
            assert(pair_texts(extra_query@).take(n as int) =~= pair_texts(extra_query@));
            assert(pair_texts(pairs@) =~= spec_presign_pairs(credential_text, amz_date@, ttl_seconds, pair_texts(extra_query@)));
        }
        let ghost url_text = url@;
        let unsigned = match append_pairs(url, &pairs) {
            Ok(u) => u,
            Err(e) => {
                assert(spec_presigned_url(*self, method@, base@, object_key@, ttl_seconds, pair_texts(extra_query@), now) is None);
                return Err(e);
            },
        };
        assert(spec_presigned_url(*self, method@, base@, object_key@, ttl_seconds, pair_texts(extra_query@), now)
            == spec_signed_url(unsigned@, method@, host@, amz_date@, scope@, self.secret_access_key@, date@, self.region@));
        let signed = sign_url(
            unsigned.as_str(),
            method,
            host.as_str(),
            amz_date.as_str(),
            scope.as_str(),
            self.secret_access_key.as_str(),
            date.as_str(),
            self.region.as_str(),
        );
        match signed {
            Ok(u) => Ok(PresignedUrl { url: u, expires_at }),
            Err(e) => Err(e),
        }
    }
}

pub(crate) proof fn lemma_pushed_all_none(segments: Seq<Seq<char>>)
    ensures
        pushed_all(None, segments) is None,
    decreases segments.len(),
{
    if segments.len() > 0 {
        lemma_pushed_all_none(segments.drop_last());
    }
}

/// A line without the `\r` of a `\r\n` ending.
pub open spec fn strip_cr(line: Seq<char>) -> Seq<char> {
    if line.len() > 0 && line.last() == '\r' {
        line.drop_last()
    } else {
        line
    }
}

/// The lines of a text as `str::lines` gives them: split at `\n`, a `\r`
/// right before a `\n` dropped, and no empty line after a final `\n`.
pub open spec fn spec_lines(text: Seq<char>) -> Seq<Seq<char>> {
    let pieces = split_text(text, '\n');
    let ended = pieces.drop_last().map_values(|p: Seq<char>| strip_cr(p));
    if pieces.last().len() == 0 {
        ended
    } else {
        ended.push(pieces.last())
    }
}

/// The lines of a text.
pub fn lines_of(text: &str) -> (r: Vec<String>)
    ensures
        texts(r@) == spec_lines(text@),
{
    let pieces = split_on(text, '\n');
    let n = pieces.len();
    let mut lines: Vec<String> = Vec::new();
    let ghost p = texts(pieces@);
    for i in 0..n - 1
        invariant
            n == pieces@.len(),
            n >= 1,
            p == texts(pieces@),
            texts(lines@) == p.drop_last().take(i as int).map_values(|q: Seq<char>| strip_cr(q)),
    {
        let piece = &pieces[i];
        let chars = chars_of(piece.as_str());
        let len = chars.len();
        let line = if len > 0 && chars[len - 1] == '\r' {
            string_from_chars(&chars.as_slice()[0..len - 1])
        } else {
            piece.clone()
        };
        let ghost before = texts(lines@);
        lines.push(line);
        proof {
            assert(p[i as int] == pieces@[i as int]@);
            if len > 0 && chars@[len - 1] == '\r' {
                assert(chars@.subrange(0, len - 1) =~= p[i as int].drop_last());
            }
            assert(texts(lines@) =~= before.push(strip_cr(p[i as int])));
            assert(p.drop_last().take(i + 1) =~= p.drop_last().take(i as int).push(p[i as int]));
            assert(p.drop_last().take(i + 1).map_values(|q: Seq<char>| strip_cr(q)) =~= p.drop_last().take(
                i as int,
            ).map_values(|q: Seq<char>| strip_cr(q)).push(strip_cr(p[i as int])));
        }
    }
    proof {
        assert(p.drop_last().take((n - 1) as int) =~= p.drop_last());
    }
    let last = &pieces[n - 1];
    let last_chars = chars_of(last.as_str());
    if last_chars.len() > 0 {
        let ghost before = texts(lines@);
        lines.push(last.clone());
        proof {
            assert(p.last() == pieces@[n - 1]@);
            assert(texts(lines@) =~= before.push(p.last()));
        }
    } else {
        proof {
            assert(p.last() == pieces@[n - 1]@);
        }
    }
    lines
}

/// The code of a character with ASCII uppercase letters lowered.
pub open spec fn ascii_lower_code(c: char) -> u32 {
    let v = c as u32;
    if 65 <= v <= 90 {
        (v + 32) as u32
    } else {
        v
    }
}

/// `str::eq_ignore_ascii_case`: the same length, and equal characters
/// once ASCII letters are lowercased.
pub open spec fn eq_ignore_ascii_case(a: Seq<char>, b: Seq<char>) -> bool {
    a.len() == b.len() && forall|i: int| 0 <= i < a.len() ==> ascii_lower_code(#[trigger] a[i]) == ascii_lower_code(b[i])
}

fn lower_code(c: char) -> (r: u32)
    ensures
        r == ascii_lower_code(c),
{
    let v = c as u32;
    if 65 <= v && v <= 90 {
        v + 32
    } else {
        v
    }
}

/// Compares two texts ignoring ASCII case.
pub fn equal_ignoring_ascii_case(a: &[char], b: &[char]) -> (r: bool)
    ensures
        r == eq_ignore_ascii_case(a@, b@),
{
    if a.len() != b.len() {
        return false;
    }
    let n = a.len();
    for i in 0..n
        invariant
            n == a@.len() == b@.len(),
            forall|k: int| 0 <= k < i ==> ascii_lower_code(#[trigger] a@[k]) == ascii_lower_code(b@[k]),
    {
        if lower_code(a[i]) != lower_code(b[i]) {
            return false;
        }
    }
    true
}

/// The value of a `name: value` header line whose name is `Content-Length`
/// in any case: the text after the first `:`.
pub open spec fn content_length_value(line: Seq<char>) -> Option<Seq<char>> {
    if exists|i: int| 0 <= i < line.len() && line[i] == ':' {
        let i = choose|i: int| 0 <= i < line.len() && line[i] == ':' && forall|k: int| 0 <= k < i ==> line[k] != ':';
        if eq_ignore_ascii_case(line.take(i), "content-length"@) {
            Some(line.skip(i + 1))
        } else {
            None
        }
    } else {
        None
    }
}

/// The value of a header line if it is a `Content-Length` header.
fn content_length_header(line: &str) -> (r: Option<String>)
    ensures
        match content_length_value(line@) {
            Some(v) => r matches Some(t) && t@ == v,
            None => r is None,
        },
{
    let chars = chars_of(line);
    let name = chars_of("content-length");
    match find_char(chars.as_slice(), ':') {
        Some(i) => {
            proof {
                let k = choose|k: int| 0 <= k < chars@.len() && chars@[k] == ':' && forall|m: int| 0 <= m < k ==> chars@[m] != ':';
                assert(0 <= i < chars@.len() && chars@[i as int] == ':' && forall|m: int| 0 <= m < i ==> chars@[m] != ':') by {
                    assert forall|m: int| 0 <= m < i implies chars@[m] != ':' by {
                        if chars@[m] == ':' {
                            assert(chars@.take(i as int)[m] == chars@[m]);
                            assert(crate::auth::has_char(chars@.take(i as int), ':'));
                        }
                    }
                }
                if k < i {
                    assert(chars@[k] != ':');
                }
                if i < k {
                    assert(chars@[i as int] != ':');
                }
                assert(k == i);
            }
            let head = &chars.as_slice()[0..i];
            assert(head@ =~= chars@.take(i as int));
            if equal_ignoring_ascii_case(head, name.as_slice()) {
                let len = chars.len();
                let rest = string_from_chars(&chars.as_slice()[i + 1..len]);
                assert(rest@ =~= chars@.skip(i + 1));
                Some(rest)
            } else {
                None
            }
        },
        None => {
            proof {
                if exists|k: int| 0 <= k < chars@.len() && chars@[k] == ':' {
                    assert(crate::auth::has_char(chars@, ':'));
                }
            }
            None
        },
    }
}

/// The value of the first `Content-Length` header among `lines`.
pub open spec fn first_content_length(lines: Seq<Seq<char>>) -> Option<Seq<char>>
    decreases lines.len(),
{
    if lines.len() == 0 {
        None
    } else {
        match content_length_value(lines[0]) {
            Some(v) => Some(v),
            None => first_content_length(lines.drop_first()),
        }
    }
}

/// The length a raw `HEAD` response reports: the status line must hold
/// ` 200 `, and the first `Content-Length` header, trimmed, must read as an
/// `i64`.
pub open spec fn spec_head_content_length(text: Seq<char>) -> Option<i64> {
    let lines = spec_lines(text);
    if lines.len() == 0 || !(exists|i: int| occurs_at(lines[0], " 200 "@, i)) {
        None
    } else {
        match first_content_length(lines.drop_first()) {
            Some(v) => parsed_i64(trim(v)),
            None => None,
        }
    }
}

/// Reads the object length from a raw HTTP `HEAD` response.
pub fn parse_head_response(response: &[u8]) -> (r: Result<ObjectMetadata, StorageError>)
    ensures
        match spec_head_content_length(crate::text::utf8_lossy(response@)) {
            Some(n) => r == Ok::<ObjectMetadata, StorageError>(ObjectMetadata { content_length: n }),
            None => r == Err::<ObjectMetadata, StorageError>(StorageError::Unexpected),
        },
{
    let text = crate::text::decode_utf8_lossy(response);
    let lines = lines_of(text.as_str());
    let ghost ls = texts(lines@);
    if lines.len() == 0 {
        return Err(StorageError::Unexpected);
    }
    let status = chars_of(lines[0].as_str());
    let marker = chars_of(" 200 ");
    proof {
        assert(ls[0] == lines@[0]@);
    }
    match find_pattern(status.as_slice(), marker.as_slice()) {
        Some(_) => {},
        None => {
            proof {
                reveal(first_occurrence);
            }
            return Err(StorageError::Unexpected);
        },
    }
    let n = lines.len();
    proof {
        assert(ls.skip(1) =~= ls.drop_first());
        assert(exists|i: int| occurs_at(ls[0], " 200 "@, i));
        assert(spec_head_content_length(crate::text::utf8_lossy(response@)) == match first_content_length(ls.drop_first()) {
            Some(v) => parsed_i64(trim(v)),
            None => None,
        });
    }
    for j in 1..n
        invariant
            n == lines@.len(),
            ls == texts(lines@),
            spec_head_content_length(crate::text::utf8_lossy(response@)) == match first_content_length(ls.drop_first()) {
                Some(v) => parsed_i64(trim(v)),
                None => None,
            },
            first_content_length(ls.drop_first()) == first_content_length(ls.skip(j as int)),
    {
        let header = content_length_header(lines[j].as_str());
        proof {
            assert(ls[j as int] == lines@[j as int]@);
            assert(ls.skip(j as int)[0] == ls[j as int]);
            assert(ls.skip(j as int).drop_first() =~= ls.skip(j + 1));
        }
        match header {
            Some(raw) => {
                let value = trim_str(raw.as_str());
                return match parse_i64(value.as_str()) {
                    Some(length) => Ok(ObjectMetadata { content_length: length }),
                    None => Err(StorageError::Unexpected),
                };
            },
            None => {},
        }
    }
    proof {
        assert(ls.skip(n as int).len() == 0);
    }
    Err(StorageError::Unexpected)
}

impl S3ObjectStorage {
    /// Presigns `method` on an object under `base` for `ttl_seconds` from
    /// now, with extra query pairs signed along. Whatever instant the clock
    /// gives, the URL is the one `presign_with_query_at` builds for it; an
    /// instant whose deadline would not fit is refused.
    pub fn presign_with_query(
        &self,
        method: &str,
        base: &str,
        object_key: &str,
        ttl_seconds: i64,
        extra_query: &Vec<(String, String)>,
    ) -> (r: Result<PresignedUrl, StorageError>)
        ensures
            r matches Ok(p) ==> exists|now: i64| {
                &&& spec_presigned_url(*self, method@, base@, object_key@, ttl_seconds, pair_texts(extra_query@), now) == Some(p.url@)
                &&& p.expires_at == spec_upload_expiry(now as int, ttl_seconds as int)
            },
            r is Err ==> r == Err::<PresignedUrl, StorageError>(StorageError::Unexpected),
    {
        let now = SystemClock.now();
        let lifetime = match ttl_seconds.checked_mul(MICROS_PER_SECOND) {
            Some(v) => v,
            None => {
                return Err(StorageError::Unexpected);
            },
        };
        match now.checked_add(lifetime) {
            Some(_) => {},
            None => {
                return Err(StorageError::Unexpected);
            },
        }
        self.presign_with_query_at(method, base, object_key, ttl_seconds, extra_query, now)
    }

    /// Presigns `method` on an object under the public endpoint.
    pub fn presign(&self, method: &str, object_key: &str, ttl_seconds: i64) -> (r: Result<PresignedUrl, StorageError>)
        ensures
            r matches Ok(p) ==> exists|now: i64| {
                &&& spec_presigned_url(*self, method@, self.public_endpoint_url@, object_key@, ttl_seconds, Seq::empty(), now) == Some(p.url@)
                &&& p.expires_at == spec_upload_expiry(now as int, ttl_seconds as int)
            },
            r is Err ==> r == Err::<PresignedUrl, StorageError>(StorageError::Unexpected),
    {
        let extra: Vec<(String, String)> = Vec::new();
        proof {
            assert(pair_texts(extra@) =~= Seq::<(Seq<char>, Seq<char>)>::empty());
        }
        self.presign_with_query(method, self.public_endpoint_url.as_str(), object_key, ttl_seconds, &extra)
    }

    /// A presigned `PUT` for uploading an object.
    pub fn presign_put(&self, object_key: &str, content_type: &str, size_bytes: i64, ttl_seconds: i64) -> (r: Result<
        PresignedUrl,
        StorageError,
    >)
        ensures
            r matches Ok(p) ==> exists|now: i64| {
                &&& spec_presigned_url(*self, "PUT"@, self.public_endpoint_url@, object_key@, ttl_seconds, Seq::empty(), now) == Some(p.url@)
                &&& p.expires_at == spec_upload_expiry(now as int, ttl_seconds as int)
            },
            r is Err ==> r == Err::<PresignedUrl, StorageError>(StorageError::Unexpected),
    {
        self.presign("PUT", object_key, ttl_seconds)
    }

    /// A presigned `GET` for downloading an object.
    pub fn presign_get(&self, object_key: &str, ttl_seconds: i64) -> (r: Result<PresignedUrl, StorageError>)
        ensures
            r matches Ok(p) ==> exists|now: i64| {
                &&& spec_presigned_url(*self, "GET"@, self.public_endpoint_url@, object_key@, ttl_seconds, Seq::empty(), now) == Some(p.url@)
                &&& p.expires_at == spec_upload_expiry(now as int, ttl_seconds as int)
            },
            r is Err ==> r == Err::<PresignedUrl, StorageError>(StorageError::Unexpected),
    {
        self.presign("GET", object_key, ttl_seconds)
    }

    /// A presigned `PUT` for one part of a multipart upload.
    pub fn presign_upload_part(&self, object_key: &str, upload_id: &str, part_number: i32, ttl_seconds: i64) -> (r: Result<
        PresignedUrl,
        StorageError,
    >)
        ensures
            r matches Ok(p) ==> exists|now: i64| {
                &&& spec_presigned_url(
                    *self,
                    "PUT"@,
                    self.public_endpoint_url@,
                    object_key@,
                    ttl_seconds,
                    seq![("partNumber"@, i32_decimal(part_number)), ("uploadId"@, upload_id@)],
                    now,
                ) == Some(p.url@)
                &&& p.expires_at == spec_upload_expiry(now as int, ttl_seconds as int)
            },
            r is Err ==> r == Err::<PresignedUrl, StorageError>(StorageError::Unexpected),
    {
        let mut extra: Vec<(String, String)> = Vec::new();
        extra.push(("partNumber".to_owned(), i32_to_text(part_number)));
        extra.push(("uploadId".to_owned(), upload_id.to_owned()));
        proof {
            assert(pair_texts(extra@) =~= seq![("partNumber"@, i32_decimal(part_number)), ("uploadId"@, upload_id@)]);
        }
        self.presign_with_query("PUT", self.public_endpoint_url.as_str(), object_key, ttl_seconds, &extra)
    }
}

/// The outcome of a `HEAD` on an object: it must have succeeded and carry
/// a `Content-Length` that reads as an `i64`.
pub fn head_object_result(success: bool, content_length: &Option<String>) -> (r: Result<ObjectMetadata, StorageError>)
    ensures
        match (success, opt_text(*content_length)) {
            (true, Some(v)) => match parsed_i64(v) {
                Some(n) => r == Ok::<ObjectMetadata, StorageError>(ObjectMetadata { content_length: n }),
                None => r == Err::<ObjectMetadata, StorageError>(StorageError::Unexpected),
            },
            _ => r == Err::<ObjectMetadata, StorageError>(StorageError::Unexpected),
        },
{
    if !success {
        return Err(StorageError::Unexpected);
    }
    match content_length {
        Some(v) => match parse_i64(v.as_str()) {
            Some(n) => Ok(ObjectMetadata { content_length: n }),
            None => Err(StorageError::Unexpected),
        },
        None => Err(StorageError::Unexpected),
    }
}

/// The upload id of a `CreateMultipartUpload` reply: the request must have
/// succeeded and the body hold an `UploadId` element.
pub fn multipart_upload_id(success: bool, body: &str) -> (r: Result<String, StorageError>)
    ensures
        match (success, spec_extract_xml_text(body@, "UploadId"@)) {
            (true, Some(id)) => r matches Ok(t) && t@ == id,
            _ => r == Err::<String, StorageError>(StorageError::Unexpected),
        },
{
    if !success {
        return Err(StorageError::Unexpected);
    }
    match extract_xml_text(body, "UploadId") {
        Some(id) => Ok(id),
        None => Err(StorageError::Unexpected),
    }
}

/// The outcome of a request whose reply carries nothing but its status.
pub fn status_result(success: bool) -> (r: Result<(), StorageError>)
    ensures
        r is Ok <==> success,
        r is Err ==> r == Err::<(), StorageError>(StorageError::Unexpected),
{
    if success {
        Ok(())
    } else {
        Err(StorageError::Unexpected)
    }
}

/// SigV4 key derivation as AWS fixes it: the date is signed first, under
/// `AWS4` followed by the secret; the region under that date key; then the
/// service name `s3`; then the terminator `aws4_request`. A request's
/// signature is the lowercase hex HMAC of its string to sign under that key.
pub proof fn lemma_signing_key_is_sigv4_chain(secret: Seq<char>, date: Seq<char>, region: Seq<char>, string_to_sign: Seq<char>)
    ensures
        spec_signing_key(secret, date, region) == hmac_sha256_tag(
            hmac_sha256_tag(
                hmac_sha256_tag(
                    hmac_sha256_tag(
                        vstd::utf8::encode_utf8(seq!['A', 'W', 'S', '4'] + secret),
                        vstd::utf8::encode_utf8(date),
                    ),
                    vstd::utf8::encode_utf8(region),
                ),
                vstd::utf8::encode_utf8(seq!['s', '3']),
            ),
            vstd::utf8::encode_utf8(
                seq!['a', 'w', 's', '4', '_', 'r', 'e', 'q', 'u', 'e', 's', 't'],
            ),
        ),
        crate::sigv4::spec_signature(secret, date, region, string_to_sign) == crate::crypto::hex_lower(
            hmac_sha256_tag(spec_signing_key(secret, date, region), vstd::utf8::encode_utf8(string_to_sign)),
        ),
{
    reveal_strlit("AWS4");
    reveal_strlit("s3");
    reveal_strlit("aws4_request");
    assert("AWS4"@ =~= seq!['A', 'W', 'S', '4']);
    assert("s3"@ =~= seq!['s', '3']);
    assert("aws4_request"@ =~= seq!['a', 'w', 's', '4', '_', 'r', 'e', 'q', 'u', 'e', 's', 't']);
}

} // verus!
