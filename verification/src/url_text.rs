use vstd::prelude::*;

use url::Url;

verus! {

// A URL is carried as its serialization, the text `Url::as_str` gives. Each
// function below parses that text with `Url::parse`, makes one call of the
// `url` crate and hands back the new serialization. What the next parse of
// that text gives is left to the names below; nothing here states that it
// is the same URL.

/// The serialization of the URL that `Url::parse` reads from `text`, if any.
pub uninterp spec fn parsed_url(text: Seq<char>) -> Option<Seq<char>>;

/// `Url::parse` followed by `Url::as_str`: the normalized form of an
/// absolute URL, or `None` where the text is no URL.
#[verifier::external_body]
pub(crate) fn parse_url(text: &str) -> (r: Option<String>)
    ensures
        r matches Some(u) ==> parsed_url(text@) == Some(u@),
        r is None ==> parsed_url(text@) is None,
{
    match Url::parse(text) {
        Ok(url) => Some(url.as_str().to_string()),
        Err(_) => None,
    }
}

/// The URL with all its path segments removed.
pub uninterp spec fn url_path_cleared(url: Seq<char>) -> Option<Seq<char>>;

/// `PathSegmentsMut::clear` on `Url::path_segments_mut`; `None` where the
/// text is no URL or the URL cannot be a base.
#[verifier::external_body]
pub(crate) fn clear_path(url: &str) -> (r: Option<String>)
    ensures
        r matches Some(u) ==> url_path_cleared(url@) == Some(u@),
        r is None ==> url_path_cleared(url@) is None,
{
    let mut parsed = Url::parse(url).ok()?;
    parsed.path_segments_mut().ok()?.clear();
    Some(parsed.as_str().to_string())
}

/// The URL with one more path segment, percent-encoded as a path segment.
pub uninterp spec fn url_segment_pushed(url: Seq<char>, segment: Seq<char>) -> Option<Seq<char>>;

/// `PathSegmentsMut::push` on `Url::path_segments_mut`; `None` where the
/// text is no URL or the URL cannot be a base.
#[verifier::external_body]
pub(crate) fn push_path_segment(url: &str, segment: &str) -> (r: Option<String>)
    ensures
        r matches Some(u) ==> url_segment_pushed(url@, segment@) == Some(u@),
        r is None ==> url_segment_pushed(url@, segment@) is None,
{
    let mut parsed = Url::parse(url).ok()?;
    parsed.path_segments_mut().ok()?.push(segment);
    Some(parsed.as_str().to_string())
}

/// The host of the URL as text, if it has one.
pub uninterp spec fn url_host_text(url: Seq<char>) -> Option<Seq<char>>;

/// `Url::host_str`; `None` where the text is no URL or the URL has no host.
#[verifier::external_body]
pub(crate) fn host_text(url: &str) -> (r: Option<String>)
    ensures
        r matches Some(h) ==> url_host_text(url@) == Some(h@),
        r is None ==> url_host_text(url@) is None,
{
    let parsed = Url::parse(url).ok()?;
    match parsed.host_str() {
        Some(host) => Some(host.to_string()),
        None => None,
    }
}

/// The URL with its host replaced.
pub uninterp spec fn url_host_replaced(url: Seq<char>, host: Seq<char>) -> Option<Seq<char>>;

/// `Url::set_host(Some(host))`; `None` where the text is no URL or the
/// host is refused.
#[verifier::external_body]
pub(crate) fn replace_host(url: &str, host: &str) -> (r: Option<String>)
    ensures
        r matches Some(u) ==> url_host_replaced(url@, host@) == Some(u@),
        r is None ==> url_host_replaced(url@, host@) is None,
{
    let mut parsed = Url::parse(url).ok()?;
    parsed.set_host(Some(host)).ok()?;
    Some(parsed.as_str().to_string())
}

/// The explicit port of the URL, if the text is a URL and names a port
/// other than its scheme's default.
pub uninterp spec fn url_port_number(url: Seq<char>) -> Option<u16>;

/// `Url::port`; `None` also where the text is no URL.
#[verifier::external_body]
pub(crate) fn port_number(url: &str) -> (r: Option<u16>)
    ensures
        r == url_port_number(url@),
{
    Url::parse(url).ok()?.port()
}

/// The URL with one more `application/x-www-form-urlencoded` query pair.
pub uninterp spec fn url_pair_appended(url: Seq<char>, key: Seq<char>, value: Seq<char>) -> Option<Seq<char>>;

/// `Serializer::append_pair` on `Url::query_pairs_mut`; `None` where the
/// text is no URL.
#[verifier::external_body]
pub(crate) fn append_query_pair(url: &str, key: &str, value: &str) -> (r: Option<String>)
    ensures
        r matches Some(u) ==> url_pair_appended(url@, key@, value@) == Some(u@),
        r is None ==> url_pair_appended(url@, key@, value@) is None,
{
    let mut parsed = Url::parse(url).ok()?;
    parsed.query_pairs_mut().append_pair(key, value);
    Some(parsed.as_str().to_string())
}

/// The decoded query pairs of the URL, in order.
pub uninterp spec fn url_query_pairs(url: Seq<char>) -> Option<Seq<(Seq<char>, Seq<char>)>>;

/// `Url::query_pairs`: the query parsed as
/// `application/x-www-form-urlencoded`, each key and value decoded;
/// `None` where the text is no URL.
#[verifier::external_body]
pub(crate) fn query_pairs(url: &str) -> (r: Option<Vec<(String, String)>>)
    ensures
        r matches Some(v) ==> url_query_pairs(url@) == Some(
            v@.map_values(|p: (String, String)| (p.0@, p.1@)),
        ),
        r is None ==> url_query_pairs(url@) is None,
{
    let parsed = Url::parse(url).ok()?;
    Some(parsed.query_pairs().map(|(key, value)| (key.into_owned(), value.into_owned())).collect())
}

/// The percent-encoded path of the URL.
pub uninterp spec fn url_path_text(url: Seq<char>) -> Option<Seq<char>>;

/// `Url::path`; `None` where the text is no URL.
#[verifier::external_body]
pub(crate) fn path_text(url: &str) -> (r: Option<String>)
    ensures
        r matches Some(p) ==> url_path_text(url@) == Some(p@),
        r is None ==> url_path_text(url@) is None,
{
    let parsed = Url::parse(url).ok()?;
    Some(parsed.path().to_string())
}

} // verus!
