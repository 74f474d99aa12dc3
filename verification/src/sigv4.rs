use vstd::prelude::*;
use vstd::relations::{sorted_by, total_ordering};
use vstd::string::StringSliceAdditionalSpecFns;

use crate::crypto::{hex_encode, hex_lower, hmac_sha256, hmac_sha256_tag, sha256, sha256_digest};
use crate::errors::StorageError;
use crate::s3::{percent_encode_byte, percent_encode_query, push_percent_encoded, signing_key, spec_percent_encode, spec_signing_key};
use crate::text::{chars_of, join_with, push_char};

verus! {

broadcast use {vstd::string::group_string_axioms, vstd::seq_lib::group_to_multiset_ensures};

/// Lexicographic order on texts, character by character; a prefix comes
/// first. On UTF-8 strings this is the byte order that `String` sorts by.
pub open spec fn text_le(a: Seq<char>, b: Seq<char>) -> bool
    decreases a.len(),
{
    if a.len() == 0 {
        true
    } else if b.len() == 0 {
        false
    } else if a[0] != b[0] {
        (a[0] as int) < (b[0] as int)
    } else {
        text_le(a.drop_first(), b.drop_first())
    }
}

/// Every text comes no later than itself.
pub proof fn lemma_text_le_reflexive(a: Seq<char>)
    ensures
        text_le(a, a),
    decreases a.len(),
{
    if a.len() > 0 {
        lemma_text_le_reflexive(a.drop_first());
    }
}

/// Two texts that each come no later than the other are equal.
pub proof fn lemma_text_le_antisymmetric(a: Seq<char>, b: Seq<char>)
    requires
        text_le(a, b),
        text_le(b, a),
    ensures
        a == b,
    decreases a.len(),
{
    if a.len() > 0 && b.len() > 0 {
        lemma_text_le_antisymmetric(a.drop_first(), b.drop_first());
        assert(a =~= seq![a[0]] + a.drop_first());
        assert(b =~= seq![b[0]] + b.drop_first());
    }
}

/// The text order is transitive.
pub proof fn lemma_text_le_transitive(a: Seq<char>, b: Seq<char>, c: Seq<char>)
    requires
        text_le(a, b),
        text_le(b, c),
    ensures
        text_le(a, c),
    decreases a.len(),
{
    if a.len() > 0 && b.len() > 0 && c.len() > 0 {
        if a[0] == b[0] && b[0] == c[0] {
            lemma_text_le_transitive(a.drop_first(), b.drop_first(), c.drop_first());
        }
    }
}

/// Any two texts are ordered one way or the other.
pub proof fn lemma_text_le_total(a: Seq<char>, b: Seq<char>)
    ensures
        text_le(a, b) || text_le(b, a),
    decreases a.len(),
{
    if a.len() > 0 && b.len() > 0 && a[0] == b[0] {
        lemma_text_le_total(a.drop_first(), b.drop_first());
    }
}

/// Order on (key, value) pairs: by key, then by value.
pub open spec fn pair_le(p: (Seq<char>, Seq<char>), q: (Seq<char>, Seq<char>)) -> bool {
    if p.0 == q.0 {
        text_le(p.1, q.1)
    } else {
        text_le(p.0, q.0)
    }
}

/// `pair_le` as a relation.
pub open spec fn pair_order() -> spec_fn((Seq<char>, Seq<char>), (Seq<char>, Seq<char>)) -> bool {
    |p: (Seq<char>, Seq<char>), q: (Seq<char>, Seq<char>)| pair_le(p, q)
}

/// Ordering pairs by key and then by value is a total order.
pub proof fn lemma_pair_order_total()
    ensures
        total_ordering(pair_order()),
{
    let r = pair_order();
    assert forall|p: (Seq<char>, Seq<char>)| #[trigger] r(p, p) by {
        lemma_text_le_reflexive(p.1);
    }
    assert forall|p: (Seq<char>, Seq<char>), q: (Seq<char>, Seq<char>)| #[trigger] r(p, q) && #[trigger] r(q, p) implies p == q by {
        if p.0 == q.0 {
            lemma_text_le_antisymmetric(p.1, q.1);
        } else {
            lemma_text_le_antisymmetric(p.0, q.0);
        }
    }
    assert forall|p: (Seq<char>, Seq<char>), q: (Seq<char>, Seq<char>), s: (Seq<char>, Seq<char>)| #[trigger] r(p, q) && #[trigger] r(q, s) implies r(p, s) by {
        if p.0 == q.0 && q.0 == s.0 {
            lemma_text_le_transitive(p.1, q.1, s.1);
        } else if p.0 == q.0 {
            assert(text_le(p.0, s.0));
        } else if q.0 == s.0 {
            assert(text_le(p.0, s.0));
        } else {
            lemma_text_le_transitive(p.0, q.0, s.0);
            if p.0 == s.0 {
                lemma_text_le_antisymmetric(p.0, q.0);
            }
        }
    }
    assert forall|p: (Seq<char>, Seq<char>), q: (Seq<char>, Seq<char>)| #[trigger] r(p, q) || #[trigger] r(q, p) by {
        if p.0 == q.0 {
            lemma_text_le_total(p.1, q.1);
        } else {
            lemma_text_le_total(p.0, q.0);
        }
    }
}

proof fn lemma_text_le_skip(a: Seq<char>, b: Seq<char>, i: int)
    requires
        0 <= i < a.len(),
        i < b.len(),
        forall|k: int| 0 <= k < i ==> a[k] == b[k],
    ensures
        text_le(a, b) == text_le(a.skip(i), b.skip(i)),
    decreases i,
{
    if i > 0 {
        lemma_text_le_skip(a.drop_first(), b.drop_first(), i - 1);
        assert(a.drop_first().skip(i - 1) =~= a.skip(i));
        assert(b.drop_first().skip(i - 1) =~= b.skip(i));
    } else {
        assert(a.skip(0) =~= a);
        assert(b.skip(0) =~= b);
    }
}

/// Compares two strings in `text_le` order.
pub fn text_le_exec(a: &str, b: &str) -> (r: bool)
    ensures
        r == text_le(a@, b@),
{
    let x = chars_of(a);
    let y = chars_of(b);
    let n = x.len();
    let m = y.len();
    let mut i: usize = 0;
    while i < n && i < m
        invariant
            n == x@.len(),
            m == y@.len(),
            x@ == a@,
            y@ == b@,
            i <= n,
            i <= m,
            forall|k: int| 0 <= k < i ==> x@[k] == y@[k],
        decreases n - i,
    {
        if x[i] != y[i] {
            proof {
                lemma_text_le_skip(x@, y@, i as int);
                assert(x@.skip(i as int)[0] == x@[i as int]);
                assert(y@.skip(i as int)[0] == y@[i as int]);
            }
            return x[i] < y[i];
        }
        i = i + 1;
    }
    proof {
        if i < n {
            if i > 0 {
                lemma_text_le_skip(x@, y@, (i - 1) as int);
                assert(x@.skip(i - 1).drop_first() =~= x@.skip(i as int));
                assert(y@.skip(i - 1).drop_first() =~= y@.skip(i as int));
                assert(x@.skip(i - 1)[0] == x@[i - 1]);
                assert(y@.skip(i - 1)[0] == y@[i - 1]);
            }
            assert(!text_le(x@.skip(i as int), y@.skip(i as int)));
            assert(x@.skip(0) =~= x@);
            assert(y@.skip(0) =~= y@);
            assert(!text_le(x@, y@));
        } else if i < m {
            if i > 0 {
                lemma_text_le_skip(x@, y@, (i - 1) as int);
                assert(x@.skip(i - 1).drop_first() =~= x@.skip(i as int));
                assert(y@.skip(i - 1).drop_first() =~= y@.skip(i as int));
                assert(x@.skip(i - 1)[0] == x@[i - 1]);
                assert(y@.skip(i - 1)[0] == y@[i - 1]);
            }
            assert(text_le(x@.skip(i as int), y@.skip(i as int)));
            assert(x@.skip(0) =~= x@);
            assert(y@.skip(0) =~= y@);
            assert(text_le(x@, y@));
        } else {
            assert(x@ =~= y@);
            lemma_text_le_reflexive(x@);
        }
    }
    i == n
}

/// The texts of a list of string pairs.
pub open spec fn pair_texts(v: Seq<(String, String)>) -> Seq<(Seq<char>, Seq<char>)> {
    v.map_values(|p: (String, String)| (p.0@, p.1@))
}

/// Whether a pair of strings comes no later than `(key, value)`.
fn pair_le_exec(p: &(String, String), key: &String, value: &String) -> (r: bool)
    ensures
        r == pair_le((p.0@, p.1@), (key@, value@)),
{
    let same_key = text_le_exec(p.0.as_str(), key.as_str()) && text_le_exec(key.as_str(), p.0.as_str());
    proof {
        if text_le(p.0@, key@) && text_le(key@, p.0@) {
            lemma_text_le_antisymmetric(p.0@, key@);
        }
        if p.0@ == key@ {
            lemma_text_le_reflexive(key@);
        }
    }
    if same_key {
        text_le_exec(p.1.as_str(), value.as_str())
    } else {
        text_le_exec(p.0.as_str(), key.as_str())
    }
}

/// Inserts `(key, value)` into a list sorted by `pair_le`, keeping it sorted.
fn insert_sorted(sorted: &mut Vec<(String, String)>, key: String, value: String)
    requires
        sorted_by(pair_texts(old(sorted)@), pair_order()),
    ensures
        sorted_by(pair_texts(final(sorted)@), pair_order()),
        pair_texts(final(sorted)@).to_multiset() == pair_texts(old(sorted)@).to_multiset().insert(
            (key@, value@),
        ),
{
    let ghost x = (key@, value@);
    let ghost before = pair_texts(sorted@);
    proof {
        lemma_pair_order_total();
    }
    let n = sorted.len();
    let mut j: usize = 0;
    while j < n
        invariant_except_break
            n == sorted@.len(),
            before == pair_texts(sorted@),
            j <= n,
            forall|i: int| 0 <= i < j ==> pair_le(#[trigger] before[i], x),
            total_ordering(pair_order()),
            x == (key@, value@),
        ensures
            n == sorted@.len(),
            before == pair_texts(sorted@),
            j <= n,
            forall|i: int| 0 <= i < j ==> pair_le(#[trigger] before[i], x),
            j < n ==> pair_le(x, before[j as int]),
        decreases n - j,
    {
        let le = pair_le_exec(&sorted[j], &key, &value);
        assert(before[j as int] == (sorted@[j as int].0@, sorted@[j as int].1@));
        if !le {
            proof {
                let r = pair_order();
                assert(r(before[j as int], x) || r(x, before[j as int]));
            }
            break;
        }
        j = j + 1;
    }
    sorted.insert(j, (key, value));
    proof {
        let after = pair_texts(sorted@);
        assert(after =~= before.insert(j as int, x));
        vstd::seq_lib::to_multiset_insert(before, j as int, x);
        let r = pair_order();
        assert forall|a: int, b: int| 0 <= a < b < after.len() implies #[trigger] r(after[a], after[b]) by {
            if b < j {
                assert(r(before[a], before[b]));
            } else if b == j {
                assert(pair_le(before[a], x));
            } else if a < j {
                assert(r(before[a], x));
                assert(r(x, before[j as int]));
                if j < b - 1 {
                    assert(r(before[j as int], before[b - 1]));
                }
                assert(r(x, before[b - 1]));
            } else if a == j {
                assert(r(x, before[j as int]));
                if j < b - 1 {
                    assert(r(before[j as int], before[b - 1]));
                }
                assert(r(x, before[b - 1]));
            } else {
                assert(r(before[a - 1], before[b - 1]));
            }
        }
    }
}

/// How one byte of a URL path is written in a SigV4 canonical URI: `/`
/// stays, every other byte is percent-encoded.
pub open spec fn uri_byte(b: u8) -> Seq<char> {
    if b == 47 {
        seq!['/']
    } else {
        percent_encode_byte(b)
    }
}

/// The SigV4 canonical URI of a URL path given as UTF-8 bytes: each
/// `/`-separated segment percent-encoded, the separators kept.
pub open spec fn spec_canonical_uri(path: Seq<u8>) -> Seq<char>
    decreases path.len(),
{
    if path.len() == 0 {
        Seq::empty()
    } else {
        spec_canonical_uri(path.drop_last()) + uri_byte(path.last())
    }
}

/// Builds the SigV4 canonical URI of a URL path.
pub fn canonical_uri(path: &str) -> (r: String)
    ensures
        r@ == spec_canonical_uri(path.spec_bytes()),
{
    let bytes = path.as_bytes();
    let n = bytes.len();
    let mut out = String::new();
    for i in 0..n
        invariant
            n == bytes@.len(),
            bytes@ == path.spec_bytes(),
            out@ == spec_canonical_uri(bytes@.take(i as int)),
    {
        let b = bytes[i];
        if b == 47 {
            push_char(&mut out, '/');
        } else {
            push_percent_encoded(&mut out, b);
        }
        proof {
            assert(bytes@.take(i + 1).drop_last() =~= bytes@.take(i as int));
        }
    }
    assert(bytes@.take(n as int) =~= bytes@);
    out
}

/// The pieces of a byte string between occurrences of `sep`, as
/// `split` gives them: a separator closes the current piece and opens an
/// empty one.
pub open spec fn split_bytes(b: Seq<u8>, sep: u8) -> Seq<Seq<u8>>
    decreases b.len(),
{
    if b.len() == 0 {
        seq![Seq::empty()]
    } else {
        let before = split_bytes(b.drop_last(), sep);
        if b.last() == sep {
            before.push(Seq::empty())
        } else {
            before.update(before.len() - 1, before.last().push(b.last()))
        }
    }
}

proof fn lemma_split_bytes_nonempty(b: Seq<u8>, sep: u8)
    ensures
        split_bytes(b, sep).len() >= 1,
    decreases b.len(),
{
    if b.len() > 0 {
        lemma_split_bytes_nonempty(b.drop_last(), sep);
    }
}

proof fn lemma_join_extend_last(parts: Seq<Seq<char>>, sep: char, tail: Seq<char>)
    requires
        parts.len() >= 1,
    ensures
        join_with(parts.update(parts.len() - 1, parts.last() + tail), sep) == join_with(parts, sep)
            + tail,
{
    let updated = parts.update(parts.len() - 1, parts.last() + tail);
    if parts.len() > 1 {
        assert(updated.drop_last() =~= parts.drop_last());
    }
}

/// The canonical URI is the path's `/`-separated byte segments, each
/// percent-encoded, joined again with `/`.
pub proof fn lemma_canonical_uri_by_segments(path: Seq<u8>)
    ensures
        spec_canonical_uri(path) == join_with(
            split_bytes(path, 47).map_values(|s: Seq<u8>| spec_percent_encode(s)),
            '/',
        ),
    decreases path.len(),
{
    let enc = |s: Seq<u8>| spec_percent_encode(s);
    if path.len() == 0 {
        assert(split_bytes(path, 47).map_values(enc) =~= seq![Seq::<char>::empty()]);
    } else {
        let rest = path.drop_last();
        let x = path.last();
        let before = split_bytes(rest, 47);
        lemma_canonical_uri_by_segments(rest);
        lemma_split_bytes_nonempty(rest, 47);
        let encoded = before.map_values(enc);
        if x == 47 {
            assert(split_bytes(path, 47).map_values(enc) =~= encoded.push(Seq::empty()));
            assert(encoded.push(Seq::<char>::empty()).drop_last() =~= encoded);
            assert(seq!['/'] + Seq::<char>::empty() =~= seq!['/']);
        } else {
            let last = before.last();
            assert(last.push(x).drop_last() =~= last);
            assert(split_bytes(path, 47).map_values(enc) =~= encoded.update(
                encoded.len() - 1,
                encoded.last() + percent_encode_byte(x),
            ));
            lemma_join_extend_last(encoded, '/', percent_encode_byte(x));
        }
    }
}

/// A decoded query pair with key and value percent-encoded for SigV4.
pub open spec fn encode_pair(p: (Seq<char>, Seq<char>)) -> (Seq<char>, Seq<char>) {
    (
        spec_percent_encode(vstd::utf8::encode_utf8(p.0)),
        spec_percent_encode(vstd::utf8::encode_utf8(p.1)),
    )
}

/// `key=value`.
pub open spec fn query_item(p: (Seq<char>, Seq<char>)) -> Seq<char> {
    p.0 + seq!['='] + p.1
}

/// The SigV4 canonical query string of decoded query pairs: each key and
/// value percent-encoded, the pairs sorted by key and then value, written
/// as `key=value` and joined with `&`.
pub open spec fn spec_canonical_query(pairs: Seq<(Seq<char>, Seq<char>)>) -> Seq<char> {
    join_with(
        pairs.map_values(|p: (Seq<char>, Seq<char>)| encode_pair(p)).sort_by(pair_order()).map_values(
            |p: (Seq<char>, Seq<char>)| query_item(p),
        ),
        '&',
    )
}

proof fn lemma_map_values_multiset<A, B>(a: Seq<A>, b: Seq<A>, f: spec_fn(A) -> B)
    requires
        a.to_multiset() == b.to_multiset(),
    ensures
        a.map_values(f).to_multiset() == b.map_values(f).to_multiset(),
    decreases a.len(),
{
    broadcast use vstd::multiset::group_multiset_axioms;

    assert(a.to_multiset().len() == a.len());
    assert(b.to_multiset().len() == b.len());
    if a.len() == 0 {
        assert(b.len() == 0);
        assert(a.map_values(f) =~= Seq::<B>::empty());
        assert(b.map_values(f) =~= Seq::<B>::empty());
    } else {
        let x = a.last();
        let rest = a.drop_last();
        assert(a =~= rest.push(x));
        assert(a.to_multiset().count(x) > 0);
        assert(b.contains(x));
        let i = choose|i: int| 0 <= i < b.len() && b[i] == x;
        let others = b.remove(i);
        assert(others.to_multiset() =~= b.to_multiset().remove(x));
        assert(rest.to_multiset() =~= a.to_multiset().remove(x));
        lemma_map_values_multiset(rest, others, f);
        assert(others.map_values(f).len() == b.len() - 1);
        assert(a.map_values(f) =~= rest.map_values(f).push(f(x)));
        assert(b.map_values(f) =~= others.map_values(f).insert(i, f(x)));
        vstd::seq_lib::to_multiset_insert(others.map_values(f), i, f(x));
    }
}

/// The canonical query depends only on which pairs a query holds, not on
/// the order they come in.
pub proof fn lemma_canonical_query_order_free(a: Seq<(Seq<char>, Seq<char>)>, b: Seq<(Seq<char>, Seq<char>)>)
    requires
        a.to_multiset() == b.to_multiset(),
    ensures
        spec_canonical_query(a) == spec_canonical_query(b),
{
    let f = |p: (Seq<char>, Seq<char>)| encode_pair(p);
    let ea = a.map_values(f);
    let eb = b.map_values(f);
    lemma_map_values_multiset(a, b, f);
    lemma_pair_order_total();
    ea.lemma_sort_by_ensures(pair_order());
    eb.lemma_sort_by_ensures(pair_order());
    vstd::seq_lib::lemma_sorted_unique(ea.sort_by(pair_order()), eb.sort_by(pair_order()), pair_order());
}

/// Writes sorted pairs as `key=value` joined with `&`.
fn join_query_items(sorted: &Vec<(String, String)>) -> (r: String)
    ensures
        r@ == join_with(
            pair_texts(sorted@).map_values(|p: (Seq<char>, Seq<char>)| query_item(p)),
            '&',
        ),
{
    let ghost items = pair_texts(sorted@).map_values(|p: (Seq<char>, Seq<char>)| query_item(p));
    let n = sorted.len();
    let mut out = String::new();
    for i in 0..n
        invariant
            n == sorted@.len(),
            items == pair_texts(sorted@).map_values(|p: (Seq<char>, Seq<char>)| query_item(p)),
            out@ == join_with(items.take(i as int), '&'),
    {
        let ghost before = out@;
        if i > 0 {
            push_char(&mut out, '&');
        }
        out.append(sorted[i].0.as_str());
        push_char(&mut out, '=');
        out.append(sorted[i].1.as_str());
        proof {
            let t = items.take(i + 1);
            assert(t.drop_last() =~= items.take(i as int));
            assert(items[i as int] == query_item((sorted@[i as int].0@, sorted@[i as int].1@)));
            if i == 0 {
                assert(out@ =~= items[0]);
            } else {
                assert(out@ =~= before + seq!['&'] + items[i as int]);
            }
        }
    }
    assert(items.take(n as int) =~= items);
    out
}

/// Builds the SigV4 canonical query string from decoded query pairs.
pub fn canonical_query(pairs: &Vec<(String, String)>) -> (r: String)
    ensures
        r@ == spec_canonical_query(pair_texts(pairs@)),
{
    let ghost encoded = pair_texts(pairs@).map_values(|p: (Seq<char>, Seq<char>)| encode_pair(p));
    let n = pairs.len();
    let mut sorted: Vec<(String, String)> = Vec::new();
    proof {
        assert(sorted_by(pair_texts(sorted@), pair_order()));
        assert(encoded.take(0) =~= Seq::<(Seq<char>, Seq<char>)>::empty());
        assert(pair_texts(sorted@) =~= Seq::<(Seq<char>, Seq<char>)>::empty());
    }
    for i in 0..n
        invariant
            n == pairs@.len(),
            encoded == pair_texts(pairs@).map_values(|p: (Seq<char>, Seq<char>)| encode_pair(p)),
            sorted_by(pair_texts(sorted@), pair_order()),
            pair_texts(sorted@).to_multiset() == encoded.take(i as int).to_multiset(),
    {
        let key = percent_encode_query(pairs[i].0.as_str());
        let value = percent_encode_query(pairs[i].1.as_str());
        insert_sorted(&mut sorted, key, value);
        proof {
            assert(encoded[i as int] == (key@, value@));
            assert(encoded.take(i + 1) =~= encoded.take(i as int).push(encoded[i as int]));
        }
    }
    proof {
        assert(encoded.take(n as int) =~= encoded);
        lemma_pair_order_total();
        encoded.lemma_sort_by_ensures(pair_order());
        vstd::seq_lib::lemma_sorted_unique(pair_texts(sorted@), encoded.sort_by(pair_order()), pair_order());
    }
    join_query_items(&sorted)
}

/// The SigV4 canonical request of a presigned URL: method, canonical URI,
/// canonical query, the `host` header as the only signed header and an
/// unsigned payload.
pub open spec fn spec_canonical_request(method: Seq<char>, uri: Seq<char>, query: Seq<char>, host: Seq<char>) -> Seq<char> {
    method + seq!['\n'] + uri + seq!['\n'] + query + "\nhost:"@ + host + "\n\nhost\nUNSIGNED-PAYLOAD"@
}

/// Builds the SigV4 canonical request.
pub fn canonical_request(method: &str, uri: &str, query: &str, host: &str) -> (r: String)
    ensures
        r@ == spec_canonical_request(method@, uri@, query@, host@),
{
    let mut out = String::new();
    out.append(method);
    push_char(&mut out, '\n');
    out.append(uri);
    push_char(&mut out, '\n');
    out.append(query);
    out.append("\nhost:");
    out.append(host);
    out.append("\n\nhost\nUNSIGNED-PAYLOAD");
    out
}

/// The SigV4 credential scope `date/region/s3/aws4_request`.
pub open spec fn spec_credential_scope(date: Seq<char>, region: Seq<char>) -> Seq<char> {
    date + seq!['/'] + region + "/s3/aws4_request"@
}

/// Builds the SigV4 credential scope.
pub fn credential_scope(date: &str, region: &str) -> (r: String)
    ensures
        r@ == spec_credential_scope(date@, region@),
{
    let mut out = String::new();
    out.append(date);
    push_char(&mut out, '/');
    out.append(region);
    out.append("/s3/aws4_request");
    out
}

/// The SigV4 string to sign: algorithm, timestamp, scope and the hex
/// SHA-256 of the canonical request, one per line.
pub open spec fn spec_string_to_sign(amz_date: Seq<char>, scope: Seq<char>, canonical_request: Seq<char>) -> Seq<char> {
    "AWS4-HMAC-SHA256\n"@ + amz_date + seq!['\n'] + scope + seq!['\n'] + hex_lower(
        sha256(vstd::utf8::encode_utf8(canonical_request)),
    )
}

/// Builds the SigV4 string to sign.
pub fn string_to_sign(amz_date: &str, scope: &str, canonical_request: &str) -> (r: String)
    ensures
        r@ == spec_string_to_sign(amz_date@, scope@, canonical_request@),
{
    let digest = sha256_digest(canonical_request.as_bytes());
    let digest_hex = hex_encode(digest.as_slice());
    let mut out = String::new();
    out.append("AWS4-HMAC-SHA256\n");
    out.append(amz_date);
    push_char(&mut out, '\n');
    out.append(scope);
    push_char(&mut out, '\n');
    out.append(digest_hex.as_str());
    out
}

/// The SigV4 signature: hex HMAC of the string to sign under the signing
/// key derived from the secret, date and region.
pub open spec fn spec_signature(secret: Seq<char>, date: Seq<char>, region: Seq<char>, string_to_sign: Seq<char>) -> Seq<char> {
    hex_lower(hmac_sha256_tag(spec_signing_key(secret, date, region), vstd::utf8::encode_utf8(string_to_sign)))
}

/// Computes the SigV4 signature of a string to sign.
pub fn signature(secret: &str, date: &str, region: &str, string_to_sign: &str) -> (r: Result<String, StorageError>)
    ensures
        r matches Ok(s) && s@ == spec_signature(secret@, date@, region@, string_to_sign@),
{
    let key = signing_key(secret, date, region)?;
    let tag = hmac_sha256(key.as_slice(), string_to_sign.as_bytes());
    Ok(hex_encode(tag.as_slice()))
}

} // verus!
