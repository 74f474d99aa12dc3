use vstd::prelude::*;

verus! {

broadcast use vstd::string::group_string_axioms;

/// Whether `c` carries the Unicode `White_Space` property: U+0009 to
/// U+000D, U+0020, U+0085, U+00A0, U+1680, U+2000 to U+200A, U+2028,
/// U+2029, U+202F, U+205F and U+3000.
pub open spec fn is_unicode_whitespace(c: char) -> bool {
    let n = c as u32;
    ||| 0x9 <= n <= 0xD
    ||| n == 0x20
    ||| n == 0x85
    ||| n == 0xA0
    ||| n == 0x1680
    ||| 0x2000 <= n <= 0x200A
    ||| n == 0x2028
    ||| n == 0x2029
    ||| n == 0x202F
    ||| n == 0x205F
    ||| n == 0x3000
}

/// `char::is_whitespace`: true exactly for characters with the Unicode
/// `White_Space` property.
#[verifier::external_body]
pub(crate) fn char_is_whitespace(c: char) -> (r: bool)
    ensures
        r == is_unicode_whitespace(c),
{
    c.is_whitespace()
}

/// The characters of a string in order.
pub fn chars_of(s: &str) -> (v: Vec<char>)
    ensures
        v@ == s@,
{
    let mut v: Vec<char> = Vec::new();
    for c in iter: s.chars()
        invariant
            v@ == iter.seq().take(iter.index() as int),
    {
        v.push(c);
    }
    v
}


/// `String::push`: appends one character at the end.
#[verifier::external_body]
pub(crate) fn push_char(s: &mut String, c: char)
    ensures
        final(s)@ == old(s)@.push(c),
{
    s.push(c);
}

/// A string holding exactly the given characters.
pub fn string_from_chars(chars: &[char]) -> (s: String)
    ensures
        s@ == chars@,
{
    let mut s = String::new();
    let n = chars.len();
    for i in 0..n
        invariant
            n == chars@.len(),
            s@ == chars@.take(i as int),
    {
        push_char(&mut s, chars[i]);
        assert(chars@.take(i + 1) =~= chars@.take(i as int).push(chars@[i as int]));
    }
    assert(chars@.take(n as int) =~= chars@);
    s
}

/// `s` without its leading whitespace.
pub open spec fn trim_start(s: Seq<char>) -> Seq<char>
    decreases s.len(),
{
    if s.len() > 0 && is_unicode_whitespace(s[0]) {
        trim_start(s.drop_first())
    } else {
        s
    }
}

/// `s` without its trailing whitespace.
pub open spec fn trim_end(s: Seq<char>) -> Seq<char>
    decreases s.len(),
{
    if s.len() > 0 && is_unicode_whitespace(s.last()) {
        trim_end(s.drop_last())
    } else {
        s
    }
}

/// `s` without leading and trailing whitespace, as `str::trim` gives it.
pub open spec fn trim(s: Seq<char>) -> Seq<char> {
    trim_end(trim_start(s))
}

proof fn lemma_trim_start_step(s: Seq<char>, i: int)
    requires
        0 <= i < s.len(),
        is_unicode_whitespace(s[i]),
    ensures
        trim_start(s.subrange(i, s.len() as int)) == trim_start(s.subrange(i + 1, s.len() as int)),
{
    assert(s.subrange(i, s.len() as int).drop_first() =~= s.subrange(i + 1, s.len() as int));
}

proof fn lemma_trim_end_step(s: Seq<char>, j: int)
    requires
        0 < j <= s.len(),
        is_unicode_whitespace(s[j - 1]),
    ensures
        trim_end(s.take(j)) == trim_end(s.take(j - 1)),
{
    assert(s.take(j).drop_last() =~= s.take(j - 1));
}

/// Bounds `(start, end)` of the trimmed part of `chars`.
pub fn trim_bounds(chars: &[char]) -> (r: (usize, usize))
    ensures
        r.0 <= r.1 <= chars@.len(),
        chars@.subrange(r.0 as int, r.1 as int) == trim(chars@),
{
    let n = chars.len();
    let mut start: usize = 0;
    assert(chars@.subrange(0, n as int) =~= chars@);
    while start < n && char_is_whitespace(chars[start])
        invariant
            start <= n == chars@.len(),
            trim_start(chars@) == trim_start(chars@.subrange(start as int, n as int)),
        decreases n - start,
    {
        proof {
            lemma_trim_start_step(chars@, start as int);
        }
        start = start + 1;
    }
    let ghost rest = chars@.subrange(start as int, n as int);
    assert(trim_start(chars@) == rest);
    let mut end: usize = n;
    assert(rest.take(rest.len() as int) =~= rest);
    while end > start && char_is_whitespace(chars[end - 1])
        invariant
            start <= end <= n == chars@.len(),
            rest == chars@.subrange(start as int, n as int),
            trim_end(rest) == trim_end(rest.take(end - start)),
        decreases end - start,
    {
        proof {
            assert(rest[end - start - 1] == chars@[end - 1]);
            lemma_trim_end_step(rest, end - start);
        }
        end = end - 1;
    }
    assert(rest.take(end - start) =~= chars@.subrange(start as int, end as int));
    (start, end)
}

/// `str::trim`.
pub fn trim_str(s: &str) -> (r: String)
    ensures
        r@ == trim(s@),
{
    let chars = chars_of(s);
    let (start, end) = trim_bounds(chars.as_slice());
    string_from_chars(&chars.as_slice()[start..end])
}


/// The text `String::from_utf8_lossy` reads from a byte string.
pub uninterp spec fn utf8_lossy(bytes: Seq<u8>) -> Seq<char>;

/// `String::from_utf8_lossy`: the bytes read as UTF-8, each invalid
/// sequence replaced by U+FFFD; valid UTF-8 reads as the text it encodes.
#[verifier::external_body]
pub(crate) fn decode_utf8_lossy(bytes: &[u8]) -> (r: String)
    ensures
        r@ == utf8_lossy(bytes@),
        vstd::utf8::valid_utf8(bytes@) ==> r@ == vstd::utf8::decode_utf8(bytes@),
{
    String::from_utf8_lossy(bytes).into_owned()
}

/// The Unicode lowercase mapping of a string, as `str::to_lowercase` gives it.
pub uninterp spec fn unicode_lowercase(s: Seq<char>) -> Seq<char>;

/// `str::to_lowercase`: the string with every character replaced by its
/// Unicode lowercase mapping.
#[verifier::external_body]
pub(crate) fn to_lowercase(s: &str) -> (r: String)
    ensures
        r@ == unicode_lowercase(s@),
{
    s.to_lowercase()
}

/// Whether `c` is an ASCII decimal digit.
pub open spec fn is_ascii_digit(c: char) -> bool {
    48 <= (c as u32) <= 57
}

/// Whether `s` is one or more ASCII decimal digits.
pub open spec fn all_digits(s: Seq<char>) -> bool {
    s.len() > 0 && forall|i: int| 0 <= i < s.len() ==> is_ascii_digit(#[trigger] s[i])
}

/// The value of a string of decimal digits.
pub open spec fn digits_value(s: Seq<char>) -> int
    decreases s.len(),
{
    if s.len() == 0 {
        0
    } else {
        digits_value(s.drop_last()) * 10 + ((s.last() as u32) - 48)
    }
}

/// The integer an optional `+` or `-` followed by one or more decimal
/// digits writes, if the text has that form.
pub open spec fn parsed_integer(s: Seq<char>) -> Option<int> {
    if s.len() > 0 && s[0] == '-' {
        if all_digits(s.skip(1)) {
            Some(-digits_value(s.skip(1)))
        } else {
            None
        }
    } else if s.len() > 0 && s[0] == '+' {
        if all_digits(s.skip(1)) {
            Some(digits_value(s.skip(1)))
        } else {
            None
        }
    } else if all_digits(s) {
        Some(digits_value(s))
    } else {
        None
    }
}

/// The `i64` that `str::parse::<i64>` reads from a string: an optional
/// sign followed by one or more ASCII decimal digits whose value fits in
/// `i64`; anything else, surrounding whitespace included, is refused.
pub open spec fn parsed_i64(s: Seq<char>) -> Option<i64> {
    match parsed_integer(s) {
        Some(v) => if i64::MIN <= v <= i64::MAX {
            Some(v as i64)
        } else {
            None
        },
        None => None,
    }
}

/// `str::parse::<i64>`, with the error dropped.
#[verifier::external_body]
pub(crate) fn parse_i64(s: &str) -> (r: Option<i64>)
    ensures
        r == parsed_i64(s@),
{
    s.parse::<i64>().ok()
}

/// The character of the decimal digit `d` in `0..10`.
pub open spec fn decimal_digit(d: int) -> char {
    (d + 48) as char
}

/// The decimal digits of `n`, most significant first, with no leading zero.
pub open spec fn decimal_digits(n: nat) -> Seq<char>
    decreases n,
{
    if n < 10 {
        seq![decimal_digit(n as int)]
    } else {
        decimal_digits(n / 10).push(decimal_digit((n % 10) as int))
    }
}

/// The decimal text of an integer as `Display` writes it: `-` before a
/// negative number, then its digits.
pub open spec fn decimal_text(n: int) -> Seq<char> {
    if n < 0 {
        seq!['-'] + decimal_digits((-n) as nat)
    } else {
        decimal_digits(n as nat)
    }
}

/// The decimal text that `Display` writes for an `i64`.
pub open spec fn i64_decimal(n: i64) -> Seq<char> {
    decimal_text(n as int)
}

/// `i64::to_string`.
#[verifier::external_body]
pub(crate) fn i64_to_text(n: i64) -> (r: String)
    ensures
        r@ == i64_decimal(n),
{
    n.to_string()
}

/// The decimal text that `Display` writes for an `i32`.
pub open spec fn i32_decimal(n: i32) -> Seq<char> {
    decimal_text(n as int)
}

/// `i32::to_string`.
#[verifier::external_body]
pub(crate) fn i32_to_text(n: i32) -> (r: String)
    ensures
        r@ == i32_decimal(n),
{
    n.to_string()
}


/// The pieces joined back together with `sep` between them.
pub open spec fn join_with(parts: Seq<Seq<char>>, sep: char) -> Seq<char>
    decreases parts.len(),
{
    if parts.len() == 0 {
        Seq::empty()
    } else if parts.len() == 1 {
        parts[0]
    } else {
        join_with(parts.drop_last(), sep) + seq![sep] + parts.last()
    }
}

/// Whether no piece holds `sep`.
pub open spec fn pieces_free_of(parts: Seq<Seq<char>>, sep: char) -> bool {
    forall|i: int, j: int| 0 <= i < parts.len() && 0 <= j < parts[i].len() ==> parts[i][j] != sep
}

/// The texts of a list of strings.
pub open spec fn texts(v: Seq<String>) -> Seq<Seq<char>> {
    v.map_values(|s: String| s@)
}

/// The pieces of `s` between occurrences of `sep`, as `str::split` gives
/// them: a separator closes the current piece and opens an empty one.
pub open spec fn split_text(s: Seq<char>, sep: char) -> Seq<Seq<char>>
    decreases s.len(),
{
    if s.len() == 0 {
        seq![Seq::empty()]
    } else {
        let before = split_text(s.drop_last(), sep);
        if s.last() == sep {
            before.push(Seq::empty())
        } else {
            before.update(before.len() - 1, before.last().push(s.last()))
        }
    }
}

proof fn lemma_split_text_nonempty(s: Seq<char>, sep: char)
    ensures
        split_text(s, sep).len() >= 1,
    decreases s.len(),
{
    if s.len() > 0 {
        lemma_split_text_nonempty(s.drop_last(), sep);
    }
}

/// `str::split(sep)`: the pieces between occurrences of `sep`; there is
/// always at least one piece, and joining them with `sep` gives `s` back.
pub fn split_on(s: &str, sep: char) -> (r: Vec<String>)
    ensures
        texts(r@) == split_text(s@, sep),
        r@.len() >= 1,
        join_with(texts(r@), sep) == s@,
        pieces_free_of(texts(r@), sep),
{
    let chars = chars_of(s);
    let n = chars.len();
    let mut parts: Vec<String> = Vec::new();
    let mut current = String::new();
    proof {
        assert(chars@.take(0) =~= Seq::<char>::empty());
        assert(texts(parts@).push(current@) =~= seq![Seq::<char>::empty()]);
    }
    for i in 0..n
        invariant
            n == chars@.len(),
            chars@ == s@,
            parts@.len() >= 0,
            join_with(texts(parts@).push(current@), sep) == chars@.take(i as int),
            pieces_free_of(texts(parts@).push(current@), sep),
            texts(parts@).push(current@) == split_text(chars@.take(i as int), sep),
    {
        let c = chars[i];
        let ghost old_parts = texts(parts@);
        let ghost old_current = current@;
        proof {
            assert(chars@.take(i + 1).drop_last() =~= chars@.take(i as int));
            assert(chars@.take(i + 1).last() == c);
            lemma_split_text_nonempty(chars@.take(i as int), sep);
        }
        if c == sep {
            let done = current;
            parts.push(done);
            current = String::new();
            proof {
                assert(texts(parts@) =~= old_parts.push(old_current));
                let all = texts(parts@).push(current@);
                assert(all.drop_last() =~= old_parts.push(old_current));
                assert(all.len() >= 2);
                assert(join_with(all, sep) == join_with(all.drop_last(), sep) + seq![sep] + all.last());
                assert(chars@.take(i + 1) =~= chars@.take(i as int) + seq![sep]);
                assert(join_with(all, sep) =~= chars@.take(i + 1));
                assert forall|a: int, b: int| 0 <= a < all.len() && 0 <= b < all[a].len() implies all[a][b] != sep by {
                    if a < all.len() - 1 {
                        assert(all[a] == old_parts.push(old_current)[a]);
                    }
                }
                assert(all =~= old_parts.push(old_current).push(Seq::empty()));
            }
        } else {
            push_char(&mut current, c);
            proof {
                let before = old_parts.push(old_current);
                let all = texts(parts@).push(current@);
                assert(texts(parts@) == old_parts);
                assert(all.drop_last() =~= before.drop_last());
                assert(all.last() == old_current.push(c));
                if before.len() == 1 {
                    assert(join_with(before, sep) == old_current);
                    assert(join_with(all, sep) == current@);
                } else {
                    assert(join_with(before, sep) == join_with(before.drop_last(), sep) + seq![sep] + old_current);
                    assert(join_with(all, sep) == join_with(all.drop_last(), sep) + seq![sep] + current@);
                }
                assert(chars@.take(i + 1) =~= chars@.take(i as int).push(c));
                assert(join_with(all, sep) =~= chars@.take(i + 1));
                assert(all =~= before.update(before.len() - 1, before.last().push(c)));
                assert forall|a: int, b: int| 0 <= a < all.len() && 0 <= b < all[a].len() implies all[a][b] != sep by {
                    if a < all.len() - 1 {
                        assert(all[a] == before[a]);
                    } else {
                        if b < old_current.len() {
                            assert(all[a][b] == before[a][b]);
                        }
                    }
                }
            }
        }
    }
    let ghost last_text = current@;
    let ghost before = parts@;
    parts.push(current);
    proof {
        assert(chars@.take(n as int) =~= chars@);
        assert(texts(parts@) =~= texts(before).push(last_text));
        assert(chars@.take(0) =~= Seq::<char>::empty());
    }
    parts
}

} // verus!
