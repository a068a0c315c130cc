//! Character-level text handling: trimming, searching and splitting,
//! stated over the `Seq<char>` view of strings.
use vstd::prelude::*;
use vstd::string::*;

verus! {

broadcast use vstd::string::group_string_axioms;

// ---------------------------------------------------------------------------
// Character classes
// ---------------------------------------------------------------------------

/// Rust's `char::is_whitespace`: the Unicode `White_Space` property.
pub open spec fn is_whitespace(c: char) -> bool {
    ||| c == '\t'
    ||| c == '\n'
    ||| c == '\u{b}'
    ||| c == '\u{c}'
    ||| c == '\r'
    ||| c == ' '
    ||| c == '\u{85}'
    ||| c == '\u{a0}'
    ||| c == '\u{1680}'
    ||| ('\u{2000}' <= c && c <= '\u{200a}')
    ||| c == '\u{2028}'
    ||| c == '\u{2029}'
    ||| c == '\u{202f}'
    ||| c == '\u{205f}'
    ||| c == '\u{3000}'
}

/// The sets of characters that are stripped from the ends of a text.
#[derive(Clone, Copy)]
pub enum CharClass {
    /// Unicode white space.
    Whitespace,
    /// The list markers `-`, `*` and the bullet `\u{2022}`.
    Bullet,
    /// The character `;`.
    Semicolon,
}

pub open spec fn in_class(c: char, k: CharClass) -> bool {
    match k {
        CharClass::Whitespace => is_whitespace(c),
        CharClass::Bullet => c == '-' || c == '\u{2022}' || c == '*',
        CharClass::Semicolon => c == ';',
    }
}

pub fn is_in_class(c: char, k: CharClass) -> (r: bool)
    ensures
        r == in_class(c, k),
{
    match k {
        CharClass::Whitespace => {
            c == '\t' || c == '\n' || c == '\u{b}' || c == '\u{c}' || c == '\r' || c == ' '
                || c == '\u{85}' || c == '\u{a0}' || c == '\u{1680}' || ('\u{2000}' <= c && c
                <= '\u{200a}') || c == '\u{2028}' || c == '\u{2029}' || c == '\u{202f}' || c
                == '\u{205f}' || c == '\u{3000}'
        },
        CharClass::Bullet => c == '-' || c == '\u{2022}' || c == '*',
        CharClass::Semicolon => c == ';',
    }
}

// ---------------------------------------------------------------------------
// Stripping
// ---------------------------------------------------------------------------

/// `s` without its leading characters of class `k` (`trim_start_matches`).
pub open spec fn strip_leading(s: Seq<char>, k: CharClass) -> Seq<char>
    decreases s.len(),
{
    if s.len() > 0 && in_class(s[0], k) {
        strip_leading(s.drop_first(), k)
    } else {
        s
    }
}

/// `s` without its trailing characters of class `k` (`trim_end_matches`).
pub open spec fn strip_trailing(s: Seq<char>, k: CharClass) -> Seq<char>
    decreases s.len(),
{
    if s.len() > 0 && in_class(s.last(), k) {
        strip_trailing(s.drop_last(), k)
    } else {
        s
    }
}

/// `str::trim`: white space removed from both ends.
pub open spec fn trim(s: Seq<char>) -> Seq<char> {
    strip_trailing(strip_leading(s, CharClass::Whitespace), CharClass::Whitespace)
}

proof fn lemma_strip_leading_range(s: Seq<char>, a: int, i: int, b: int, k: CharClass)
    requires
        0 <= a <= i <= b <= s.len(),
        forall|j: int| a <= j < i ==> in_class(#[trigger] s[j], k),
        i < b ==> !in_class(s[i], k),
    ensures
        strip_leading(s.subrange(a, b), k) == s.subrange(i, b),
    decreases i - a,
{
    if a < i {
        assert(s.subrange(a, b).drop_first() =~= s.subrange(a + 1, b));
        lemma_strip_leading_range(s, a + 1, i, b, k);
    }
}

proof fn lemma_strip_trailing_range(s: Seq<char>, a: int, e: int, b: int, k: CharClass)
    requires
        0 <= a <= e <= b <= s.len(),
        forall|j: int| e <= j < b ==> in_class(#[trigger] s[j], k),
        a < e ==> !in_class(s[e - 1], k),
    ensures
        strip_trailing(s.subrange(a, b), k) == s.subrange(a, e),
    decreases b - e,
{
    if e < b {
        assert(s.subrange(a, b).drop_last() =~= s.subrange(a, b - 1));
        lemma_strip_trailing_range(s, a, e, b - 1, k);
    }
}

proof fn lemma_strip_leading_len(s: Seq<char>, k: CharClass)
    ensures
        strip_leading(s, k).len() <= s.len(),
        s.len() > 0 && in_class(s[0], k) ==> strip_leading(s, k).len() < s.len(),
    decreases s.len(),
{
    if s.len() > 0 && in_class(s[0], k) {
        lemma_strip_leading_len(s.drop_first(), k);
    }
}

proof fn lemma_strip_trailing_len(s: Seq<char>, k: CharClass)
    ensures
        strip_trailing(s, k).len() <= s.len(),
        s.len() > 0 && in_class(s.last(), k) ==> strip_trailing(s, k).len() < s.len(),
    decreases s.len(),
{
    if s.len() > 0 && in_class(s.last(), k) {
        lemma_strip_trailing_len(s.drop_last(), k);
    }
}

/// A text that does not start or end with white space is its own trim.
pub proof fn lemma_trim_fixed(s: Seq<char>)
    requires
        s.len() > 0 ==> !is_whitespace(s[0]) && !is_whitespace(s.last()),
    ensures
        trim(s) == s,
{
}

/// A text that is its own trim neither starts nor ends with white space.
pub proof fn lemma_trimmed_ends(s: Seq<char>)
    requires
        trim(s) == s,
        s.len() > 0,
    ensures
        !is_whitespace(s[0]),
        !is_whitespace(s.last()),
{
    lemma_strip_leading_len(s, CharClass::Whitespace);
    lemma_strip_trailing_len(strip_leading(s, CharClass::Whitespace), CharClass::Whitespace);
    if !is_whitespace(s[0]) {
        assert(strip_leading(s, CharClass::Whitespace) == s);
        lemma_strip_trailing_len(s, CharClass::Whitespace);
    }
}

/// The characters of a string, in order.
pub fn chars_of(s: &str) -> (v: Vec<char>)
    ensures
        v@ == s@,
{
    let mut v: Vec<char> = Vec::new();
    let mut it = s.chars();
    loop
        invariant
            v@ + vstd::std_specs::iter::IteratorSpec::remaining(&it) == s@,
            vstd::std_specs::iter::IteratorSpec::obeys_prophetic_iter_laws(&it),
            vstd::std_specs::iter::IteratorSpec::decrease(&it) is Some,
        ensures
            v@ == s@,
        decreases vstd::std_specs::iter::IteratorSpec::decrease(&it)->0,
    {
        match it.next() {
            Some(c) => {
                v.push(c);
                assert(v@ + vstd::std_specs::iter::IteratorSpec::remaining(&it) =~= s@);
            },
            None => {
                assert(v@ =~= s@);
                break ;
            },
        }
    }
    v
}


/// The first index in `lo..hi` whose character is not of class `k`, or `hi`.
fn skip_forward(v: &Vec<char>, lo: usize, hi: usize, k: CharClass) -> (i: usize)
    requires
        lo <= hi <= v.len(),
    ensures
        lo <= i <= hi,
        forall|j: int| lo <= j < i ==> in_class(#[trigger] v@[j], k),
        i < hi ==> !in_class(v@[i as int], k),
{
    let mut i = lo;
    while i < hi
        invariant
            lo <= i <= hi <= v.len(),
            forall|j: int| lo <= j < i ==> in_class(#[trigger] v@[j], k),
        decreases hi - i,
    {
        if !is_in_class(v[i], k) {
            return i;
        }
        i += 1;
    }
    i
}

/// The end of `lo..hi` once the trailing characters of class `k` are dropped.
fn skip_backward(v: &Vec<char>, lo: usize, hi: usize, k: CharClass) -> (e: usize)
    requires
        lo <= hi <= v.len(),
    ensures
        lo <= e <= hi,
        forall|j: int| e <= j < hi ==> in_class(#[trigger] v@[j], k),
        lo < e ==> !in_class(v@[e - 1], k),
{
    let mut e = hi;
    while e > lo
        invariant
            lo <= e <= hi <= v.len(),
            forall|j: int| e <= j < hi ==> in_class(#[trigger] v@[j], k),
        decreases e - lo,
    {
        if !is_in_class(v[e - 1], k) {
            return e;
        }
        e -= 1;
    }
    e
}

/// `s` without its leading characters of class `k`.
pub fn strip_start<'a>(s: &'a str, k: CharClass) -> (r: &'a str)
    ensures
        r@ == strip_leading(s@, k),
{
    let v = chars_of(s);
    let n = v.len();
    let a = skip_forward(&v, 0, n, k);
    proof {
        lemma_strip_leading_range(v@, 0, a as int, n as int, k);
        assert(v@.subrange(0, n as int) =~= v@);
    }
    s.substring_char(a, n)
}

/// `s` without its trailing characters of class `k`.
pub fn strip_end<'a>(s: &'a str, k: CharClass) -> (r: &'a str)
    ensures
        r@ == strip_trailing(s@, k),
{
    let v = chars_of(s);
    let n = v.len();
    let e = skip_backward(&v, 0, n, k);
    proof {
        lemma_strip_trailing_range(v@, 0, e as int, n as int, k);
        assert(v@.subrange(0, n as int) =~= v@);
    }
    s.substring_char(0, e)
}

/// `str::trim`.
pub fn trim_str<'a>(s: &'a str) -> (r: &'a str)
    ensures
        r@ == trim(s@),
{
    strip_end(strip_start(s, CharClass::Whitespace), CharClass::Whitespace)
}

// ---------------------------------------------------------------------------
// Searching
// ---------------------------------------------------------------------------

/// `p` occurs in `s` starting at index `i`.
pub open spec fn occurs_at(s: Seq<char>, p: Seq<char>, i: int) -> bool {
    0 <= i && i + p.len() <= s.len() && s.subrange(i, i + p.len()) == p
}

/// `str::contains` with a string pattern.
pub open spec fn contains(s: Seq<char>, p: Seq<char>) -> bool {
    exists|i: int| occurs_at(s, p, i)
}

pub open spec fn is_first_occurrence(s: Seq<char>, p: Seq<char>, i: int) -> bool {
    &&& occurs_at(s, p, i)
    &&& forall|j: int| 0 <= j < i ==> !occurs_at(s, p, j)
}

/// `str::find`: the index of the first occurrence of `p` in `s`, if any.
pub open spec fn first_occurrence(s: Seq<char>, p: Seq<char>) -> Option<int> {
    if exists|i: int| is_first_occurrence(s, p, i) {
        Some(choose|i: int| is_first_occurrence(s, p, i))
    } else {
        None
    }
}

pub proof fn lemma_first_occurrence_is(s: Seq<char>, p: Seq<char>, i: int)
    requires
        is_first_occurrence(s, p, i),
    ensures
        first_occurrence(s, p) == Some(i),
        contains(s, p),
{
    let k = choose|k: int| is_first_occurrence(s, p, k);
    assert(is_first_occurrence(s, p, k));
    if k < i {
        assert(!occurs_at(s, p, k));
    }
    if i < k {
        assert(!occurs_at(s, p, i));
    }
}

pub proof fn lemma_has_first_occurrence(s: Seq<char>, p: Seq<char>, i: int)
    requires
        occurs_at(s, p, i),
    ensures
        first_occurrence(s, p) is Some,
        is_first_occurrence(s, p, first_occurrence(s, p)->0),
    decreases i,
{
    if exists|j: int| 0 <= j < i && occurs_at(s, p, j) {
        let j = choose|j: int| 0 <= j < i && occurs_at(s, p, j);
        lemma_has_first_occurrence(s, p, j);
    } else {
        assert(is_first_occurrence(s, p, i));
        lemma_first_occurrence_is(s, p, i);
    }
}

/// A text contains a pattern exactly when it has a first occurrence of it.
pub proof fn lemma_contains_iff_first(s: Seq<char>, p: Seq<char>)
    ensures
        contains(s, p) <==> first_occurrence(s, p) is Some,
        first_occurrence(s, p) is Some ==> is_first_occurrence(s, p, first_occurrence(s, p)->0),
{
    if contains(s, p) {
        let i = choose|i: int| occurs_at(s, p, i);
        lemma_has_first_occurrence(s, p, i);
    }
    if first_occurrence(s, p) is Some {
        let i = choose|i: int| is_first_occurrence(s, p, i);
        assert(is_first_occurrence(s, p, i));
        assert(occurs_at(s, p, i));
    }
}

fn matches_at(hay: &Vec<char>, needle: &Vec<char>, i: usize) -> (r: bool)
    requires
        i + needle.len() <= hay.len(),
    ensures
        r == occurs_at(hay@, needle@, i as int),
{
    let m = needle.len();
    let mut k: usize = 0;
    while k < m
        invariant
            k <= m == needle.len(),
            i + m <= hay.len(),
            forall|t: int| 0 <= t < k ==> hay@[i + t] == needle@[t],
        decreases m - k,
    {
        if hay[i + k] != needle[k] {
            assert(hay@.subrange(i as int, i + m)[k as int] != needle@[k as int]);
            return false;
        }
        k += 1;
    }
    assert(hay@.subrange(i as int, i + m) =~= needle@);
    true
}

/// The index of the first occurrence of `needle` in `hay`.
pub fn find_chars(hay: &Vec<char>, needle: &Vec<char>) -> (r: Option<usize>)
    ensures
        match r {
            Some(i) => first_occurrence(hay@, needle@) == Some(i as int) && is_first_occurrence(
                hay@,
                needle@,
                i as int,
            ),
            None => first_occurrence(hay@, needle@) is None,
        },
        r is Some <==> contains(hay@, needle@),
{
    proof {
        lemma_contains_iff_first(hay@, needle@);
    }
    let n = hay.len();
    let m = needle.len();
    if m > n {
        return None;
    }
    if m == 0 {
        assert(occurs_at(hay@, needle@, 0) && is_first_occurrence(hay@, needle@, 0)) by {
            assert(hay@.subrange(0, 0) =~= needle@);
        }
        proof {
            lemma_first_occurrence_is(hay@, needle@, 0);
        }
        return Some(0);
    }
    let mut i: usize = 0;
    while i <= n - m
        invariant
            1 <= m <= n,
            n == hay.len(),
            m == needle.len(),
            i <= n - m + 1,
            forall|j: int| 0 <= j < i ==> !occurs_at(hay@, needle@, j),
        decreases n - m + 1 - i,
    {
        if matches_at(hay, needle, i) {
            proof {
                lemma_first_occurrence_is(hay@, needle@, i as int);
            }
            return Some(i);
        }
        i += 1;
    }
    assert(forall|j: int| !occurs_at(hay@, needle@, j));
    None
}

/// Whether `needle` occurs in `hay`.
pub fn contains_chars(hay: &Vec<char>, needle: &Vec<char>) -> (r: bool)
    ensures
        r == contains(hay@, needle@),
{
    find_chars(hay, needle).is_some()
}

/// `str::contains` with a string pattern.
pub fn contains_str(s: &str, p: &str) -> (r: bool)
    ensures
        r == contains(s@, p@),
{
    contains_chars(&chars_of(s), &chars_of(p))
}

// ---------------------------------------------------------------------------
// Splitting into lines
// ---------------------------------------------------------------------------

/// The views of a sequence of strings.
pub open spec fn views(v: Seq<String>) -> Seq<Seq<char>> {
    v.map_values(|x: String| x@)
}

/// `s` split at every `sep` (`str::split`): one more piece than there are separators.
pub open spec fn split_on(s: Seq<char>, sep: char) -> Seq<Seq<char>>
    decreases s.len(),
{
    if s.len() == 0 {
        seq![Seq::<char>::empty()]
    } else {
        let prev = split_on(s.drop_last(), sep);
        if s.last() == sep {
            prev.push(Seq::<char>::empty())
        } else {
            prev.update(prev.len() - 1, prev.last().push(s.last()))
        }
    }
}

pub proof fn lemma_split_on_nonempty(s: Seq<char>, sep: char)
    ensures
        split_on(s, sep).len() >= 1,
    decreases s.len(),
{
    if s.len() > 0 {
        lemma_split_on_nonempty(s.drop_last(), sep);
    }
}

/// The lines of `s`, split at each `'\n'`.
pub fn split_lines(s: &str) -> (r: Vec<String>)
    ensures
        views(r@) == split_on(s@, '\n'),
{
    let v = chars_of(s);
    let n = v.len();
    let mut lines: Vec<String> = Vec::new();
    let mut start: usize = 0;
    let mut i: usize = 0;
    assert(v@.take(0) =~= Seq::<char>::empty());
    assert(views(lines@).push(v@.subrange(0, 0)) =~= split_on(v@.take(0), '\n'));
    while i < n
        invariant
            n == v.len(),
            v@ == s@,
            start <= i <= n,
            views(lines@).push(v@.subrange(start as int, i as int)) == split_on(
                v@.take(i as int),
                '\n',
            ),
        decreases n - i,
    {
        let ghost prev = split_on(v@.take(i as int), '\n');
        proof {
            assert(v@.take(i + 1).drop_last() =~= v@.take(i as int));
            lemma_split_on_nonempty(v@.take(i as int), '\n');
        }
        let ghost done = views(lines@);
        if v[i] == '\n' {
            let line = s.substring_char(start, i).to_owned();
            assert(v@.subrange(i + 1, i + 1) =~= Seq::<char>::empty());
            lines.push(line);
            assert(views(lines@) =~= done.push(v@.subrange(start as int, i as int)));
            assert(views(lines@).push(v@.subrange(i + 1, i + 1)) =~= prev.push(Seq::<char>::empty()));
            start = i + 1;
        } else {
            assert(v@.subrange(start as int, i + 1) =~= v@.subrange(start as int, i as int).push(
                v@[i as int],
            ));
            assert(views(lines@).push(v@.subrange(start as int, i + 1)) =~= prev.update(
                prev.len() - 1,
                prev.last().push(v@[i as int]),
            ));
        }
        i += 1;
    }
    let last = s.substring_char(start, n).to_owned();
    lines.push(last);
    assert(v@.take(n as int) =~= v@);
    assert(views(lines@) =~= split_on(s@, '\n'));
    lines
}

// ---------------------------------------------------------------------------
// Comparing and lower-casing
// ---------------------------------------------------------------------------

/// `a` and `b` hold the same characters.
pub fn same_text(a: &str, b: &str) -> (r: bool)
    ensures
        r == (a@ == b@),
{
    a.to_owned() == b.to_owned()
}

/// `a` and `b` hold the same characters.
pub fn chars_equal(a: &Vec<char>, b: &Vec<char>) -> (r: bool)
    ensures
        r == (a@ == b@),
{
    if a.len() != b.len() {
        return false;
    }
    let mut i: usize = 0;
    while i < a.len()
        invariant
            a.len() == b.len(),
            i <= a.len(),
            forall|j: int| 0 <= j < i ==> a@[j] == b@[j],
        decreases a.len() - i,
    {
        if a[i] != b[i] {
            return false;
        }
        i += 1;
    }
    assert(a@ =~= b@);
    true
}

/// ASCII upper-case letters mapped to lower case; every other character kept.
pub open spec fn ascii_lower(c: char) -> char {
    if 'A' <= c && c <= 'Z' {
        ((c as u32) + 32) as char
    } else {
        c
    }
}

pub open spec fn lower_seq(s: Seq<char>) -> Seq<char> {
    s.map_values(|c: char| ascii_lower(c))
}

pub fn to_ascii_lower(c: char) -> (r: char)
    ensures
        r == ascii_lower(c),
{
    if 'A' <= c && c <= 'Z' {
        ((c as u8) + 32) as char
    } else {
        c
    }
}

/// The characters of `s`, ASCII letters lower-cased.
pub fn lower_chars(s: &str) -> (r: Vec<char>)
    ensures
        r@ == lower_seq(s@),
{
    let v = chars_of(s);
    let n = v.len();
    let mut r: Vec<char> = Vec::new();
    let mut i: usize = 0;
    while i < n
        invariant
            n == v.len(),
            v@ == s@,
            i <= n,
            r@ == lower_seq(v@.take(i as int)),
        decreases n - i,
    {
        r.push(to_ascii_lower(v[i]));
        i += 1;
        assert(r@ =~= lower_seq(v@.take(i as int)));
    }
    assert(v@.take(n as int) =~= v@);
    r
}


// ---------------------------------------------------------------------------
// Byte length
// ---------------------------------------------------------------------------

/// The number of bytes of `c` in UTF-8.
pub open spec fn utf8_width(c: char) -> nat {
    if c <= '\u{7f}' {
        1
    } else if c <= '\u{7ff}' {
        2
    } else if c <= '\u{ffff}' {
        3
    } else {
        4
    }
}

/// The number of bytes of `s` in UTF-8 (what `str::len` returns).
pub open spec fn utf8_len(s: Seq<char>) -> nat
    decreases s.len(),
{
    if s.len() == 0 {
        0
    } else {
        utf8_len(s.drop_last()) + utf8_width(s.last())
    }
}

proof fn lemma_utf8_len_prefix(s: Seq<char>, j: int)
    requires
        0 <= j <= s.len(),
    ensures
        utf8_len(s.take(j)) <= utf8_len(s),
    decreases s.len() - j,
{
    if j < s.len() {
        lemma_utf8_len_prefix(s, j + 1);
        assert(s.take(j + 1).drop_last() =~= s.take(j));
    } else {
        assert(s.take(j) =~= s);
    }
}

fn char_width(c: char) -> (r: usize)
    ensures
        r == utf8_width(c),
{
    if c <= '\u{7f}' {
        1
    } else if c <= '\u{7ff}' {
        2
    } else if c <= '\u{ffff}' {
        3
    } else {
        4
    }
}

/// Whether the UTF-8 encoding of `v` is longer than `limit` bytes.
pub fn utf8_len_exceeds(v: &Vec<char>, limit: usize) -> (r: bool)
    requires
        limit < usize::MAX - 4,
    ensures
        r == (utf8_len(v@) > limit),
{
    let n = v.len();
    let mut total: usize = 0;
    let mut i: usize = 0;
    assert(v@.take(0) =~= Seq::<char>::empty());
    while i < n
        invariant
            n == v.len(),
            i <= n,
            limit < usize::MAX - 4,
            total == utf8_len(v@.take(i as int)),
            total <= limit,
        decreases n - i,
    {
        assert(v@.take(i + 1).drop_last() =~= v@.take(i as int));
        total = total + char_width(v[i]);
        i += 1;
        if total > limit {
            proof {
                lemma_utf8_len_prefix(v@, i as int);
            }
            return true;
        }
    }
    assert(v@.take(n as int) =~= v@);
    false
}

} // verus!
