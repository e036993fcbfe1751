//! The few operations on text that the header checks need, each stated over
//! the text's characters.
//!
//! A text that is all ASCII, as every header value is, is read in one pass.
//! Any other text is read character by character from its start, which takes
//! time quadratic in its length.

use vstd::prelude::*;
use vstd::string::StrSliceExecFns;

verus! {

broadcast use vstd::string::is_ascii_spec_bytes;

/// The text of an optional piece of text.
pub open spec fn text_of(value: Option<&str>) -> Option<Seq<char>> {
    match value {
        Some(s) => Some(s@),
        None => None,
    }
}

/// Whether `c` is white space: one of the characters that Unicode lists as
/// `White_Space`.
pub open spec fn is_space(c: char) -> bool {
    let u = c as u32;
    ||| 0x09 <= u <= 0x0d
    ||| u == 0x20
    ||| u == 0x85
    ||| u == 0xa0
    ||| u == 0x1680
    ||| 0x2000 <= u <= 0x200a
    ||| u == 0x2028
    ||| u == 0x2029
    ||| u == 0x202f
    ||| u == 0x205f
    ||| u == 0x3000
}

/// The first position at or after `i` that holds no white space.
pub open spec fn skip_spaces(s: Seq<char>, i: int) -> int
    decreases s.len() - i,
{
    if 0 <= i < s.len() && is_space(s[i]) {
        skip_spaces(s, i + 1)
    } else {
        i
    }
}

/// The end of the text before `j` without the white space that it ends in,
/// never going below `lo`.
pub open spec fn drop_spaces_back(s: Seq<char>, lo: int, j: int) -> int
    decreases j,
{
    if 0 <= lo < j <= s.len() && is_space(s[j - 1]) {
        drop_spaces_back(s, lo, j - 1)
    } else {
        j
    }
}

/// `s` without the white space at its two ends.
pub open spec fn trimmed(s: Seq<char>) -> Seq<char> {
    let a = skip_spaces(s, 0);
    let b = drop_spaces_back(s, a, s.len() as int);
    s.subrange(a, b)
}

/// The position of the first `sep` at or after `i`, or the length of `s`.
pub open spec fn find_char(s: Seq<char>, sep: char, i: int) -> int
    decreases s.len() - i,
{
    if 0 <= i < s.len() && s[i] != sep {
        find_char(s, sep, i + 1)
    } else {
        i
    }
}

/// The part of `s` before its first `sep`; all of `s` where it holds none.
pub open spec fn before_first(s: Seq<char>, sep: char) -> Seq<char> {
    s.subrange(0, find_char(s, sep, 0))
}

/// Whether `pat` stands in `s` at position `i`.
pub open spec fn occurs_at(s: Seq<char>, pat: Seq<char>, i: int) -> bool {
    0 <= i && i + pat.len() <= s.len() && s.subrange(i, i + pat.len()) == pat
}

/// Whether `pat` stands somewhere in `s`.
pub open spec fn occurs_in(s: Seq<char>, pat: Seq<char>) -> bool {
    exists|i: int| occurs_at(s, pat, i)
}

/// What is left of `s` behind `prefix`, where `s` begins with it.
pub open spec fn without_prefix(s: Seq<char>, prefix: Seq<char>) -> Option<Seq<char>> {
    if occurs_at(s, prefix, 0) {
        Some(s.subrange(prefix.len() as int, s.len() as int))
    } else {
        None
    }
}

/// Where `skip_spaces` stops: behind a run of white space, at the end of the
/// text or at a character that is none.
pub proof fn skip_spaces_stops(s: Seq<char>, i: int)
    requires
        0 <= i <= s.len(),
    ensures
        i <= skip_spaces(s, i) <= s.len(),
        forall|j: int| i <= j < skip_spaces(s, i) ==> is_space(#[trigger] s[j]),
        skip_spaces(s, i) < s.len() ==> !is_space(s[skip_spaces(s, i)]),
    decreases s.len() - i,
{
    if i < s.len() && is_space(s[i]) {
        skip_spaces_stops(s, i + 1);
    }
}

/// Where `drop_spaces_back` stops: before a run of white space, at `lo` or
/// behind a character that is none.
pub proof fn drop_spaces_back_stops(s: Seq<char>, lo: int, j: int)
    requires
        0 <= lo <= j <= s.len(),
    ensures
        lo <= drop_spaces_back(s, lo, j) <= j,
        forall|k: int| drop_spaces_back(s, lo, j) <= k < j ==> is_space(#[trigger] s[k]),
        lo < drop_spaces_back(s, lo, j) ==> !is_space(s[drop_spaces_back(s, lo, j) - 1]),
    decreases j,
{
    if lo < j && is_space(s[j - 1]) {
        drop_spaces_back_stops(s, lo, j - 1);
    }
}

/// What trimming does: the text is white space, then the trimmed text, then
/// white space, and the trimmed text neither begins nor ends with white
/// space.
pub proof fn trimmed_is_the_core(s: Seq<char>)
    ensures
        exists|a: int, b: int|
            {
                &&& 0 <= a <= b <= s.len()
                &&& #[trigger] s.subrange(a, b) == trimmed(s)
                &&& forall|i: int| 0 <= i < a ==> is_space(#[trigger] s[i])
                &&& forall|i: int| b <= i < s.len() ==> is_space(#[trigger] s[i])
            },
        trimmed(s).len() > 0 ==> !is_space(trimmed(s).first()) && !is_space(trimmed(s).last()),
{
    let a = skip_spaces(s, 0);
    skip_spaces_stops(s, 0);
    let b = drop_spaces_back(s, a, s.len() as int);
    drop_spaces_back_stops(s, a, s.len() as int);
    assert(s.subrange(a, b) == trimmed(s));
}

/// Trimming what is trimmed already changes nothing.
pub proof fn trimmed_twice(s: Seq<char>)
    ensures
        trimmed(trimmed(s)) == trimmed(s),
{
    trimmed_is_the_core(s);
    let t = trimmed(s);
    if t.len() > 0 {
        assert(skip_spaces(t, 0) == 0);
        assert(drop_spaces_back(t, 0, t.len() as int) == t.len());
        assert(t.subrange(0, t.len() as int) =~= t);
    } else {
        assert(skip_spaces(t, 0) == 0);
        assert(drop_spaces_back(t, 0, 0) == 0);
        assert(t.subrange(0, 0) =~= t);
    }
}

/// Where `find_char` stops: at the first `sep` at or after `i`, or at the end
/// of a text that has none there.
pub proof fn find_char_stops(s: Seq<char>, sep: char, i: int)
    requires
        0 <= i <= s.len(),
    ensures
        i <= find_char(s, sep, i) <= s.len(),
        forall|j: int| i <= j < find_char(s, sep, i) ==> #[trigger] s[j] != sep,
        find_char(s, sep, i) < s.len() ==> s[find_char(s, sep, i)] == sep,
    decreases s.len() - i,
{
    if i < s.len() && s[i] != sep {
        find_char_stops(s, sep, i + 1);
    }
}

/// What `before_first` gives: a text without `sep` that is all of `s`, or
/// that `sep` follows in `s`.
pub proof fn before_first_is_first_field(s: Seq<char>, sep: char)
    ensures
        !before_first(s, sep).contains(sep),
        before_first(s, sep) == s || s.subrange(
            0,
            find_char(s, sep, 0) + 1,
        ) == before_first(s, sep).push(sep),
{
    find_char_stops(s, sep, 0);
    let n = find_char(s, sep, 0);
    let f = before_first(s, sep);
    if f.contains(sep) {
        let j = choose|j: int| 0 <= j < f.len() && f[j] == sep;
        assert(s[j] == sep);
    }
    if n == s.len() {
        assert(f =~= s);
    } else {
        assert(s.subrange(0, n + 1) =~= f.push(sep));
    }
}

fn is_space_char(c: char) -> (b: bool)
    ensures
        b == is_space(c),
{
    let u: u32 = c as u32;
    (0x09 <= u && u <= 0x0d) || u == 0x20 || u == 0x85 || u == 0xa0 || u == 0x1680 || (0x2000 <= u
        && u <= 0x200a) || u == 0x2028 || u == 0x2029 || u == 0x202f || u == 0x205f || u == 0x3000
}

/// The number of characters of `s`; `ascii` says whether `s` is known to be
/// all ASCII, which makes the answer cheap.
fn char_count(s: &str, ascii: bool) -> (n: usize)
    requires
        ascii ==> s.is_ascii(),
    ensures
        n == s@.len(),
{
    if ascii {
        s.as_bytes().len()
    } else {
        s.unicode_len()
    }
}

fn char_at(s: &str, ascii: bool, i: usize) -> (c: char)
    requires
        ascii ==> s.is_ascii(),
        i < s@.len(),
    ensures
        c == s@[i as int],
{
    if ascii {
        s.get_ascii(i) as char
    } else {
        s.get_char(i)
    }
}

fn slice<'a>(s: &'a str, ascii: bool, from: usize, to: usize) -> (t: &'a str)
    requires
        ascii ==> s.is_ascii(),
        from <= to <= s@.len(),
    ensures
        t@ == s@.subrange(from as int, to as int),
{
    if ascii {
        s.substring_ascii(from, to)
    } else {
        s.substring_char(from, to)
    }
}

/// Removes the white space at both ends of `s`.
pub fn trim(s: &str) -> (t: &str)
    ensures
        t@ == trimmed(s@),
{
    let ascii = s.is_ascii();
    let n: usize = char_count(s, ascii);
    let mut a: usize = 0;
    while a < n && is_space_char(char_at(s, ascii, a))
        invariant
            a <= n,
            n == s@.len(),
            ascii ==> s.is_ascii(),
            skip_spaces(s@, 0) == skip_spaces(s@, a as int),
        decreases n - a,
    {
        a += 1;
    }
    let mut b: usize = n;
    while b > a && is_space_char(char_at(s, ascii, b - 1))
        invariant
            a <= b <= n,
            n == s@.len(),
            ascii ==> s.is_ascii(),
            drop_spaces_back(s@, a as int, n as int) == drop_spaces_back(s@, a as int, b as int),
        decreases b,
    {
        b -= 1;
    }
    slice(s, ascii, a, b)
}

/// The part of `s` before its first `sep`, or all of `s` where it holds none.
pub fn first_field(s: &str, sep: char) -> (t: &str)
    ensures
        t@ == before_first(s@, sep),
{
    let ascii = s.is_ascii();
    let n: usize = char_count(s, ascii);
    let mut i: usize = 0;
    while i < n && char_at(s, ascii, i) != sep
        invariant
            i <= n,
            n == s@.len(),
            ascii ==> s.is_ascii(),
            find_char(s@, sep, 0) == find_char(s@, sep, i as int),
        decreases n - i,
    {
        i += 1;
    }
    slice(s, ascii, 0, i)
}

/// Whether `pat` stands in `s` at position `at`. The two flags say which of
/// the texts are known to be all ASCII.
fn matches_at(s: &str, s_ascii: bool, pat: &str, pat_ascii: bool, at: usize) -> (found: bool)
    requires
        s_ascii ==> s.is_ascii(),
        pat_ascii ==> pat.is_ascii(),
    ensures
        found == occurs_at(s@, pat@, at as int),
{
    let n: usize = char_count(s, s_ascii);
    let m: usize = char_count(pat, pat_ascii);
    if at > n || m > n - at {
        return false;
    }
    let mut j: usize = 0;
    while j < m
        invariant
            j <= m,
            m == pat@.len(),
            n == s@.len(),
            at + m <= n,
            s_ascii ==> s.is_ascii(),
            pat_ascii ==> pat.is_ascii(),
            forall|k: int| 0 <= k < j ==> s@[at + k] == pat@[k],
        decreases m - j,
    {
        if char_at(s, s_ascii, at + j) != char_at(pat, pat_ascii, j) {
            assert(s@.subrange(at as int, at + m)[j as int] != pat@[j as int]);
            return false;
        }
        j += 1;
    }
    assert(s@.subrange(at as int, at + m) =~= pat@);
    true
}

/// Whether the two texts are the same.
pub fn same_text(a: &str, b: &str) -> (same: bool)
    ensures
        same == (a@ == b@),
{
    let a_ascii = a.is_ascii();
    let b_ascii = b.is_ascii();
    let n: usize = char_count(a, a_ascii);
    let m: usize = char_count(b, b_ascii);
    if n != m {
        return false;
    }
    let found = matches_at(a, a_ascii, b, b_ascii, 0);
    assert(a@.subrange(0, a@.len() as int) =~= a@);
    found
}

/// Whether `s` begins with `prefix`.
pub fn starts_with(s: &str, prefix: &str) -> (found: bool)
    ensures
        found == occurs_at(s@, prefix@, 0),
{
    matches_at(s, s.is_ascii(), prefix, prefix.is_ascii(), 0)
}

/// What is left of `s` behind `prefix`, or `None` where `s` does not begin
/// with it.
pub fn strip_prefix<'a>(s: &'a str, prefix: &str) -> (rest: Option<&'a str>)
    ensures
        match rest {
            Some(t) => Some(t@),
            None => None,
        } == without_prefix(s@, prefix@),
{
    let s_ascii = s.is_ascii();
    let p_ascii = prefix.is_ascii();
    if matches_at(s, s_ascii, prefix, p_ascii, 0) {
        let n: usize = char_count(s, s_ascii);
        let m: usize = char_count(prefix, p_ascii);
        Some(slice(s, s_ascii, m, n))
    } else {
        None
    }
}

/// Whether `pat` stands somewhere in `s`.
pub fn contains(s: &str, pat: &str) -> (found: bool)
    ensures
        found == occurs_in(s@, pat@),
{
    let s_ascii = s.is_ascii();
    let p_ascii = pat.is_ascii();
    let n: usize = char_count(s, s_ascii);
    let m: usize = char_count(pat, p_ascii);
    if m > n {
        return false;
    }
    let last: usize = n - m;
    let mut i: usize = 0;
    loop
        invariant
            i <= last,
            last == n - m,
            n == s@.len(),
            m == pat@.len(),
            s_ascii ==> s.is_ascii(),
            p_ascii ==> pat.is_ascii(),
            forall|k: int| 0 <= k < i ==> !occurs_at(s@, pat@, k),
        decreases last - i,
    {
        if matches_at(s, s_ascii, pat, p_ascii, i) {
            return true;
        }
        if i == last {
            return false;
        }
        i += 1;
    }
}

} // verus!
