//! Character-level helpers shared by the rest of the library.

use vstd::prelude::*;
use vstd::string::*;

verus! {

/// Appends one character to a string (`String::push`).
#[verifier::external_body]
pub(crate) fn push_char(s: &mut String, c: char)
    ensures
        final(s)@ == old(s)@.push(c),
{
    s.push(c);
}

/// The characters of a string, in order.
pub fn chars_of(s: &str) -> (v: Vec<char>)
    ensures
        v@ == s@,
{
    let n = s.unicode_len();
    let mut v: Vec<char> = Vec::new();
    let mut i: usize = 0;
    while i < n
        invariant
            n == s@.len(),
            i <= n,
            v@ == s@.subrange(0, i as int),
        decreases n - i,
    {
        let c = s.get_char(i);
        v.push(c);
        i = i + 1;
        assert(v@ =~= s@.subrange(0, i as int));
    }
    assert(v@ =~= s@);
    v
}

/// Appends the characters `v[from..to]` to `s`.
pub fn push_chars(s: &mut String, v: &Vec<char>, from: usize, to: usize)
    requires
        from <= to <= v.len(),
    ensures
        final(s)@ == old(s)@ + v@.subrange(from as int, to as int),
{
    let ghost start = s@;
    let mut i = from;
    while i < to
        invariant
            from <= i <= to <= v.len(),
            s@ == start + v@.subrange(from as int, i as int),
        decreases to - i,
    {
        push_char(s, v[i]);
        i = i + 1;
        assert(s@ =~= start + v@.subrange(from as int, i as int));
    }
}

/// Appends a whole string to `s`.
pub fn push_str(s: &mut String, t: &str)
    ensures
        final(s)@ == old(s)@ + t@,
{
    let v = chars_of(t);
    push_chars(s, &v, 0, v.len());
    assert(v@.subrange(0, v@.len() as int) =~= v@);
}

/// A string holding the characters `v[from..to]`.
pub fn string_of(v: &Vec<char>, from: usize, to: usize) -> (s: String)
    requires
        from <= to <= v.len(),
    ensures
        s@ == v@.subrange(from as int, to as int),
{
    let mut s = String::new();
    push_chars(&mut s, v, from, to);
    s
}

/// A fresh copy of a string.
pub fn copy_str(t: &str) -> (s: String)
    ensures
        s@ == t@,
{
    let mut s = String::new();
    push_str(&mut s, t);
    s
}

/// Whether two strings hold the same characters.
pub fn str_eq(a: &str, b: &str) -> (r: bool)
    ensures
        r == (a@ == b@),
{
    let va = chars_of(a);
    let vb = chars_of(b);
    if va.len() != vb.len() {
        return false;
    }
    let mut i: usize = 0;
    while i < va.len()
        invariant
            va@ == a@,
            vb@ == b@,
            va.len() == vb.len(),
            i <= va.len(),
            forall|k: int| 0 <= k < i ==> va@[k] == vb@[k],
        decreases va.len() - i,
    {
        if va[i] != vb[i] {
            return false;
        }
        i = i + 1;
    }
    assert(va@ =~= vb@);
    true
}

// ── ASCII case and classes ───────────────────────────────────────────

/// ASCII lowercase of one character; other characters are unchanged.
pub open spec fn ascii_lower(c: char) -> char {
    if 'A' <= c && c <= 'Z' {
        ((c as u32) + 32) as char
    } else {
        c
    }
}

/// ASCII lowercase of every character of a sequence.
pub open spec fn ascii_lower_seq(s: Seq<char>) -> Seq<char> {
    s.map_values(|c: char| ascii_lower(c))
}

/// `char::to_ascii_lowercase`.
pub fn lower_ascii_char(c: char) -> (r: char)
    ensures
        r == ascii_lower(c),
{
    if 'A' <= c && c <= 'Z' {
        let u: u8 = c as u8;
        assert(65 <= u <= 90);
        ((u + 32) as char)
    } else {
        c
    }
}

/// `str::to_ascii_lowercase` on a character vector.
pub fn lower_ascii_chars(v: &Vec<char>) -> (r: Vec<char>)
    ensures
        r@ == ascii_lower_seq(v@),
{
    let mut r: Vec<char> = Vec::new();
    let mut i: usize = 0;
    while i < v.len()
        invariant
            i <= v.len(),
            r@ == ascii_lower_seq(v@.subrange(0, i as int)),
        decreases v.len() - i,
    {
        let c = lower_ascii_char(v[i]);
        r.push(c);
        i = i + 1;
        assert(r@ =~= ascii_lower_seq(v@.subrange(0, i as int)));
    }
    assert(v@.subrange(0, v.len() as int) =~= v@);
    r
}

/// `char::is_ascii_alphanumeric`.
pub open spec fn is_ascii_alnum(c: char) -> bool {
    ('0' <= c && c <= '9') || ('a' <= c && c <= 'z') || ('A' <= c && c <= 'Z')
}

/// `char::is_ascii_digit`.
pub open spec fn is_ascii_digit(c: char) -> bool {
    '0' <= c && c <= '9'
}

/// `char::is_whitespace`: the characters with the Unicode `White_Space`
/// property.
pub open spec fn is_white(c: char) -> bool {
    ('\u{9}' <= c && c <= '\u{d}') || c == ' ' || c == '\u{85}' || c == '\u{a0}'
        || c == '\u{1680}' || ('\u{2000}' <= c && c <= '\u{200a}') || c == '\u{2028}'
        || c == '\u{2029}' || c == '\u{202f}' || c == '\u{205f}' || c == '\u{3000}'
}

/// Executable form of [`is_white`].
pub fn white(c: char) -> (r: bool)
    ensures
        r == is_white(c),
{
    ('\u{9}' <= c && c <= '\u{d}') || c == ' ' || c == '\u{85}' || c == '\u{a0}'
        || c == '\u{1680}' || ('\u{2000}' <= c && c <= '\u{200a}') || c == '\u{2028}'
        || c == '\u{2029}' || c == '\u{202f}' || c == '\u{205f}' || c == '\u{3000}'
}

/// Executable form of [`is_ascii_alnum`].
pub fn ascii_alnum(c: char) -> (r: bool)
    ensures
        r == is_ascii_alnum(c),
{
    ('0' <= c && c <= '9') || ('a' <= c && c <= 'z') || ('A' <= c && c <= 'Z')
}

/// Whether every character is whitespace (that is, `str::trim` gives the
/// empty string).
pub open spec fn all_white(s: Seq<char>) -> bool {
    forall|i: int| 0 <= i < s.len() ==> is_white(#[trigger] s[i])
}

/// Whether `str::trim` of `s` is empty.
pub fn trims_to_empty(s: &str) -> (r: bool)
    ensures
        r == all_white(s@),
{
    let v = chars_of(s);
    let mut i: usize = 0;
    while i < v.len()
        invariant
            v@ == s@,
            i <= v.len(),
            forall|k: int| 0 <= k < i ==> is_white(#[trigger] v@[k]),
        decreases v.len() - i,
    {
        if !white(v[i]) {
            return false;
        }
        i = i + 1;
    }
    true
}

// ── Unicode case mapping (std) ────────────────────────────────────────

/// Whether every character is ASCII.
pub open spec fn all_ascii(s: Seq<char>) -> bool {
    forall|i: int| 0 <= i < s.len() ==> #[trigger] s[i] <= '\x7f'
}

/// What `str::to_lowercase` returns for a string with these characters.
pub uninterp spec fn lowercase(s: Seq<char>) -> Seq<char>;

/// What `char::to_lowercase` yields for one character.
pub uninterp spec fn char_lowercase(c: char) -> Seq<char>;

/// `str::to_lowercase`: the full Unicode lowercase mapping of `s`. The
/// contract names the result; of an all-ASCII string it states that the
/// result is its ASCII lowercase (`A`–`Z` become `a`–`z`, the rest stay),
/// which is what the Unicode mapping gives there.
#[verifier::external_body]
pub(crate) fn to_lowercase(s: &str) -> (r: String)
    ensures
        r@ == lowercase(s@),
        all_ascii(s@) ==> r@ == ascii_lower_seq(s@),
{
    s.to_lowercase()
}

/// `char::to_lowercase`: the characters of the Unicode lowercase mapping
/// of `c`. The contract names the result; of an ASCII character it states
/// that the result is its one ASCII lowercase character.
#[verifier::external_body]
pub(crate) fn char_to_lowercase(c: char) -> (r: Vec<char>)
    ensures
        r@ == char_lowercase(c),
        c <= '\x7f' ==> r@ == seq![ascii_lower(c)],
{
    c.to_lowercase().collect()
}

// ── Substrings ───────────────────────────────────────────────────────

/// Whether `needle` occurs in `hay` as a contiguous run (`str::contains`).
pub open spec fn seq_contains(hay: Seq<char>, needle: Seq<char>) -> bool {
    exists|i: int| 0 <= i && i + needle.len() <= hay.len()
        && #[trigger] hay.subrange(i, i + needle.len()) == needle
}

/// Whether `needle` occurs at position `i` of `hay`.
fn occurs_at(hay: &Vec<char>, needle: &Vec<char>, i: usize) -> (r: bool)
    requires
        i + needle.len() <= hay.len(),
    ensures
        r == (hay@.subrange(i as int, i + needle.len()) == needle@),
{
    let mut k: usize = 0;
    while k < needle.len()
        invariant
            i + needle.len() <= hay.len(),
            k <= needle.len(),
            forall|j: int| 0 <= j < k ==> hay@[i + j] == needle@[j],
        decreases needle.len() - k,
    {
        if hay[i + k] != needle[k] {
            assert(hay@.subrange(i as int, i + needle.len())[k as int] != needle@[k as int]);
            return false;
        }
        k = k + 1;
    }
    assert(hay@.subrange(i as int, i + needle.len()) =~= needle@);
    true
}

/// `str::contains` with a string pattern.
pub fn contains(hay: &str, needle: &str) -> (r: bool)
    ensures
        r == seq_contains(hay@, needle@),
{
    let h = chars_of(hay);
    let n = chars_of(needle);
    if n.len() > h.len() {
        return false;
    }
    if n.len() == 0 {
        assert(h@.subrange(0, 0 + n@.len() as int) =~= n@);
        assert(seq_contains(hay@, needle@));
        return true;
    }
    let last = h.len() - n.len();
    let mut i: usize = 0;
    while i <= last
        invariant
            h@ == hay@,
            n@ == needle@,
            last + n.len() == h.len(),
            n.len() > 0,
            forall|j: int| 0 <= j < i ==> #[trigger] h@.subrange(j, j + n.len()) != n@,
        decreases last + 1 - i,
    {
        if occurs_at(&h, &n, i) {
            return true;
        }
        i = i + 1;
    }
    false
}

// ── Decimal numbers ──────────────────────────────────────────────────

/// The decimal digit character for `d < 10`.
pub open spec fn digit_char(d: nat) -> char {
    ((d + 48) as u32) as char
}

/// The decimal representation of `n`, without leading zeros.
pub open spec fn decimal(n: nat) -> Seq<char>
    decreases n,
{
    if n < 10 {
        seq![digit_char(n)]
    } else {
        decimal(n / 10).push(digit_char(n % 10))
    }
}

/// Appends the decimal representation of `n` to `s`.
pub fn push_decimal(s: &mut String, n: u64)
    ensures
        final(s)@ == old(s)@ + decimal(n as nat),
    decreases n,
{
    if n >= 10 {
        push_decimal(s, n / 10);
    }
    let d: u8 = (n % 10) as u8;
    push_char(s, (d + 48) as char);
    assert(final(s)@ =~= old(s)@ + decimal(n as nat)) by {
        if n >= 10 {
            assert(decimal(n as nat) == decimal((n / 10) as nat).push(digit_char((n % 10) as nat)));
        }
    }
}

/// Appends `n` as two decimal digits, padding with a leading zero.
pub fn push_two_digits(s: &mut String, n: u64)
    requires
        n < 100,
    ensures
        final(s)@ == old(s)@ + seq![digit_char((n / 10) as nat), digit_char((n % 10) as nat)],
{
    let hi: u8 = (n / 10) as u8;
    let lo: u8 = (n % 10) as u8;
    push_char(s, (hi + 48) as char);
    push_char(s, (lo + 48) as char);
    assert(final(s)@ =~= old(s)@ + seq![digit_char((n / 10) as nat), digit_char((n % 10) as nat)]);
}


// ── Trimming, splitting, searching ───────────────────────────────────

/// The views of a sequence of strings.
pub open spec fn strs(v: Seq<String>) -> Seq<Seq<char>> {
    v.map_values(|x: String| x@)
}

/// Pushing a string pushes its view.
pub proof fn lemma_strs_push(v: Seq<String>, x: String)
    ensures
        strs(v.push(x)) == strs(v).push(x@),
{
    assert(strs(v.push(x)) =~= strs(v).push(x@));
}

/// First index at or after `i` that is not whitespace.
pub open spec fn trim_start_at(s: Seq<char>, i: int) -> int
    decreases s.len() - i,
{
    if i >= s.len() || i < 0 || !is_white(s[i]) {
        i
    } else {
        trim_start_at(s, i + 1)
    }
}

/// End of `s[lo..j]` once trailing whitespace is dropped.
pub open spec fn trim_end_at(s: Seq<char>, lo: int, j: int) -> int
    decreases j - lo,
{
    if j <= lo || !is_white(s[j - 1]) {
        j
    } else {
        trim_end_at(s, lo, j - 1)
    }
}

/// `str::trim`: `s` without leading and trailing whitespace.
pub open spec fn trim(s: Seq<char>) -> Seq<char> {
    let a = trim_start_at(s, 0);
    s.subrange(a, trim_end_at(s, a, s.len() as int))
}

proof fn lemma_trim_start(s: Seq<char>, i: int)
    requires
        0 <= i <= s.len(),
    ensures
        i <= trim_start_at(s, i) <= s.len(),
    decreases s.len() - i,
{
    if i < s.len() && is_white(s[i]) {
        lemma_trim_start(s, i + 1);
    }
}

proof fn lemma_trim_end(s: Seq<char>, lo: int, j: int)
    requires
        0 <= lo <= j <= s.len(),
    ensures
        lo <= trim_end_at(s, lo, j) <= j,
    decreases j - lo,
{
    if j > lo && is_white(s[j - 1]) {
        lemma_trim_end(s, lo, j - 1);
    }
}

/// Bounds of `str::trim` of `v[from..to]`.
pub fn trim_span(v: &Vec<char>, from: usize, to: usize) -> (r: (usize, usize))
    requires
        from <= to <= v.len(),
    ensures
        from <= r.0 <= r.1 <= to,
        v@.subrange(r.0 as int, r.1 as int) == trim(v@.subrange(from as int, to as int)),
{
    let ghost w = v@.subrange(from as int, to as int);
    let mut a = from;
    while a < to && white(v[a])
        invariant
            from <= a <= to <= v.len(),
            w == v@.subrange(from as int, to as int),
            trim_start_at(w, (a - from) as int) == trim_start_at(w, 0),
        decreases to - a,
    {
        assert(w[(a - from) as int] == v@[a as int]);
        a = a + 1;
    }
    assert(trim_start_at(w, (a - from) as int) == (a - from) as int) by {
        if a < to {
            assert(w[(a - from) as int] == v@[a as int]);
        }
    }
    let mut b = to;
    while b > a && white(v[b - 1])
        invariant
            from <= a <= b <= to <= v.len(),
            w == v@.subrange(from as int, to as int),
            trim_end_at(w, (a - from) as int, (b - from) as int) == trim_end_at(
                w,
                (a - from) as int,
                w.len() as int,
            ),
        decreases b - a,
    {
        assert(w[(b - 1 - from) as int] == v@[b - 1]);
        b = b - 1;
    }
    assert(trim_end_at(w, (a - from) as int, (b - from) as int) == (b - from) as int) by {
        if b > a {
            assert(w[(b - 1 - from) as int] == v@[b - 1]);
        }
    }
    assert(v@.subrange(a as int, b as int) =~= trim(w));
    (a, b)
}

/// `str::trim` as a new string.
pub fn trim_str(s: &str) -> (r: String)
    ensures
        r@ == trim(s@),
{
    let v = chars_of(s);
    let (a, b) = trim_span(&v, 0, v.len());
    assert(v@.subrange(0, v@.len() as int) =~= v@);
    string_of(&v, a, b)
}

/// Whether `s` starts with `p`.
pub open spec fn starts_with(s: Seq<char>, p: Seq<char>) -> bool {
    p.len() <= s.len() && s.subrange(0, p.len() as int) == p
}

/// Whether `s` ends with `p`.
pub open spec fn ends_with(s: Seq<char>, p: Seq<char>) -> bool {
    p.len() <= s.len() && s.subrange(s.len() - p.len(), s.len() as int) == p
}

/// `str::starts_with` with a string pattern.
pub fn has_prefix(s: &str, p: &str) -> (r: bool)
    ensures
        r == starts_with(s@, p@),
{
    let v = chars_of(s);
    let w = chars_of(p);
    if w.len() > v.len() {
        return false;
    }
    let r = occurs_at(&v, &w, 0);
    assert(v@.subrange(0, 0 + w@.len() as int) == v@.subrange(0, w@.len() as int));
    r
}

/// `str::ends_with` with a string pattern.
pub fn has_suffix(s: &str, p: &str) -> (r: bool)
    ensures
        r == ends_with(s@, p@),
{
    let v = chars_of(s);
    let w = chars_of(p);
    if w.len() > v.len() {
        return false;
    }
    occurs_at(&v, &w, v.len() - w.len())
}

/// First position at or after `k` where `p` occurs in `s`.
pub open spec fn find_from(s: Seq<char>, p: Seq<char>, k: int) -> Option<int>
    decreases s.len() + 1 - k,
{
    if k < 0 || k + p.len() > s.len() {
        None
    } else if s.subrange(k, k + p.len()) == p {
        Some(k)
    } else {
        find_from(s, p, k + 1)
    }
}

/// `str::split_once` with a string pattern: the parts before and after the
/// first occurrence of `p`.
pub open spec fn split_once(s: Seq<char>, p: Seq<char>) -> Option<(Seq<char>, Seq<char>)> {
    match find_from(s, p, 0) {
        Some(i) => Some((s.subrange(0, i), s.subrange(i + p.len(), s.len() as int))),
        None => None,
    }
}

pub(crate) proof fn lemma_find_from(s: Seq<char>, p: Seq<char>, k: int)
    requires
        0 <= k,
    ensures
        match find_from(s, p, k) {
            Some(i) => k <= i && i + p.len() <= s.len(),
            None => true,
        },
    decreases s.len() + 1 - k,
{
    if k + p.len() <= s.len() && s.subrange(k, k + p.len()) != p {
        lemma_find_from(s, p, k + 1);
    }
}

/// Executable `split_once`.
pub fn split_once_str(s: &str, p: &str) -> (r: Option<(String, String)>)
    ensures
        match r {
            Some((a, b)) => split_once(s@, p@) == Some((a@, b@)),
            None => split_once(s@, p@) is None,
        },
{
    let v = chars_of(s);
    let w = chars_of(p);
    if w.len() > v.len() {
        return None;
    }
    let last = v.len() - w.len();
    let mut k: usize = 0;
    while k <= last
        invariant
            v@ == s@,
            w@ == p@,
            last + w.len() == v.len(),
            k <= last + 1,
            find_from(v@, w@, k as int) == find_from(v@, w@, 0),
        decreases last + 1 - k,
    {
        if occurs_at(&v, &w, k) {
            let a = string_of(&v, 0, k);
            let b = string_of(&v, k + w.len(), v.len());
            return Some((a, b));
        }
        if k == last {
            assert(find_from(v@, w@, (k + 1) as int) is None);
            return None;
        }
        k = k + 1;
    }
    None
}

/// Index of the last `c` in `s[..end]`, or -1.
pub open spec fn last_index(s: Seq<char>, end: int, c: char) -> int
    decreases end,
{
    if end <= 0 {
        -1
    } else if s[end - 1] == c {
        end - 1
    } else {
        last_index(s, end - 1, c)
    }
}

proof fn lemma_last_index(s: Seq<char>, end: int, c: char)
    requires
        0 <= end <= s.len(),
    ensures
        -1 <= last_index(s, end, c) < end,
        last_index(s, end, c) >= 0 ==> s[last_index(s, end, c)] == c,
        forall|j: int| last_index(s, end, c) < j < end ==> s[j] != c,
    decreases end,
{
    if end > 0 && s[end - 1] != c {
        lemma_last_index(s, end - 1, c);
    }
}

#[via_fn]
proof fn split_upto_decreases(s: Seq<char>, end: int, c: char) {
    if 0 <= end <= s.len() {
        lemma_last_index(s, end, c);
    }
}

/// The pieces of `s[..end]` between occurrences of `c` (`str::split`).
pub open spec fn split_upto(s: Seq<char>, end: int, c: char) -> Seq<Seq<char>>
    decreases end,
    via split_upto_decreases
{
    if end < 0 || end > s.len() {
        Seq::empty()
    } else {
        let i = last_index(s, end, c);
        if i < 0 {
            seq![s.subrange(0, end)]
        } else {
            split_upto(s, i, c).push(s.subrange(i + 1, end))
        }
    }
}

/// `str::split` on a character.
pub open spec fn split(s: Seq<char>, c: char) -> Seq<Seq<char>> {
    split_upto(s, s.len() as int, c)
}

/// Removes one trailing `\r`.
pub open spec fn strip_cr(s: Seq<char>) -> Seq<char> {
    if s.len() > 0 && s.last() == '\r' {
        s.drop_last()
    } else {
        s
    }
}

/// [`strip_cr`] applied to each piece.
pub open spec fn strip_cr_all(v: Seq<Seq<char>>) -> Seq<Seq<char>> {
    v.map_values(|x: Seq<char>| strip_cr(x))
}

/// `str::lines`: the pieces between newlines, each without a trailing
/// `\r` when a newline followed it; no final empty line.
pub open spec fn lines(s: Seq<char>) -> Seq<Seq<char>> {
    let pieces = split(s, '\n');
    let n = pieces.len() as int;
    if s.len() == 0 {
        Seq::empty()
    } else if s.last() == '\n' {
        strip_cr_all(pieces.subrange(0, n - 1))
    } else {
        strip_cr_all(pieces.subrange(0, n - 1)).push(pieces[n - 1])
    }
}

/// Spans of the pieces of `v[..end]` split at `c`.
fn split_spans(v: &Vec<char>, end: usize, c: char) -> (r: Vec<(usize, usize)>)
    requires
        end <= v.len(),
    ensures
        r@.len() == split_upto(v@, end as int, c).len(),
        forall|k: int|
            0 <= k < r@.len() ==> #[trigger] r@[k].0 <= r@[k].1 <= end && v@.subrange(
                r@[k].0 as int,
                r@[k].1 as int,
            ) == split_upto(v@, end as int, c)[k],
    decreases end,
{
    proof {
        lemma_last_index(v@, end as int, c);
    }
    let mut i = end;
    while i > 0 && v[i - 1] != c
        invariant
            i <= end <= v.len(),
            last_index(v@, i as int, c) == last_index(v@, end as int, c),
        decreases i,
    {
        i = i - 1;
    }
    if i == 0 {
        let mut r = Vec::new();
        r.push((0, end));
        r
    } else {
        let mut r = split_spans(v, i - 1, c);
        r.push((i, end));
        r
    }
}

/// `str::split` on a character, as strings.
pub fn split_str(s: &str, c: char) -> (r: Vec<String>)
    ensures
        strs(r@) == split(s@, c),
{
    let v = chars_of(s);
    let spans = split_spans(&v, v.len(), c);
    assert(split(v@, c) == split_upto(v@, v.len() as int, c));
    let mut r: Vec<String> = Vec::new();
    let mut k: usize = 0;
    while k < spans.len()
        invariant
            v@ == s@,
            k <= spans@.len(),
            spans@.len() == split(v@, c).len(),
            forall|j: int|
                0 <= j < spans@.len() ==> #[trigger] spans@[j].0 <= spans@[j].1 <= v@.len()
                    && v@.subrange(spans@[j].0 as int, spans@[j].1 as int) == split(v@, c)[j],
            strs(r@) == split(v@, c).subrange(0, k as int),
        decreases spans.len() - k,
    {
        let (a, b) = spans[k];
        let piece = string_of(&v, a, b);
        assert(piece@ == split(v@, c)[k as int]) by {
            assert(spans@[k as int].0 == a && spans@[k as int].1 == b);
        }
        proof {
            lemma_strs_push(r@, piece);
        }
        r.push(piece);
        k = k + 1;
        assert(strs(r@) =~= split(v@, c).subrange(0, k as int));
    }
    assert(strs(r@) =~= split(v@, c));
    r
}

/// `str::lines`, as strings.
pub fn lines_str(s: &str) -> (r: Vec<String>)
    ensures
        strs(r@) == lines(s@),
{
    let v = chars_of(s);
    if v.len() == 0 {
        let r: Vec<String> = Vec::new();
        assert(strs(r@) =~= lines(s@));
        return r;
    }
    let pieces = split_str(s, '\n');
    let n = pieces.len();
    proof {
        reveal_with_fuel(split_upto, 1);
        lemma_split_nonempty(v@, v@.len() as int, '\n');
    }
    let mut r: Vec<String> = Vec::new();
    let mut k: usize = 0;
    while k + 1 < n
        invariant
            v@ == s@,
            n == pieces@.len(),
            n >= 1,
            strs(pieces@) == split(v@, '\n'),
            k < n,
            strs(r@) == strip_cr_all(split(v@, '\n').subrange(0, k as int)),
        decreases n - k,
    {
        let pv = chars_of(pieces[k].as_str());
        let mut e = pv.len();
        if e > 0 && pv[e - 1] == '\r' {
            e = e - 1;
        }
        let line = string_of(&pv, 0, e);
        assert(line@ =~= strip_cr(split(v@, '\n')[k as int])) by {
            assert(pieces@[k as int]@ == split(v@, '\n')[k as int]);
        }
        proof {
            lemma_strs_push(r@, line);
        }
        r.push(line);
        k = k + 1;
        assert(strs(r@) =~= strip_cr_all(split(v@, '\n').subrange(0, k as int)));
    }
    if v[v.len() - 1] != '\n' {
        let last = copy_str(pieces[n - 1].as_str());
        assert(last@ == split(v@, '\n')[n - 1]) by {
            assert(pieces@[n - 1]@ == strs(pieces@)[n - 1]);
        }
        proof {
            lemma_strs_push(r@, last);
        }
        r.push(last);
    }
    assert(strs(r@) =~= lines(s@));
    r
}

proof fn lemma_split_nonempty(s: Seq<char>, end: int, c: char)
    requires
        0 <= end <= s.len(),
    ensures
        split_upto(s, end, c).len() >= 1,
    decreases end,
{
    lemma_last_index(s, end, c);
    let i = last_index(s, end, c);
    if i >= 0 {
        lemma_split_nonempty(s, i, c);
    }
}


// ── Editing, words, joining ───────────────────────────────────────────

/// `String::pop`, dropping the result: the last character goes, if any.
pub fn pop_last(s: &mut String)
    ensures
        final(s)@ == (if old(s)@.len() > 0 {
            old(s)@.drop_last()
        } else {
            old(s)@
        }),
{
    let v = chars_of(s.as_str());
    if v.len() > 0 {
        *s = string_of(&v, 0, v.len() - 1);
        assert(s@ =~= v@.drop_last());
    }
}

/// The completed words of `s[..i]` and the word being read at `i`.
pub open spec fn word_scan(s: Seq<char>, i: int) -> (Seq<Seq<char>>, Seq<char>)
    decreases i,
{
    if i <= 0 {
        (Seq::empty(), Seq::empty())
    } else {
        let (done, cur) = word_scan(s, i - 1);
        if is_white(s[i - 1]) {
            if cur.len() > 0 {
                (done.push(cur), Seq::empty())
            } else {
                (done, cur)
            }
        } else {
            (done, cur.push(s[i - 1]))
        }
    }
}

/// The characters of `s` that are not whitespace, in order.
pub open spec fn non_white_chars(s: Seq<char>) -> Seq<char> {
    s.filter(|c: char| !is_white(c))
}

/// `str::split_whitespace`: the maximal runs of non-whitespace characters,
/// in order.
pub open spec fn words(s: Seq<char>) -> Seq<Seq<char>> {
    let (done, cur) = word_scan(s, s.len() as int);
    if cur.len() > 0 {
        done.push(cur)
    } else {
        done
    }
}

/// The words of a string (`split_whitespace`), as owned strings.
pub fn split_words(s: &str) -> (r: Vec<String>)
    ensures
        strs(r@) == words(s@),
{
    let v = chars_of(s);
    let mut done: Vec<String> = Vec::new();
    let mut cur = String::new();
    let mut i: usize = 0;
    while i < v.len()
        invariant
            v@ == s@,
            i <= v.len(),
            (strs(done@), cur@) == word_scan(s@, i as int),
        decreases v.len() - i,
    {
        if white(v[i]) {
            if cur.unicode_len() > 0 {
                let w = cur;
                proof {
                    lemma_strs_push(done@, w);
                }
                done.push(w);
                cur = String::new();
            }
        } else {
            push_char(&mut cur, v[i]);
        }
        i = i + 1;
    }
    if cur.unicode_len() > 0 {
        proof {
            lemma_strs_push(done@, cur);
        }
        done.push(cur);
    }
    done
}

/// The strings of `v` joined with `sep` between them (`[T]::join`).
pub open spec fn joined(v: Seq<Seq<char>>, sep: Seq<char>) -> Seq<char>
    decreases v.len(),
{
    if v.len() == 0 {
        Seq::empty()
    } else if v.len() == 1 {
        v[0]
    } else {
        joined(v.drop_last(), sep) + sep + v.last()
    }
}

/// Join strings with a separator.
pub fn join_strs(v: &Vec<String>, sep: &str) -> (r: String)
    ensures
        r@ == joined(strs(v@), sep@),
{
    let mut r = String::new();
    let mut i: usize = 0;
    while i < v.len()
        invariant
            i <= v.len(),
            r@ == joined(strs(v@).subrange(0, i as int), sep@),
        decreases v.len() - i,
    {
        let ghost pre = strs(v@).subrange(0, i as int);
        let ghost cur = strs(v@).subrange(0, i + 1);
        assert(cur.drop_last() =~= pre);
        if i > 0 {
            push_str(&mut r, sep);
        }
        push_str(&mut r, v[i].as_str());
        i = i + 1;
        if i == 1 {
            assert(r@ =~= joined(cur, sep@));
        }
    }
    assert(strs(v@).subrange(0, v@.len() as int) =~= strs(v@));
    r
}

/// What `char::is_alphanumeric` says of a character (Unicode
/// `Alphabetic` or `Numeric`).
pub uninterp spec fn alphanumeric(c: char) -> bool;

/// `char::is_alphanumeric`. The contract names the result; of an ASCII
/// character it states that the result is whether it is an ASCII letter
/// or digit (the only ASCII characters that are alphabetic or numeric).
#[verifier::external_body]
pub(crate) fn char_is_alphanumeric(c: char) -> (r: bool)
    ensures
        r == alphanumeric(c),
        c <= '\x7f' ==> r == is_ascii_alnum(c),
{
    c.is_alphanumeric()
}

} // verus!
