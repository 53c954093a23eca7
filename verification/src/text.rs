//! Character-level string helpers with mathematical specifications.
//!
//! Strings are modelled by their view, a `Seq<char>`.  The executable helpers
//! work on `&[char]`/`Vec<char>` and build `String`s at the edges.

use vstd::prelude::*;

verus! {

/// `String::push`: std documents that it appends the character to the end
/// of the string, which is all that is claimed here.
pub assume_specification[ String::push ](s: &mut String, ch: char)
    ensures
        final(s)@ == old(s)@.push(ch),
;

// ---------------------------------------------------------------------------
// Character classes
// ---------------------------------------------------------------------------
/// Unicode `White_Space`, the class that `str::trim` removes.
pub open spec fn is_white_space(c: char) -> bool {
    ||| ('\u{9}' <= c && c <= '\u{d}')
    ||| c == ' '
    ||| c == '\u{85}'
    ||| c == '\u{a0}'
    ||| c == '\u{1680}'
    ||| ('\u{2000}' <= c && c <= '\u{200a}')
    ||| c == '\u{2028}'
    ||| c == '\u{2029}'
    ||| c == '\u{202f}'
    ||| c == '\u{205f}'
    ||| c == '\u{3000}'
}

/// Unicode general category `Cc`.
pub open spec fn is_control_char(c: char) -> bool {
    c <= '\u{1f}' || ('\u{7f}' <= c && c <= '\u{9f}')
}

pub open spec fn is_ascii_digit(c: char) -> bool {
    '0' <= c && c <= '9'
}

pub open spec fn is_ascii_upper(c: char) -> bool {
    'A' <= c && c <= 'Z'
}

pub open spec fn is_ascii_lower(c: char) -> bool {
    'a' <= c && c <= 'z'
}

pub open spec fn is_ascii_alnum(c: char) -> bool {
    is_ascii_digit(c) || is_ascii_upper(c) || is_ascii_lower(c)
}

pub open spec fn ascii_lower_char(c: char) -> char {
    if is_ascii_upper(c) {
        ((c as u32) + 32) as char
    } else {
        c
    }
}

pub open spec fn ascii_upper_char(c: char) -> char {
    if is_ascii_lower(c) {
        ((c as u32) - 32) as char
    } else {
        c
    }
}

pub open spec fn ascii_lower(s: Seq<char>) -> Seq<char> {
    s.map_values(|c: char| ascii_lower_char(c))
}

pub fn is_white_space_exec(c: char) -> (res: bool)
    ensures
        res == is_white_space(c),
{
    ('\u{9}' <= c && c <= '\u{d}') || c == ' ' || c == '\u{85}' || c == '\u{a0}' || c
        == '\u{1680}' || ('\u{2000}' <= c && c <= '\u{200a}') || c == '\u{2028}' || c
        == '\u{2029}' || c == '\u{202f}' || c == '\u{205f}' || c == '\u{3000}'
}

pub fn is_control_exec(c: char) -> (res: bool)
    ensures
        res == is_control_char(c),
{
    c <= '\u{1f}' || ('\u{7f}' <= c && c <= '\u{9f}')
}

pub fn is_ascii_digit_exec(c: char) -> (res: bool)
    ensures
        res == is_ascii_digit(c),
{
    '0' <= c && c <= '9'
}

pub fn is_ascii_alnum_exec(c: char) -> (res: bool)
    ensures
        res == is_ascii_alnum(c),
{
    ('0' <= c && c <= '9') || ('A' <= c && c <= 'Z') || ('a' <= c && c <= 'z')
}

pub fn ascii_lower_char_exec(c: char) -> (res: char)
    ensures
        res == ascii_lower_char(c),
{
    if 'A' <= c && c <= 'Z' {
        let v: u32 = c as u32 + 32;
        assert(v == (c as u32) + 32);
        // 'a'..='z' are valid scalar values
        char_from_ascii(v)
    } else {
        c
    }
}

pub fn ascii_upper_char_exec(c: char) -> (res: char)
    ensures
        res == ascii_upper_char(c),
{
    if 'a' <= c && c <= 'z' {
        let v: u32 = c as u32 - 32;
        char_from_ascii(v)
    } else {
        c
    }
}

fn char_from_ascii(v: u32) -> (res: char)
    requires
        v < 128,
    ensures
        res == v as char,
{
    let b: u8 = v as u8;
    b as char
}

pub fn ascii_lower_exec(s: &[char]) -> (res: Vec<char>)
    ensures
        res@ == ascii_lower(s@),
{
    let mut out: Vec<char> = Vec::new();
    let mut i: usize = 0;
    while i < s.len()
        invariant
            i <= s@.len(),
            out@ == ascii_lower(s@.take(i as int)),
        decreases s@.len() - i,
    {
        let c = ascii_lower_char_exec(s[i]);
        out.push(c);
        i = i + 1;
        assert(ascii_lower(s@.take(i as int)) =~= ascii_lower(s@.take(i - 1 as int)).push(c));
    }
    assert(s@.take(i as int) =~= s@);
    out
}

/// `eq_ignore_ascii_case` on character sequences.
pub open spec fn eq_ignore_ascii_case(a: Seq<char>, b: Seq<char>) -> bool {
    ascii_lower(a) == ascii_lower(b)
}

pub fn eq_ignore_ascii_case_exec(a: &[char], b: &[char]) -> (res: bool)
    ensures
        res == eq_ignore_ascii_case(a@, b@),
{
    let la = ascii_lower_exec(a);
    let lb = ascii_lower_exec(b);
    chars_eq(la.as_slice(), lb.as_slice())
}

// ---------------------------------------------------------------------------
// Conversions between `str`/`String` and character vectors
// ---------------------------------------------------------------------------
/// The characters of `s`, in order.
pub fn chars_of(s: &str) -> (res: Vec<char>)
    ensures
        res@ == s@,
{
    let mut out: Vec<char> = Vec::new();
    for c in it: s.chars()
        invariant
            out@ == it.seq().take(it.index() as int),
    {
        out.push(c);
    }
    out
}

/// A `String` holding exactly the characters of `cs`.
pub fn string_from_chars(cs: &[char]) -> (res: String)
    ensures
        res@ == cs@,
{
    let mut out = String::new();
    let mut i: usize = 0;
    while i < cs.len()
        invariant
            i <= cs@.len(),
            out@ == cs@.take(i as int),
        decreases cs@.len() - i,
    {
        out.push(cs[i]);
        i = i + 1;
        assert(cs@.take(i as int) == cs@.take(i - 1 as int).push(cs@[i - 1]));
    }
    assert(cs@.take(i as int) == cs@);
    out
}

/// A copy of `s[from..to]`.
pub fn slice_chars(s: &[char], from: usize, to: usize) -> (res: Vec<char>)
    requires
        from <= to <= s@.len(),
    ensures
        res@ == s@.subrange(from as int, to as int),
{
    let mut out: Vec<char> = Vec::new();
    let mut i: usize = from;
    while i < to
        invariant
            from <= i <= to <= s@.len(),
            out@ == s@.subrange(from as int, i as int),
        decreases to - i,
    {
        out.push(s[i]);
        i = i + 1;
        assert(s@.subrange(from as int, i as int) =~= s@.subrange(from as int, i - 1 as int).push(
            s@[i - 1],
        ));
    }
    out
}

/// Appends `t` to `v`.
pub fn push_all(v: &mut Vec<char>, t: &[char])
    ensures
        final(v)@ == old(v)@ + t@,
{
    let mut i: usize = 0;
    while i < t.len()
        invariant
            i <= t@.len(),
            v@ == old(v)@ + t@.take(i as int),
        decreases t@.len() - i,
    {
        v.push(t[i]);
        i = i + 1;
        assert(old(v)@ + t@.take(i as int) =~= old(v)@ + t@.take(i - 1 as int) + seq![t@[i - 1]]);
    }
    assert(t@.take(i as int) =~= t@);
}

pub fn push_str(v: &mut Vec<char>, t: &str)
    ensures
        final(v)@ == old(v)@ + t@,
{
    let cs = chars_of(t);
    push_all(v, cs.as_slice());
}

pub fn chars_eq(a: &[char], b: &[char]) -> (res: bool)
    ensures
        res == (a@ == b@),
{
    if a.len() != b.len() {
        return false;
    }
    let mut i: usize = 0;
    while i < a.len()
        invariant
            a@.len() == b@.len(),
            i <= a@.len(),
            forall|j: int| 0 <= j < i ==> a@[j] == b@[j],
        decreases a@.len() - i,
    {
        if a[i] != b[i] {
            return false;
        }
        i = i + 1;
    }
    assert(a@ =~= b@);
    true
}

pub fn str_eq(a: &str, b: &str) -> (res: bool)
    ensures
        res == (a@ == b@),
{
    let ca = chars_of(a);
    let cb = chars_of(b);
    chars_eq(ca.as_slice(), cb.as_slice())
}

// ---------------------------------------------------------------------------
// Prefixes, suffixes and occurrences
// ---------------------------------------------------------------------------
pub open spec fn occurs_at(s: Seq<char>, p: Seq<char>, i: int) -> bool {
    0 <= i && i + p.len() <= s.len() && s.subrange(i, i + p.len()) == p
}

pub open spec fn contains_seq(s: Seq<char>, p: Seq<char>) -> bool {
    exists|i: int| occurs_at(s, p, i)
}

pub open spec fn contains_char(s: Seq<char>, c: char) -> bool {
    exists|i: int| 0 <= i < s.len() && s[i] == c
}

pub fn starts_with(s: &[char], p: &[char]) -> (res: bool)
    ensures
        res == p@.is_prefix_of(s@),
{
    if p.len() > s.len() {
        return false;
    }
    let mut i: usize = 0;
    while i < p.len()
        invariant
            p@.len() <= s@.len(),
            i <= p@.len(),
            forall|j: int| 0 <= j < i ==> s@[j] == p@[j],
        decreases p@.len() - i,
    {
        if s[i] != p[i] {
            assert(s@.subrange(0, p@.len() as int)[i as int] != p@[i as int]);
            return false;
        }
        i = i + 1;
    }
    assert(p@ =~= s@.subrange(0, p@.len() as int));
    true
}

pub fn ends_with(s: &[char], p: &[char]) -> (res: bool)
    ensures
        res == p@.is_suffix_of(s@),
{
    if p.len() > s.len() {
        return false;
    }
    let n: usize = s.len();
    let off: usize = n - p.len();
    let mut i: usize = 0;
    while i < p.len()
        invariant
            n == s@.len(),
            p@.len() <= s@.len(),
            off == s@.len() - p@.len(),
            i <= p@.len(),
            forall|j: int| 0 <= j < i ==> s@[off + j] == p@[j],
        decreases p@.len() - i,
    {
        if s[off + i] != p[i] {
            assert(s@.subrange(off as int, s@.len() as int)[i as int] != p@[i as int]);
            return false;
        }
        i = i + 1;
    }
    assert(p@ =~= s@.subrange(off as int, s@.len() as int));
    true
}

/// Whether `p` occurs in `s` at position `i`.
pub fn matches_at(s: &[char], p: &[char], i: usize) -> (res: bool)
    ensures
        res == occurs_at(s@, p@, i as int),
{
    let n: usize = s.len();
    if i > n || p.len() > n - i {
        return false;
    }
    let mut k: usize = 0;
    while k < p.len()
        invariant
            n == s@.len(),
            i + p@.len() <= s@.len(),
            k <= p@.len(),
            forall|j: int| 0 <= j < k ==> s@[i + j] == p@[j],
        decreases p@.len() - k,
    {
        if s[i + k] != p[k] {
            assert(s@.subrange(i as int, i + p@.len())[k as int] != p@[k as int]);
            return false;
        }
        k = k + 1;
    }
    assert(s@.subrange(i as int, i + p@.len()) =~= p@);
    true
}

/// The first position at or after `from` where `p` occurs in `s`.
pub fn find_from(s: &[char], p: &[char], from: usize) -> (res: Option<usize>)
    ensures
        match res {
            Some(i) => from <= i && occurs_at(s@, p@, i as int) && forall|j: int|
                from <= j < i ==> !occurs_at(s@, p@, j),
            None => forall|j: int| from <= j ==> !occurs_at(s@, p@, j),
        },
{
    let n: usize = s.len();
    let mut i: usize = from;
    loop
        invariant
            n == s@.len(),
            from <= i,
            forall|j: int| from <= j < i ==> !occurs_at(s@, p@, j),
        decreases n - i,
    {
        if matches_at(s, p, i) {
            return Some(i);
        }
        if i >= n {
            return None;
        }
        i = i + 1;
    }
}

/// The first position at or after `from` where `p` occurs.
#[verifier::opaque]
pub open spec fn first_occurrence_from(s: Seq<char>, p: Seq<char>, from: int) -> Option<int> {
    if exists|i: int| from <= i && occurs_at(s, p, i) {
        Some(
            choose|i: int|
                from <= i && occurs_at(s, p, i) && forall|j: int|
                    from <= j < i ==> !occurs_at(s, p, j),
        )
    } else {
        None
    }
}

pub proof fn lemma_first_occurrence_from(s: Seq<char>, p: Seq<char>, from: int, i: int)
    requires
        from <= i,
        occurs_at(s, p, i),
        forall|j: int| from <= j < i ==> !occurs_at(s, p, j),
    ensures
        first_occurrence_from(s, p, from) == Some(i),
{
    reveal(first_occurrence_from);
    let c = choose|k: int|
        from <= k && occurs_at(s, p, k) && forall|j: int| from <= j < k ==> !occurs_at(s, p, j);
    assert(from <= i && occurs_at(s, p, i) && forall|j: int| from <= j < i ==> !occurs_at(s, p, j));
    if c < i {
    } else if i < c {
    }
}

/// `str::find` starting at `from`.
pub fn find_first_from(s: &[char], p: &[char], from: usize) -> (res: Option<usize>)
    ensures
        match res {
            Some(i) => first_occurrence_from(s@, p@, from as int) == Some(i as int) && from <= i
                && occurs_at(s@, p@, i as int),
            None => first_occurrence_from(s@, p@, from as int).is_none(),
        },
{
    reveal(first_occurrence_from);
    let r = find_from(s, p, from);
    proof {
        match r {
            Some(i) => lemma_first_occurrence_from(s@, p@, from as int, i as int),
            None => {},
        }
    }
    r
}

/// The first position at or after `from` holding `c`.
#[verifier::opaque]
pub open spec fn first_char_from(s: Seq<char>, c: char, from: int) -> Option<int> {
    if exists|i: int| from <= i < s.len() && s[i] == c {
        Some(
            choose|i: int|
                from <= i < s.len() && s[i] == c && forall|j: int| from <= j < i ==> s[j] != c,
        )
    } else {
        None
    }
}

pub fn find_first_char_from(s: &[char], c: char, from: usize) -> (res: Option<usize>)
    ensures
        match res {
            Some(i) => first_char_from(s@, c, from as int) == Some(i as int) && from <= i < s@.len()
                && s@[i as int] == c,
            None => first_char_from(s@, c, from as int).is_none(),
        },
{
    reveal(first_char_from);
    let r = find_char_from(s, c, from);
    proof {
        match r {
            Some(i) => {
                let k = choose|k: int|
                    from <= k < s@.len() && s@[k] == c && forall|j: int| from <= j < k ==> s@[j] != c;
                assert(from <= i < s@.len() && s@[i as int] == c);
                if k < i {
                } else if i < k {
                }
            },
            None => {},
        }
    }
    r
}

pub fn contains(s: &[char], p: &[char]) -> (res: bool)
    ensures
        res == contains_seq(s@, p@),
{
    match find_from(s, p, 0) {
        Some(i) => true,
        None => {
            assert forall|j: int| !occurs_at(s@, p@, j) by {
                if j < 0 {
                }
            }
            false
        },
    }
}

pub fn contains_str(s: &[char], p: &str) -> (res: bool)
    ensures
        res == contains_seq(s@, p@),
{
    let pc = chars_of(p);
    contains(s, pc.as_slice())
}

pub fn starts_with_str(s: &[char], p: &str) -> (res: bool)
    ensures
        res == p@.is_prefix_of(s@),
{
    let pc = chars_of(p);
    starts_with(s, pc.as_slice())
}

pub fn ends_with_str(s: &[char], p: &str) -> (res: bool)
    ensures
        res == p@.is_suffix_of(s@),
{
    let pc = chars_of(p);
    ends_with(s, pc.as_slice())
}

pub fn eq_str(s: &[char], p: &str) -> (res: bool)
    ensures
        res == (s@ == p@),
{
    let pc = chars_of(p);
    chars_eq(s, pc.as_slice())
}

/// The first position at or after `from` holding `c`.
pub fn find_char_from(s: &[char], c: char, from: usize) -> (res: Option<usize>)
    ensures
        match res {
            Some(i) => from <= i < s@.len() && s@[i as int] == c && forall|j: int|
                from <= j < i ==> s@[j] != c,
            None => forall|j: int| from <= j < s@.len() ==> s@[j] != c,
        },
{
    let mut i: usize = from;
    while i < s.len()
        invariant
            from <= i,
            forall|j: int| from <= j < i && j < s@.len() ==> s@[j] != c,
        decreases s@.len() - i,
    {
        if s[i] == c {
            return Some(i);
        }
        i = i + 1;
    }
    None
}

pub fn contains_char_exec(s: &[char], c: char) -> (res: bool)
    ensures
        res == contains_char(s@, c),
{
    find_char_from(s, c, 0).is_some()
}

// ---------------------------------------------------------------------------
// Trimming
// ---------------------------------------------------------------------------
/// The character sets that the library trims or splits on.
#[derive(Clone, Copy, PartialEq, Eq)]
pub enum CharSet {
    WhiteSpace,
    Quote,
    DotOrSpace,
    Slash,
    Dash,
    PathSeparator,
    Comma,
    Question,
    AssetDelimiter,
    NotAsciiAlnum,
    Newline,
    Apostrophe,
}

pub open spec fn in_set(set: CharSet, c: char) -> bool {
    match set {
        CharSet::WhiteSpace => is_white_space(c),
        CharSet::Quote => c == '"',
        CharSet::DotOrSpace => c == '.' || c == ' ',
        CharSet::Slash => c == '/',
        CharSet::Dash => c == '-',
        CharSet::PathSeparator => c == '/' || c == '\\',
        CharSet::Comma => c == ',',
        CharSet::Question => c == '?',
        CharSet::AssetDelimiter => is_white_space(c) || c == ',' || c == ';' || c == '|',
        CharSet::NotAsciiAlnum => !is_ascii_alnum(c),
        CharSet::Newline => c == '\n',
        CharSet::Apostrophe => c == '\'',
    }
}

pub fn in_set_exec(set: CharSet, c: char) -> (res: bool)
    ensures
        res == in_set(set, c),
{
    match set {
        CharSet::WhiteSpace => is_white_space_exec(c),
        CharSet::Quote => c == '"',
        CharSet::DotOrSpace => c == '.' || c == ' ',
        CharSet::Slash => c == '/',
        CharSet::Dash => c == '-',
        CharSet::PathSeparator => c == '/' || c == '\\',
        CharSet::Comma => c == ',',
        CharSet::Question => c == '?',
        CharSet::AssetDelimiter => is_white_space_exec(c) || c == ',' || c == ';' || c == '|',
        CharSet::NotAsciiAlnum => !is_ascii_alnum_exec(c),
        CharSet::Newline => c == '\n',
        CharSet::Apostrophe => c == '\'',
    }
}

pub open spec fn trim_start_by(s: Seq<char>, set: CharSet) -> Seq<char>
    decreases s.len(),
{
    if s.len() > 0 && in_set(set, s[0]) {
        trim_start_by(s.drop_first(), set)
    } else {
        s
    }
}

pub open spec fn trim_end_by(s: Seq<char>, set: CharSet) -> Seq<char>
    decreases s.len(),
{
    if s.len() > 0 && in_set(set, s.last()) {
        trim_end_by(s.drop_last(), set)
    } else {
        s
    }
}

/// `str::trim_matches` for a character set.
pub open spec fn trim_by(s: Seq<char>, set: CharSet) -> Seq<char> {
    trim_end_by(trim_start_by(s, set), set)
}

/// `str::trim`.
pub open spec fn trim(s: Seq<char>) -> Seq<char> {
    trim_by(s, CharSet::WhiteSpace)
}

pub fn trim_start_index(s: &[char], set: CharSet) -> (res: usize)
    ensures
        res <= s@.len(),
        trim_start_by(s@, set) == s@.skip(res as int),
{
    let mut i: usize = 0;
    assert(s@.skip(0) =~= s@);
    while i < s.len() && in_set_exec(set, s[i])
        invariant
            i <= s@.len(),
            trim_start_by(s@, set) == trim_start_by(s@.skip(i as int), set),
        decreases s@.len() - i,
    {
        assert(s@.skip(i as int).drop_first() =~= s@.skip(i + 1));
        i = i + 1;
    }
    if i == s.len() {
        assert(s@.skip(i as int).len() == 0);
    }
    i
}

pub fn trim_end_index(s: &[char], from: usize, set: CharSet) -> (res: usize)
    requires
        from <= s@.len(),
    ensures
        from <= res <= s@.len(),
        trim_end_by(s@.subrange(from as int, s@.len() as int), set) == s@.subrange(
            from as int,
            res as int,
        ),
{
    let mut j: usize = s.len();
    while j > from && in_set_exec(set, s[j - 1])
        invariant
            from <= j <= s@.len(),
            trim_end_by(s@.subrange(from as int, s@.len() as int), set) == trim_end_by(
                s@.subrange(from as int, j as int),
                set,
            ),
        decreases j,
    {
        assert(s@.subrange(from as int, j as int).drop_last() =~= s@.subrange(
            from as int,
            j - 1 as int,
        ));
        j = j - 1;
    }
    j
}

/// Bounds `(a, b)` such that `s[a..b]` is `s` trimmed by `set`.
pub fn trim_bounds(s: &[char], set: CharSet) -> (res: (usize, usize))
    ensures
        res.0 <= res.1 <= s@.len(),
        trim_by(s@, set) == s@.subrange(res.0 as int, res.1 as int),
{
    let a = trim_start_index(s, set);
    assert(s@.skip(a as int) =~= s@.subrange(a as int, s@.len() as int));
    let b = trim_end_index(s, a, set);
    (a, b)
}

pub fn trim_chars(s: &[char], set: CharSet) -> (res: Vec<char>)
    ensures
        res@ == trim_by(s@, set),
{
    let (a, b) = trim_bounds(s, set);
    slice_chars(s, a, b)
}

pub proof fn lemma_trim_start_idempotent(s: Seq<char>, set: CharSet)
    ensures
        trim_start_by(trim_start_by(s, set), set) == trim_start_by(s, set),
    decreases s.len(),
{
    if s.len() > 0 && in_set(set, s[0]) {
        lemma_trim_start_idempotent(s.drop_first(), set);
    }
}

pub proof fn lemma_trim_end_idempotent(s: Seq<char>, set: CharSet)
    ensures
        trim_end_by(trim_end_by(s, set), set) == trim_end_by(s, set),
    decreases s.len(),
{
    if s.len() > 0 && in_set(set, s.last()) {
        lemma_trim_end_idempotent(s.drop_last(), set);
    }
}

/// Trimming only removes characters from the ends.
pub proof fn lemma_trim_end_keeps_start(s: Seq<char>, set: CharSet)
    requires
        s.len() == 0 || !in_set(set, s[0]),
    ensures
        trim_end_by(s, set).len() == 0 || !in_set(set, trim_end_by(s, set)[0]),
        trim_start_by(trim_end_by(s, set), set) == trim_end_by(s, set),
    decreases s.len(),
{
    if s.len() > 0 && in_set(set, s.last()) {
        if s.len() > 1 {
            assert(s.drop_last()[0] == s[0]);
        }
        lemma_trim_end_keeps_start(s.drop_last(), set);
    }
}

pub proof fn lemma_trim_start_nonset(s: Seq<char>, set: CharSet)
    ensures
        trim_start_by(s, set).len() == 0 || !in_set(set, trim_start_by(s, set)[0]),
    decreases s.len(),
{
    if s.len() > 0 && in_set(set, s[0]) {
        lemma_trim_start_nonset(s.drop_first(), set);
    }
}

/// Trimming twice is trimming once.
pub proof fn lemma_trim_idempotent(s: Seq<char>)
    ensures
        trim(trim(s)) == trim(s),
{
    let a = trim_start_by(s, CharSet::WhiteSpace);
    lemma_trim_start_nonset(s, CharSet::WhiteSpace);
    lemma_trim_end_keeps_start(a, CharSet::WhiteSpace);
    lemma_trim_end_idempotent(a, CharSet::WhiteSpace);
}

/// `str::trim` on a `str`, as characters.
pub fn trimmed(s: &str) -> (res: Vec<char>)
    ensures
        res@ == trim(s@),
{
    let cs = chars_of(s);
    trim_chars(cs.as_slice(), CharSet::WhiteSpace)
}

/// `str::trim` on a `str`, as a `String`.
pub fn trim_string(s: &str) -> (res: String)
    ensures
        res@ == trim(s@),
{
    let t = trimmed(s);
    string_from_chars(t.as_slice())
}

/// `str::trim().is_empty()`.
pub fn is_blank(s: &str) -> (res: bool)
    ensures
        res == (trim(s@).len() == 0),
{
    trimmed(s).len() == 0
}

// ---------------------------------------------------------------------------
// Splitting
// ---------------------------------------------------------------------------
/// `str::split` on a character set: the pieces between separators, empty
/// pieces included, so `n` separators give `n + 1` pieces.
pub open spec fn split_on(s: Seq<char>, set: CharSet) -> Seq<Seq<char>>
    decreases s.len(),
{
    if s.len() == 0 {
        seq![Seq::<char>::empty()]
    } else {
        let prev = split_on(s.drop_last(), set);
        if in_set(set, s.last()) {
            prev.push(Seq::<char>::empty())
        } else {
            prev.update(prev.len() - 1, prev.last().push(s.last()))
        }
    }
}

pub proof fn lemma_split_nonempty(s: Seq<char>, set: CharSet)
    ensures
        split_on(s, set).len() >= 1,
    decreases s.len(),
{
    if s.len() > 0 {
        lemma_split_nonempty(s.drop_last(), set);
    }
}

/// The views of a sequence of strings.
pub open spec fn strings_view(v: Seq<String>) -> Seq<Seq<char>> {
    v.map_values(|s: String| s@)
}

/// The views of a sequence of character vectors.
pub open spec fn views(v: Seq<Vec<char>>) -> Seq<Seq<char>> {
    v.map_values(|x: Vec<char>| x@)
}

pub fn split_exec(s: &[char], set: CharSet) -> (res: Vec<Vec<char>>)
    ensures
        views(res@) == split_on(s@, set),
        res@.len() >= 1,
{
    let mut out: Vec<Vec<char>> = Vec::new();
    let mut cur: Vec<char> = Vec::new();
    let mut i: usize = 0;
    assert(s@.take(0) =~= Seq::<char>::empty());
    assert(views(out@).push(cur@) =~= split_on(s@.take(0), set));
    while i < s.len()
        invariant
            i <= s@.len(),
            views(out@).push(cur@) == split_on(s@.take(i as int), set),
        decreases s@.len() - i,
    {
        let c = s[i];
        let ghost prev = split_on(s@.take(i as int), set);
        assert(s@.take(i + 1).drop_last() =~= s@.take(i as int));
        assert(s@.take(i + 1).last() == c);
        if in_set_exec(set, c) {
            let done = cur;
            let ghost before = out@;
            out.push(done);
            assert(out@ == before.push(done));
            cur = Vec::new();
            assert(views(out@).push(cur@) =~= prev.push(Seq::<char>::empty()));
        } else {
            cur.push(c);
            assert(views(out@).push(cur@) =~= prev.update(
                prev.len() - 1,
                prev.last().push(c),
            ));
        }
        i = i + 1;
    }
    assert(s@.take(i as int) =~= s@);
    let ghost before = out@;
    let ghost last = cur@;
    out.push(cur);
    assert(views(out@) =~= views(before).push(last));
    out
}

// ---------------------------------------------------------------------------
// Decimal notation
// ---------------------------------------------------------------------------
pub open spec fn digit_char(d: nat) -> char {
    if d == 0 {
        '0'
    } else if d == 1 {
        '1'
    } else if d == 2 {
        '2'
    } else if d == 3 {
        '3'
    } else if d == 4 {
        '4'
    } else if d == 5 {
        '5'
    } else if d == 6 {
        '6'
    } else if d == 7 {
        '7'
    } else if d == 8 {
        '8'
    } else {
        '9'
    }
}

/// The decimal notation of `n`, as `u64::to_string` writes it.
pub open spec fn decimal(n: nat) -> Seq<char>
    decreases n,
{
    if n < 10 {
        seq![digit_char(n)]
    } else {
        decimal(n / 10).push(digit_char(n % 10))
    }
}

/// The decimal notation of an integer with a leading `-` when negative.
pub open spec fn signed_decimal(i: int) -> Seq<char> {
    if i < 0 {
        seq!['-'] + decimal((-i) as nat)
    } else {
        decimal(i as nat)
    }
}

pub proof fn lemma_decimal_nonempty(n: nat)
    ensures
        decimal(n).len() >= 1,
        n >= 10 ==> decimal(n).len() >= 2,
    decreases n,
{
    if n >= 10 {
        lemma_decimal_nonempty(n / 10);
    }
}

pub proof fn lemma_decimal_digits(n: nat)
    ensures
        forall|i: int| 0 <= i < decimal(n).len() ==> is_ascii_digit(#[trigger] decimal(n)[i]),
    decreases n,
{
    if n >= 10 {
        lemma_decimal_digits(n / 10);
        assert forall|i: int| 0 <= i < decimal(n).len() implies is_ascii_digit(
            #[trigger] decimal(n)[i],
        ) by {
            if i < decimal(n / 10).len() {
                assert(decimal(n)[i] == decimal(n / 10)[i]);
            }
        }
    }
}

/// Distinct numbers have distinct decimal notations.
pub proof fn lemma_decimal_injective(a: nat, b: nat)
    requires
        decimal(a) == decimal(b),
    ensures
        a == b,
    decreases a,
{
    lemma_decimal_nonempty(a);
    lemma_decimal_nonempty(b);
    if a < 10 && b < 10 {
        assert(decimal(a) == seq![digit_char(a)]);
        assert(decimal(b) == seq![digit_char(b)]);
        assert(seq![digit_char(a)][0] == digit_char(a));
        assert(seq![digit_char(b)][0] == digit_char(b));
        assert(decimal(a)[0] == decimal(b)[0]);
        assert(digit_char(a) == digit_char(b));
    } else if a >= 10 && b >= 10 {
        assert(decimal(a) == decimal(a / 10).push(digit_char(a % 10)));
        assert(decimal(b) == decimal(b / 10).push(digit_char(b % 10)));
        assert(decimal(a / 10).push(digit_char(a % 10)).last() == digit_char(a % 10));
        assert(decimal(b / 10).push(digit_char(b % 10)).last() == digit_char(b % 10));
        assert(decimal(a).last() == decimal(b).last());
        assert(digit_char(a % 10) == digit_char(b % 10));
        assert(a % 10 == b % 10);
        assert(decimal(a).drop_last() =~= decimal(a / 10));
        assert(decimal(b).drop_last() =~= decimal(b / 10));
        lemma_decimal_injective(a / 10, b / 10);
        assert(a == 10 * (a / 10) + a % 10);
        assert(b == 10 * (b / 10) + b % 10);
    } else if a < 10 {
        lemma_decimal_nonempty(b / 10);
        assert(decimal(a).len() == 1);
    } else {
        lemma_decimal_nonempty(a / 10);
        assert(decimal(b).len() == 1);
    }
}

fn digit_exec(d: u128) -> (res: char)
    requires
        d < 10,
    ensures
        res == digit_char(d as nat),
{
    if d == 0 {
        '0'
    } else if d == 1 {
        '1'
    } else if d == 2 {
        '2'
    } else if d == 3 {
        '3'
    } else if d == 4 {
        '4'
    } else if d == 5 {
        '5'
    } else if d == 6 {
        '6'
    } else if d == 7 {
        '7'
    } else if d == 8 {
        '8'
    } else {
        '9'
    }
}

/// Appends the decimal notation of `n`.
pub fn push_decimal(out: &mut Vec<char>, n: u128)
    ensures
        final(out)@ == old(out)@ + decimal(n as nat),
    decreases n,
{
    if n >= 10 {
        push_decimal(out, n / 10);
    }
    let d = digit_exec(n % 10);
    out.push(d);
    if n >= 10 {
        assert(decimal(n as nat) == decimal((n / 10) as nat).push(digit_char((n % 10) as nat)));
    }
}

/// Appends the decimal notation of a signed integer.
pub fn push_signed_decimal(out: &mut Vec<char>, i: i64)
    ensures
        final(out)@ == old(out)@ + signed_decimal(i as int),
{
    if i < 0 {
        out.push('-');
        let m: u128 = (0i128 - i as i128) as u128;
        push_decimal(out, m);
    } else {
        push_decimal(out, i as u128);
    }
}

/// `n.to_string()`.
pub fn decimal_string(n: u128) -> (res: String)
    ensures
        res@ == decimal(n as nat),
{
    let mut v: Vec<char> = Vec::new();
    push_decimal(&mut v, n);
    string_from_chars(v.as_slice())
}

/// `i.to_string()` for a signed integer.
pub fn signed_decimal_string(i: i64) -> (res: String)
    ensures
        res@ == signed_decimal(i as int),
{
    let mut v: Vec<char> = Vec::new();
    push_signed_decimal(&mut v, i);
    string_from_chars(v.as_slice())
}

// ---------------------------------------------------------------------------
// Unicode lowercase (std)
// ---------------------------------------------------------------------------
/// What `str::to_lowercase` returns for a string with these characters.
pub uninterp spec fn unicode_lowercase(s: Seq<char>) -> Seq<char>;

/// Calls `str::to_lowercase`; its result is named `unicode_lowercase`.
#[verifier::external_body]
pub(crate) fn to_lowercase(s: &str) -> (res: String)
    ensures
        res@ == unicode_lowercase(s@),
{
    s.to_lowercase()
}

/// `str::to_lowercase` on characters.
pub fn lowercase_chars(s: &[char]) -> (res: Vec<char>)
    ensures
        res@ == unicode_lowercase(s@),
{
    let st = string_from_chars(s);
    let l = to_lowercase(st.as_str());
    chars_of(l.as_str())
}

} // verus!
