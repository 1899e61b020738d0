//! Character-level text model shared by every service in the crate.
//!
//! Strings are reasoned about as `Seq<char>`. The spec functions here give the
//! meaning of the few string operations the services rely on (whitespace
//! trimming, ASCII case folding, substring search, splitting, line breaking,
//! decimal and hexadecimal numerals), and the executable functions compute them.

use vstd::prelude::*;

verus! {

// ---------------------------------------------------------------------------
// Conversions between `str`/`String` and character vectors.
// ---------------------------------------------------------------------------

/// Characters of a string slice, in order.
pub fn chars_of(s: &str) -> (r: Vec<char>)
    ensures
        r@ == s@,
{
    let mut out: Vec<char> = Vec::new();
    for c in it: s.chars()
        invariant
            out@ == it.seq().take(it.index() as int),
    {
        out.push(c);
    }
    out
}

/// Appends one character to a `String` (`String::push`).
#[verifier::external_body]
pub(crate) fn push_char(s: &mut String, c: char)
    ensures
        final(s)@ == old(s)@.push(c),
{
    s.push(c);
}

/// Appends a string slice to a `String` (`String::push_str`).
#[verifier::external_body]
pub(crate) fn push_str(s: &mut String, t: &str)
    ensures
        final(s)@ == old(s)@ + t@,
{
    s.push_str(t);
}

/// Equality of two string slices (`<str as PartialEq>::eq`).
#[verifier::external_body]
pub(crate) fn str_eq(a: &str, b: &str) -> (r: bool)
    ensures
        r == (a@ == b@),
{
    a == b
}

/// The string made of the given characters.
pub fn string_of(v: &[char]) -> (r: String)
    ensures
        r@ == v@,
{
    let mut out = String::new();
    let mut i: usize = 0;
    while i < v.len()
        invariant
            i <= v@.len(),
            out@ == v@.take(i as int),
        decreases v@.len() - i,
    {
        push_char(&mut out, v[i]);
        assert(v@.take(i as int).push(v@[i as int]) =~= v@.take(i + 1));
        i += 1;
    }
    assert(v@.take(v@.len() as int) =~= v@);
    out
}

/// A string slice copied into an owned `String`.
pub fn owned(s: &str) -> (r: String)
    ensures
        r@ == s@,
{
    let mut out = String::new();
    push_str(&mut out, s);
    assert(out@ =~= s@);
    out
}

/// The string made of the concatenation of two string slices.
pub fn concat2(a: &str, b: &str) -> (r: String)
    ensures
        r@ == a@ + b@,
{
    let mut out = String::new();
    push_str(&mut out, a);
    push_str(&mut out, b);
    assert(out@ =~= a@ + b@);
    out
}

/// Copy of `v[lo..hi]`.
pub fn slice_chars(v: &[char], lo: usize, hi: usize) -> (r: Vec<char>)
    requires
        lo <= hi <= v@.len(),
    ensures
        r@ == v@.subrange(lo as int, hi as int),
{
    let mut out: Vec<char> = Vec::new();
    let mut i = lo;
    while i < hi
        invariant
            lo <= i <= hi <= v@.len(),
            out@ == v@.subrange(lo as int, i as int),
        decreases hi - i,
    {
        out.push(v[i]);
        assert(v@.subrange(lo as int, i as int).push(v@[i as int]) =~= v@.subrange(lo as int, i + 1));
        i += 1;
    }
    out
}

/// Whether two character vectors hold the same characters.
pub fn chars_eq(a: &[char], b: &[char]) -> (r: bool)
    ensures
        r == (a@ == b@),
{
    if a.len() != b.len() {
        return false;
    }
    let mut i: usize = 0;
    while i < a.len()
        invariant
            a@.len() == b@.len(),
            i <= a@.len(),
            forall|k: int| 0 <= k < i ==> a@[k] == b@[k],
        decreases a@.len() - i,
    {
        if a[i] != b[i] {
            return false;
        }
        i += 1;
    }
    assert(a@ =~= b@);
    true
}

/// Appends `t` to the vector `v`.
pub fn extend_chars(v: &mut Vec<char>, t: &[char])
    ensures
        final(v)@ == old(v)@ + t@,
{
    let mut i: usize = 0;
    while i < t.len()
        invariant
            i <= t@.len(),
            v@ == old(v)@ + t@.take(i as int),
        decreases t@.len() - i,
    {
        v.push(t[i]);
        assert(old(v)@ + t@.take(i as int) + seq![t@[i as int]] =~= old(v)@ + t@.take(i + 1));
        i += 1;
    }
    assert(t@.take(t@.len() as int) =~= t@);
}

// ---------------------------------------------------------------------------
// Whitespace and trimming.
// ---------------------------------------------------------------------------

/// Unicode `White_Space`: the characters `char::is_whitespace` accepts.
pub open spec fn is_space(c: char) -> bool {
    let u = c as u32;
    ||| 9 <= u <= 13
    ||| u == 32
    ||| u == 0x85
    ||| u == 0xA0
    ||| u == 0x1680
    ||| 0x2000 <= u <= 0x200A
    ||| u == 0x2028
    ||| u == 0x2029
    ||| u == 0x202F
    ||| u == 0x205F
    ||| u == 0x3000
}

/// Executable `is_space`.
pub fn space_char(c: char) -> (r: bool)
    ensures
        r == is_space(c),
{
    let u = c as u32;
    (9 <= u && u <= 13) || u == 32 || u == 0x85 || u == 0xA0 || u == 0x1680 || (0x2000 <= u
        && u <= 0x200A) || u == 0x2028 || u == 0x2029 || u == 0x202F || u == 0x205F || u == 0x3000
}

/// `s` without leading whitespace.
pub open spec fn trim_start(s: Seq<char>) -> Seq<char>
    decreases s.len(),
{
    if s.len() > 0 && is_space(s[0]) {
        trim_start(s.drop_first())
    } else {
        s
    }
}

/// `s` without trailing whitespace.
pub open spec fn trim_end(s: Seq<char>) -> Seq<char>
    decreases s.len(),
{
    if s.len() > 0 && is_space(s.last()) {
        trim_end(s.drop_last())
    } else {
        s
    }
}

/// `s` without leading or trailing whitespace (`str::trim`).
pub open spec fn trim(s: Seq<char>) -> Seq<char> {
    trim_end(trim_start(s))
}

/// `s` with every trailing copy of `c` removed (`trim_end_matches` on a char).
pub open spec fn trim_end_char(s: Seq<char>, c: char) -> Seq<char>
    decreases s.len(),
{
    if s.len() > 0 && s.last() == c {
        trim_end_char(s.drop_last(), c)
    } else {
        s
    }
}

/// Removing leading whitespace never lengthens a string.
pub proof fn lemma_trim_start_shorter(s: Seq<char>)
    ensures
        trim_start(s).len() <= s.len(),
    decreases s.len(),
{
    if s.len() > 0 && is_space(s[0]) {
        lemma_trim_start_shorter(s.drop_first());
    }
}

/// Removing trailing whitespace never lengthens a string.
pub proof fn lemma_trim_end_shorter(s: Seq<char>)
    ensures
        trim_end(s).len() <= s.len(),
    decreases s.len(),
{
    if s.len() > 0 && is_space(s.last()) {
        lemma_trim_end_shorter(s.drop_last());
    }
}

/// Executable `trim`.
pub fn trim_chars(s: &[char]) -> (r: Vec<char>)
    ensures
        r@ == trim(s@),
{
    let n = s.len();
    let mut lo: usize = 0;
    assert(s@.subrange(0, n as int) =~= s@);
    while lo < n && space_char(s[lo])
        invariant
            lo <= n == s@.len(),
            trim_start(s@) == trim_start(s@.subrange(lo as int, n as int)),
        decreases n - lo,
    {
        assert(s@.subrange(lo as int, n as int).drop_first() =~= s@.subrange(lo + 1, n as int));
        lo += 1;
    }
    let mut hi: usize = n;
    assert(trim_start(s@) == s@.subrange(lo as int, n as int));
    while hi > lo && space_char(s[hi - 1])
        invariant
            lo <= hi <= n == s@.len(),
            trim(s@) == trim_end(s@.subrange(lo as int, hi as int)),
        decreases hi,
    {
        assert(s@.subrange(lo as int, hi as int).drop_last() =~= s@.subrange(lo as int, hi - 1));
        hi -= 1;
    }
    slice_chars(s, lo, hi)
}

/// Executable `trim_end_char`.
pub fn trim_end_char_chars(s: &[char], c: char) -> (r: Vec<char>)
    ensures
        r@ == trim_end_char(s@, c),
{
    let mut hi: usize = s.len();
    assert(s@.subrange(0, hi as int) =~= s@);
    while hi > 0 && s[hi - 1] == c
        invariant
            hi <= s@.len(),
            trim_end_char(s@, c) == trim_end_char(s@.subrange(0, hi as int), c),
        decreases hi,
    {
        assert(s@.subrange(0, hi as int).drop_last() =~= s@.subrange(0, hi - 1));
        hi -= 1;
    }
    slice_chars(s, 0, hi)
}

// ---------------------------------------------------------------------------
// ASCII case folding.
// ---------------------------------------------------------------------------

/// ASCII lower-case of one character (`char::to_ascii_lowercase`).
pub open spec fn lower(c: char) -> char {
    if 'A' <= c && c <= 'Z' {
        ((c as u32) + 32) as char
    } else {
        c
    }
}

/// ASCII lower-case of a string (`str::to_ascii_lowercase`).
pub open spec fn lower_seq(s: Seq<char>) -> Seq<char> {
    s.map_values(|c: char| lower(c))
}

/// Executable `lower`.
pub fn lower_char(c: char) -> (r: char)
    ensures
        r == lower(c),
{
    if 'A' <= c && c <= 'Z' {
        let u = (c as u32) + 32;
        assert(u < 0xD800);
        char_of_u32(u)
    } else {
        c
    }
}

/// The character with code point `u` (a scalar value below the surrogates).
fn char_of_u32(u: u32) -> (r: char)
    requires
        u < 0xD800,
    ensures
        r == u as char,
        r as u32 == u,
{
    let b = u as u8;
    if u < 0x80 {
        assert(b == u);
        b as char
    } else {
        char_from_scalar(u)
    }
}

/// `char::from_u32` on a value known to be a scalar value.
#[verifier::external_body]
fn char_from_scalar(u: u32) -> (r: char)
    requires
        u < 0xD800,
    ensures
        r == u as char,
        r as u32 == u,
{
    char::from_u32(u).unwrap_or('\0')
}

/// Executable `lower_seq`.
pub fn lower_chars(s: &[char]) -> (r: Vec<char>)
    ensures
        r@ == lower_seq(s@),
{
    let mut out: Vec<char> = Vec::new();
    let mut i: usize = 0;
    while i < s.len()
        invariant
            i <= s@.len(),
            out@ == lower_seq(s@.take(i as int)),
        decreases s@.len() - i,
    {
        out.push(lower_char(s[i]));
        assert(lower_seq(s@.take(i + 1)) =~= lower_seq(s@.take(i as int)).push(lower(s@[i as int])));
        i += 1;
    }
    assert(s@.take(s@.len() as int) =~= s@);
    out
}

/// ASCII upper-case of a character.
pub open spec fn upper(c: char) -> char {
    if 'a' <= c && c <= 'z' {
        ((c as u32) - 32) as char
    } else {
        c
    }
}

/// ASCII upper-case of a string (`str::to_ascii_uppercase`).
pub open spec fn upper_seq(s: Seq<char>) -> Seq<char> {
    s.map_values(|c: char| upper(c))
}

/// Executable `upper`.
pub fn upper_char(c: char) -> (r: char)
    ensures
        r == upper(c),
{
    if 'a' <= c && c <= 'z' {
        let u = (c as u32) - 32;
        char_of_u32(u)
    } else {
        c
    }
}

/// Executable `upper_seq`.
pub fn upper_chars(s: &[char]) -> (r: Vec<char>)
    ensures
        r@ == upper_seq(s@),
{
    let mut out: Vec<char> = Vec::new();
    let mut i: usize = 0;
    while i < s.len()
        invariant
            i <= s@.len(),
            out@ == upper_seq(s@.take(i as int)),
        decreases s@.len() - i,
    {
        out.push(upper_char(s[i]));
        assert(upper_seq(s@.take(i + 1)) =~= upper_seq(s@.take(i as int)).push(upper(s@[i as int])));
        i += 1;
    }
    assert(s@.take(s@.len() as int) =~= s@);
    out
}

/// ASCII case-insensitive equality (`str::eq_ignore_ascii_case`).
pub open spec fn eq_ignore_case(a: Seq<char>, b: Seq<char>) -> bool {
    lower_seq(a) == lower_seq(b)
}

/// Executable `eq_ignore_case`.
pub fn eq_ignore_case_chars(a: &[char], b: &[char]) -> (r: bool)
    ensures
        r == eq_ignore_case(a@, b@),
{
    let la = lower_chars(a);
    let lb = lower_chars(b);
    chars_eq(&la, &lb)
}

// ---------------------------------------------------------------------------
// Prefixes, suffixes and substring search.
// ---------------------------------------------------------------------------

/// `s` starts with `p`.
pub open spec fn starts_with(s: Seq<char>, p: Seq<char>) -> bool {
    p.len() <= s.len() && s.subrange(0, p.len() as int) == p
}

/// `s` ends with `p`.
pub open spec fn ends_with(s: Seq<char>, p: Seq<char>) -> bool {
    p.len() <= s.len() && s.subrange(s.len() - p.len(), s.len() as int) == p
}

/// `needle` occurs in `hay` at position `i`.
pub open spec fn occurs_at(hay: Seq<char>, needle: Seq<char>, i: int) -> bool {
    0 <= i && i + needle.len() <= hay.len() && hay.subrange(i, i + needle.len()) == needle
}

/// The first position at or after `from` where `needle` occurs in `hay`.
pub open spec fn find_from(hay: Seq<char>, needle: Seq<char>, from: int) -> Option<int>
    decreases hay.len() + 1 - from,
{
    if from < 0 || from + needle.len() > hay.len() {
        None
    } else if occurs_at(hay, needle, from) {
        Some(from)
    } else {
        find_from(hay, needle, from + 1)
    }
}

/// `needle` occurs in `hay` (`str::contains`).
pub open spec fn contains(hay: Seq<char>, needle: Seq<char>) -> bool {
    find_from(hay, needle, 0) is Some
}

/// Where `find_from` can land.
pub proof fn lemma_find_from(hay: Seq<char>, needle: Seq<char>, from: int)
    requires
        0 <= from,
    ensures
        match find_from(hay, needle, from) {
            Some(i) => from <= i && occurs_at(hay, needle, i) && forall|j: int|
                from <= j < i ==> !occurs_at(hay, needle, j),
            None => forall|j: int| from <= j ==> !occurs_at(hay, needle, j),
        },
    decreases hay.len() + 1 - from,
{
    if from + needle.len() > hay.len() {
    } else if occurs_at(hay, needle, from) {
    } else {
        lemma_find_from(hay, needle, from + 1);
    }
}

/// Starting with a one-character string means having that first character.
pub proof fn lemma_starts_with_one(s: Seq<char>, c: char)
    ensures
        starts_with(s, seq![c]) <==> (s.len() > 0 && s[0] == c),
{
    if s.len() > 0 {
        assert(s.subrange(0, 1)[0] == s[0]);
        if s[0] == c {
            assert(s.subrange(0, 1) =~= seq![c]);
        }
    }
}

/// Whether `p` is a prefix of `s`.
pub fn starts_with_chars(s: &[char], p: &[char]) -> (r: bool)
    ensures
        r == starts_with(s@, p@),
{
    if p.len() > s.len() {
        return false;
    }
    let head = slice_chars(s, 0, p.len());
    chars_eq(&head, p)
}

/// Whether `p` is a suffix of `s`.
pub fn ends_with_chars(s: &[char], p: &[char]) -> (r: bool)
    ensures
        r == ends_with(s@, p@),
{
    if p.len() > s.len() {
        return false;
    }
    let tail = slice_chars(s, s.len() - p.len(), s.len());
    chars_eq(&tail, p)
}

/// Whether `needle` occurs in `hay` at position `i`.
pub fn occurs_at_chars(hay: &[char], needle: &[char], i: usize) -> (r: bool)
    ensures
        r == occurs_at(hay@, needle@, i as int),
{
    let n = hay.len();
    if i > n || needle.len() > n - i {
        return false;
    }
    let mut k: usize = 0;
    while k < needle.len()
        invariant
            n == hay@.len(),
            i + needle@.len() <= hay@.len(),
            k <= needle@.len(),
            forall|m: int| 0 <= m < k ==> hay@[i + m] == needle@[m],
        decreases needle@.len() - k,
    {
        assert(i + k < n);
        if hay[i + k] != needle[k] {
            assert(hay@.subrange(i as int, i + needle@.len())[k as int] != needle@[k as int]);
            return false;
        }
        k += 1;
    }
    assert(hay@.subrange(i as int, i + needle@.len()) =~= needle@);
    true
}

/// Executable `find_from`.
pub fn find_from_chars(hay: &[char], needle: &[char], from: usize) -> (r: Option<usize>)
    ensures
        r is Some <==> find_from(hay@, needle@, from as int) is Some,
        r is Some ==> find_from(hay@, needle@, from as int) == Some(r->0 as int),
{
    let mut i = from;
    while i <= hay.len() && needle.len() <= hay.len() - i
        invariant
            from <= i,
            find_from(hay@, needle@, from as int) == find_from(hay@, needle@, i as int),
        decreases hay@.len() + 1 - i,
    {
        if occurs_at_chars(hay, needle, i) {
            return Some(i);
        }
        if i == hay.len() {
            assert(find_from(hay@, needle@, i + 1) is None);
            return None;
        }
        i += 1;
    }
    None
}

/// Whether `needle` occurs in `hay` (`str::contains`).
pub fn contains_str(hay: &str, needle: &str) -> (r: bool)
    ensures
        r == contains(hay@, needle@),
{
    let h = chars_of(hay);
    let n = chars_of(needle);
    find_from_chars(&h, &n, 0).is_some()
}

// ---------------------------------------------------------------------------
// Splitting.
// ---------------------------------------------------------------------------

/// Pieces of `hay` between the non-overlapping occurrences of `needle` found
/// in `key` (a string of the same length as `hay`), from position `start` on.
/// With `key == hay` this is `str::split`; with `key` the ASCII lower-case of
/// `hay` it is a case-insensitive split on a lower-case needle.
pub open spec fn split_keyed(hay: Seq<char>, key: Seq<char>, needle: Seq<char>, start: int) -> Seq<
    Seq<char>,
>
    decreases hay.len() - start,
{
    if needle.len() == 0 || start < 0 || start > hay.len() {
        seq![hay.subrange(start, hay.len() as int)]
    } else {
        match find_from(key, needle, start) {
            Some(at) => {
                proof {
                    lemma_find_from(key, needle, start);
                }
                if at + needle.len() <= hay.len() {
                    seq![hay.subrange(start, at)] + split_keyed(hay, key, needle, at + needle.len())
                } else {
                    seq![hay.subrange(start, hay.len() as int)]
                }
            },
            None => seq![hay.subrange(start, hay.len() as int)],
        }
    }
}

/// `str::split` with a non-empty pattern.
pub open spec fn split(hay: Seq<char>, needle: Seq<char>) -> Seq<Seq<char>> {
    split_keyed(hay, hay, needle, 0)
}

/// A one-character needle occurs exactly where that character stands.
pub proof fn lemma_occurs_one(hay: Seq<char>, c: char, i: int)
    ensures
        occurs_at(hay, seq![c], i) <==> (0 <= i < hay.len() && hay[i] == c),
{
    if 0 <= i < hay.len() {
        assert(hay.subrange(i, i + 1)[0] == hay[i]);
        if hay[i] == c {
            assert(hay.subrange(i, i + 1) =~= seq![c]);
        }
    }
}

/// The search for a one-character needle lands on its first occurrence.
pub proof fn lemma_find_one(hay: Seq<char>, c: char, from: int)
    requires
        0 <= from,
    ensures
        match find_from(hay, seq![c], from) {
            Some(k) => from <= k < hay.len() && hay[k] == c && forall|j: int| from <= j < k ==> hay[j] != c,
            None => forall|j: int| from <= j < hay.len() ==> hay[j] != c,
        },
{
    lemma_find_from(hay, seq![c], from);
    match find_from(hay, seq![c], from) {
        Some(k) => {
            lemma_occurs_one(hay, c, k);
            assert forall|j: int| from <= j < k implies hay[j] != c by {
                lemma_occurs_one(hay, c, j);
            }
        },
        None => {
            assert forall|j: int| from <= j < hay.len() implies hay[j] != c by {
                lemma_occurs_one(hay, c, j);
            }
        },
    }
}

/// The pieces of `x + y` from position `|x| + j` are those of `y` from `j`.
pub proof fn lemma_split_shift(x: Seq<char>, y: Seq<char>, c: char, j: int)
    requires
        0 <= j <= y.len(),
    ensures
        split_keyed(x + y, x + y, seq![c], x.len() + j) == split_keyed(y, y, seq![c], j),
    decreases y.len() - j,
{
    let h = x + y;
    let n = seq![c];
    lemma_find_one(y, c, j);
    lemma_find_one(h, c, x.len() + j);
    match find_from(y, n, j) {
        Some(k) => {
            assert(h[x.len() + k] == c);
            match find_from(h, n, x.len() + j) {
                Some(m) => {
                    assert(m == x.len() + k) by {
                        if m < x.len() + k {
                            assert(y[m - x.len()] == h[m]);
                        } else if m > x.len() + k {
                            assert(h[x.len() + k] != c);
                        }
                    }
                },
                None => {
                    assert(h[x.len() + k] != c);
                },
            }
            lemma_split_shift(x, y, c, k + 1);
            assert(h.subrange(x.len() + j, x.len() + k) =~= y.subrange(j, k));
        },
        None => {
            match find_from(h, n, x.len() + j) {
                Some(m) => {
                    assert(y[m - x.len()] == h[m]);
                },
                None => {},
            }
            assert(h.subrange(x.len() + j, h.len() as int) =~= y.subrange(j, y.len() as int));
        },
    }
}

/// Splitting `a`, the separator, then `b`, from a position within `a`: the
/// pieces of `a` from there, then the pieces of `b`.
pub proof fn lemma_split_concat_from(a: Seq<char>, b: Seq<char>, c: char, s: int)
    requires
        0 <= s <= a.len(),
    ensures
        split_keyed(a + seq![c] + b, a + seq![c] + b, seq![c], s) == split_keyed(a, a, seq![c], s)
            + split_keyed(b, b, seq![c], 0),
    decreases a.len() - s,
{
    let h = a + seq![c] + b;
    let n = seq![c];
    lemma_find_one(a, c, s);
    lemma_find_one(h, c, s);
    assert(h[a.len() as int] == c);
    match find_from(a, n, s) {
        Some(k) => {
            assert(h[k] == a[k]);
            match find_from(h, n, s) {
                Some(m) => {
                    assert(m == k) by {
                        if m < k {
                            assert(h[m] == a[m]);
                        } else if m > k {
                            assert(h[k] != c);
                        }
                    }
                },
                None => {
                    assert(h[k] != c);
                },
            }
            lemma_split_concat_from(a, b, c, k + 1);
            assert(h.subrange(s, k) =~= a.subrange(s, k));
            assert(split_keyed(h, h, n, s) =~= seq![a.subrange(s, k)] + split_keyed(h, h, n, k + 1));
            assert(split_keyed(a, a, n, s) =~= seq![a.subrange(s, k)] + split_keyed(a, a, n, k + 1));
        },
        None => {
            match find_from(h, n, s) {
                Some(m) => {
                    assert(m == a.len()) by {
                        if m < a.len() {
                            assert(h[m] == a[m]);
                        } else if m > a.len() {
                            assert(h[a.len() as int] != c);
                        }
                    }
                },
                None => {
                    assert(h[a.len() as int] != c);
                },
            }
            lemma_split_shift(a + seq![c], b, c, 0);
            assert(h.subrange(s, a.len() as int) =~= a.subrange(s, a.len() as int));
            assert(split_keyed(h, h, n, s) =~= seq![a.subrange(s, a.len() as int)] + split_keyed(b, b, n, 0));
        },
    }
}

/// Splitting `a`, a separator, then `b`: the pieces of `a`, then those of `b`.
pub proof fn lemma_split_concat(a: Seq<char>, b: Seq<char>, c: char)
    ensures
        split(a + seq![c] + b, seq![c]) == split(a, seq![c]) + split(b, seq![c]),
{
    lemma_split_concat_from(a, b, c, 0);
}

/// Executable `split_keyed`.
pub fn split_keyed_chars(hay: &[char], key: &[char], needle: &[char], start: usize) -> (r: Vec<
    Vec<char>,
>)
    requires
        key@.len() == hay@.len(),
        needle@.len() > 0,
        start <= hay@.len(),
    ensures
        r@.map_values(|v: Vec<char>| v@) == split_keyed(hay@, key@, needle@, start as int),
    decreases hay@.len() - start,
{
    proof {
        lemma_find_from(key@, needle@, start as int);
    }
    let n = hay.len();
    match find_from_chars(key, needle, start) {
        Some(at) => {
            let piece = slice_chars(hay, start, at);
            let rest = split_keyed_chars(hay, key, needle, at + needle.len());
            let mut out: Vec<Vec<char>> = Vec::new();
            out.push(piece);
            let mut i: usize = 0;
            let ghost first = hay@.subrange(start as int, at as int);
            let ghost tail = split_keyed(hay@, key@, needle@, at + needle@.len());
            while i < rest.len()
                invariant
                    i <= rest@.len(),
                    rest@.map_values(|v: Vec<char>| v@) == tail,
                    out@.map_values(|v: Vec<char>| v@) == seq![first] + tail.take(i as int),
                decreases rest@.len() - i,
            {
                let v = slice_chars(&rest[i], 0, rest[i].len());
                assert(v@ =~= rest@[i as int]@);
                assert(tail[i as int] == rest@.map_values(|v: Vec<char>| v@)[i as int]);
                let ghost before = out@.map_values(|v: Vec<char>| v@);
                out.push(v);
                assert(out@.map_values(|v: Vec<char>| v@) =~= before.push(v@));
                assert(before.push(v@) =~= seq![first] + tail.take(i + 1));
                i += 1;
            }
            assert(tail.take(rest@.len() as int) =~= tail);
            out
        },
        None => {
            let mut out: Vec<Vec<char>> = Vec::new();
            out.push(slice_chars(hay, start, hay.len()));
            assert(out@.map_values(|v: Vec<char>| v@) =~= seq![hay@.subrange(start as int, hay@.len() as int)]);
            out
        },
    }
}

// ---------------------------------------------------------------------------
// Lines.
// ---------------------------------------------------------------------------

/// `l` without one trailing carriage return.
pub open spec fn strip_cr(l: Seq<char>) -> Seq<char> {
    if l.len() > 0 && l.last() == '\r' {
        l.drop_last()
    } else {
        l
    }
}

/// Lines of `s` from position `start` on (`str::lines`): pieces ending at
/// `'\n'` (with one `'\r'` before it removed), the final line ending optional.
pub open spec fn lines_from(s: Seq<char>, start: int) -> Seq<Seq<char>>
    decreases s.len() - start,
{
    if start < 0 || start >= s.len() {
        seq![]
    } else {
        match find_from(s, seq!['\n'], start) {
            Some(at) => {
                proof {
                    lemma_find_from(s, seq!['\n'], start);
                }
                seq![strip_cr(s.subrange(start, at))] + lines_from(s, at + 1)
            },
            None => seq![s.subrange(start, s.len() as int)],
        }
    }
}

/// `str::lines`.
pub open spec fn lines(s: Seq<char>) -> Seq<Seq<char>> {
    lines_from(s, 0)
}

/// Executable `lines`.
pub fn lines_chars(s: &[char]) -> (r: Vec<Vec<char>>)
    ensures
        r@.map_values(|v: Vec<char>| v@) == lines(s@),
{
    let mut out: Vec<Vec<char>> = Vec::new();
    let mut start: usize = 0;
    let nl: Vec<char> = vec!['\n'];
    assert(nl@ =~= seq!['\n']);
    while start < s.len()
        invariant
            start <= s@.len(),
            nl@ == seq!['\n'],
            lines(s@) == out@.map_values(|v: Vec<char>| v@) + lines_from(s@, start as int),
        decreases s@.len() - start,
    {
        proof {
            lemma_find_from(s@, seq!['\n'], start as int);
        }
        match find_from_chars(s, &nl, start) {
            Some(at) => {
                let piece = slice_chars(s, start, at);
                let line = if at > start && s[at - 1] == '\r' {
                    slice_chars(s, start, at - 1)
                } else {
                    piece
                };
                assert(line@ == strip_cr(s@.subrange(start as int, at as int)));
                let ghost before = out@.map_values(|v: Vec<char>| v@);
                out.push(line);
                assert(out@.map_values(|v: Vec<char>| v@) =~= before.push(line@));
                assert(lines_from(s@, start as int) == seq![line@] + lines_from(s@, at + 1));
                assert(before + (seq![line@] + lines_from(s@, at + 1)) =~= before.push(line@)
                    + lines_from(s@, at + 1));
                start = at + 1;
            },
            None => {
                let ghost before = out@.map_values(|v: Vec<char>| v@);
                out.push(slice_chars(s, start, s.len()));
                assert(out@.map_values(|v: Vec<char>| v@) =~= before + lines_from(s@, start as int));
                start = s.len();
                assert(lines_from(s@, start as int) =~= seq![]);
            },
        }
    }
    assert(lines_from(s@, start as int) =~= seq![]);
    assert(out@.map_values(|v: Vec<char>| v@) + seq![] =~= out@.map_values(|v: Vec<char>| v@));
    out
}


// ---------------------------------------------------------------------------
// Numerals.
// ---------------------------------------------------------------------------

/// The decimal digit character for `d < 10`.
pub open spec fn digit_char(d: nat) -> char {
    ((48 + d) as u32) as char
}

/// Decimal numeral of `n`, as `u64`'s `Display` writes it.
pub open spec fn decimal(n: nat) -> Seq<char>
    decreases n,
{
    if n < 10 {
        seq![digit_char(n)]
    } else {
        decimal(n / 10).push(digit_char(n % 10))
    }
}

/// Lower-case hexadecimal numeral of `n` without padding.
pub open spec fn hex(n: nat) -> Seq<char>
    decreases n,
{
    if n < 16 {
        seq![hex_digit(n)]
    } else {
        hex(n / 16).push(hex_digit(n % 16))
    }
}

/// The lower-case hexadecimal digit character for `d < 16`.
pub open spec fn hex_digit(d: nat) -> char {
    if d < 10 {
        digit_char(d)
    } else {
        ((87 + d) as u32) as char
    }
}

/// `s` left-padded with `'0'` to at least `width` characters.
pub open spec fn zero_pad(s: Seq<char>, width: nat) -> Seq<char> {
    if s.len() >= width {
        s
    } else {
        Seq::new((width - s.len()) as nat, |i: int| '0') + s
    }
}

/// Decimal numeral of a `u64`.
pub fn decimal_chars(n: u64) -> (r: Vec<char>)
    ensures
        r@ == decimal(n as nat),
    decreases n,
{
    let d = (n % 10) as u32;
    let c = char_of_u32(48 + d);
    if n < 10 {
        let mut out: Vec<char> = Vec::new();
        out.push(c);
        assert(out@ =~= seq![digit_char(n as nat)]);
        out
    } else {
        let mut out = decimal_chars(n / 10);
        out.push(c);
        out
    }
}

/// Decimal numeral of a `u64` as a `String`.
pub fn decimal_string(n: u64) -> (r: String)
    ensures
        r@ == decimal(n as nat),
{
    let v = decimal_chars(n);
    string_of(&v)
}

/// Lower-case hexadecimal numeral of a `u64`.
pub fn hex_chars(n: u64) -> (r: Vec<char>)
    ensures
        r@ == hex(n as nat),
    decreases n,
{
    let d = (n % 16) as u32;
    let c = if d < 10 {
        char_of_u32(48 + d)
    } else {
        char_of_u32(87 + d)
    };
    assert(c == hex_digit((n % 16) as nat));
    if n < 16 {
        let mut out: Vec<char> = Vec::new();
        out.push(c);
        assert(out@ =~= seq![hex_digit(n as nat)]);
        out
    } else {
        let mut out = hex_chars(n / 16);
        out.push(c);
        out
    }
}

/// `s` left-padded with `'0'` to `width` characters.
pub fn zero_pad_chars(s: &[char], width: usize) -> (r: Vec<char>)
    ensures
        r@ == zero_pad(s@, width as nat),
{
    if s.len() >= width {
        return slice_chars(s, 0, s.len());
    }
    let mut out: Vec<char> = Vec::new();
    let k = width - s.len();
    let mut i: usize = 0;
    while i < k
        invariant
            i <= k,
            out@ == Seq::new(i as nat, |j: int| '0'),
        decreases k - i,
    {
        out.push('0');
        assert(out@ =~= Seq::new((i + 1) as nat, |j: int| '0'));
        i += 1;
    }
    extend_chars(&mut out, s);
    out
}

/// `c` is an ASCII decimal digit.
pub open spec fn is_digit(c: char) -> bool {
    '0' <= c && c <= '9'
}

/// Every character of `s` is an ASCII decimal digit.
pub open spec fn all_digits(s: Seq<char>) -> bool {
    forall|i: int| 0 <= i < s.len() ==> is_digit(#[trigger] s[i])
}

/// Value of a string of decimal digits.
pub open spec fn digits_value(s: Seq<char>) -> nat
    decreases s.len(),
{
    if s.len() == 0 {
        0
    } else {
        digits_value(s.drop_last()) * 10 + ((s.last() as u32) - 48) as nat
    }
}

/// Digits after an optional leading `'+'`.
pub open spec fn unsigned_digits(s: Seq<char>) -> Seq<char> {
    if s.len() > 0 && s[0] == '+' {
        s.drop_first()
    } else {
        s
    }
}

/// Result of parsing `s` as an unsigned integer bounded by `max`
/// (`str::parse::<u64>` / `str::parse::<usize>`): an optional `'+'`, then one
/// or more ASCII digits whose value does not exceed `max`.
pub open spec fn parse_unsigned(s: Seq<char>, max: nat) -> Option<nat> {
    let d = unsigned_digits(s);
    if d.len() > 0 && all_digits(d) && digits_value(d) <= max {
        Some(digits_value(d))
    } else {
        None
    }
}

/// Appending a digit never lowers the value of a digit string.
pub proof fn lemma_digits_value_prefix(s: Seq<char>, j: int)
    requires
        0 <= j <= s.len(),
        all_digits(s),
    ensures
        digits_value(s.subrange(0, j)) <= digits_value(s),
    decreases s.len() - j,
{
    if j < s.len() {
        lemma_digits_value_prefix(s, j + 1);
        assert(s.subrange(0, j + 1).drop_last() =~= s.subrange(0, j));
        assert(is_digit(s[j]));
    } else {
        assert(s.subrange(0, j) =~= s);
    }
}

/// Parses a string of decimal digits (with an optional leading `'+'`) into a
/// `u64`, failing on any other character, on an empty digit string, and on
/// values above `u64::MAX`.
pub fn parse_u64(s: &[char]) -> (r: Option<u64>)
    ensures
        match parse_unsigned(s@, u64::MAX as nat) {
            Some(v) => r == Some(v as u64),
            None => r is None,
        },
{
    let start: usize = if s.len() > 0 && s[0] == '+' { 1 } else { 0 };
    let ghost d = unsigned_digits(s@);
    assert(d =~= s@.subrange(start as int, s@.len() as int));
    if start == s.len() {
        return None;
    }
    let mut acc: u64 = 0;
    let mut i: usize = start;
    let mut overflow = false;
    while i < s.len()
        invariant
            start <= i <= s@.len(),
            d == s@.subrange(start as int, s@.len() as int),
            d == unsigned_digits(s@),
            forall|k: int| 0 <= k < i - start ==> is_digit(#[trigger] d[k]),
            !overflow ==> acc as nat == digits_value(d.subrange(0, i - start)),
            overflow ==> digits_value(d.subrange(0, i - start)) > u64::MAX,
        decreases s@.len() - i,
    {
        let c = s[i];
        if !('0' <= c && c <= '9') {
            assert(!is_digit(d[i - start]));
            return None;
        }
        let dv = (c as u32 - 48) as u64;
        assert(d.subrange(0, i + 1 - start).drop_last() =~= d.subrange(0, i - start));
        if !overflow {
            match acc.checked_mul(10) {
                Some(m) => match m.checked_add(dv) {
                    Some(v) => {
                        acc = v;
                    },
                    None => {
                        overflow = true;
                    },
                },
                None => {
                    overflow = true;
                },
            }
        } else {
            assert(digits_value(d.subrange(0, i + 1 - start)) >= digits_value(d.subrange(0, i - start)) * 10);
        }
        i += 1;
    }
    assert(d.subrange(0, d.len() as int) =~= d);
    assert(all_digits(d));
    if overflow {
        None
    } else {
        Some(acc)
    }
}

/// `usize` flavour of `parse_u64`.
pub fn parse_usize(s: &[char]) -> (r: Option<usize>)
    ensures
        match parse_unsigned(s@, usize::MAX as nat) {
            Some(v) => r == Some(v as usize),
            None => r is None,
        },
{
    match parse_u64(s) {
        Some(v) => {
            if v as u128 <= usize::MAX as u128 {
                Some(v as usize)
            } else {
                None
            }
        },
        None => {
            None
        },
    }
}


// ---------------------------------------------------------------------------
// Bytes to text.
// ---------------------------------------------------------------------------

/// The text `String::from_utf8_lossy` makes of a byte string: invalid
/// sequences become U+FFFD.
pub uninterp spec fn utf8_lossy(bytes: Seq<u8>) -> Seq<char>;

/// `String::from_utf8_lossy`. Valid UTF-8 comes back decoded as it is.
#[verifier::external_body]
pub(crate) fn lossy_text(bytes: &[u8]) -> (r: Vec<char>)
    ensures
        r@ == utf8_lossy(bytes@),
        vstd::utf8::valid_utf8(bytes@) ==> r@ == vstd::utf8::decode_utf8(bytes@),
{
    String::from_utf8_lossy(bytes).chars().collect()
}


// ---------------------------------------------------------------------------
// Joining, replacing, words.
// ---------------------------------------------------------------------------

/// The pieces joined with `sep` between consecutive ones (`[T]::join`).
pub open spec fn join(parts: Seq<Seq<char>>, sep: Seq<char>) -> Seq<char>
    decreases parts.len(),
{
    if parts.len() == 0 {
        seq![]
    } else if parts.len() == 1 {
        parts[0]
    } else {
        join(parts.drop_last(), sep) + sep + parts.last()
    }
}

/// Executable `join`.
pub fn join_chars(parts: &Vec<Vec<char>>, sep: &[char]) -> (r: Vec<char>)
    ensures
        r@ == join(parts@.map_values(|v: Vec<char>| v@), sep@),
{
    let ghost pv = parts@.map_values(|v: Vec<char>| v@);
    let mut out: Vec<char> = Vec::new();
    let mut i: usize = 0;
    while i < parts.len()
        invariant
            i <= parts@.len(),
            pv == parts@.map_values(|v: Vec<char>| v@),
            out@ == join(pv.take(i as int), sep@),
        decreases parts@.len() - i,
    {
        assert(pv.take(i + 1).drop_last() =~= pv.take(i as int));
        assert(pv[i as int] == parts@[i as int]@);
        if i > 0 {
            extend_chars(&mut out, sep);
        }
        extend_chars(&mut out, &parts[i]);
        proof {
            if i == 0 {
                assert(out@ =~= pv.take(1)[0]);
            }
        }
        i += 1;
    }
    assert(pv.take(parts@.len() as int) =~= pv);
    out
}

/// `str::replace`: every non-overlapping occurrence of `from` (scanning left to
/// right) replaced by `to`.
pub open spec fn replace(s: Seq<char>, from: Seq<char>, to: Seq<char>) -> Seq<char> {
    join(split(s, from), to)
}

/// Executable `replace` for a non-empty pattern.
pub fn replace_chars(s: &[char], from: &[char], to: &[char]) -> (r: Vec<char>)
    requires
        from@.len() > 0,
    ensures
        r@ == replace(s@, from@, to@),
{
    let pieces = split_keyed_chars(s, s, from, 0);
    join_chars(&pieces, to)
}

/// End of the run of non-whitespace characters starting at `i`.
pub open spec fn word_end(s: Seq<char>, i: int) -> int
    decreases s.len() - i,
{
    if i < 0 || i >= s.len() || is_space(s[i]) {
        i
    } else {
        word_end(s, i + 1)
    }
}

/// Bounds of `word_end`.
pub proof fn lemma_word_end(s: Seq<char>, i: int)
    requires
        0 <= i <= s.len(),
    ensures
        i <= word_end(s, i) <= s.len(),
        forall|k: int| i <= k < word_end(s, i) ==> !is_space(#[trigger] s[k]),
        word_end(s, i) < s.len() ==> is_space(s[word_end(s, i)]),
    decreases s.len() - i,
{
    if i < s.len() && !is_space(s[i]) {
        lemma_word_end(s, i + 1);
    }
}

/// Whitespace-separated words of `s` from position `i` on
/// (`str::split_whitespace`).
pub open spec fn words_from(s: Seq<char>, i: int) -> Seq<Seq<char>>
    decreases s.len() - i,
{
    if i < 0 || i >= s.len() {
        seq![]
    } else if is_space(s[i]) {
        words_from(s, i + 1)
    } else {
        let j = word_end(s, i);
        proof {
            lemma_word_end(s, i);
        }
        if j > i {
            seq![s.subrange(i, j)] + words_from(s, j)
        } else {
            seq![]
        }
    }
}

/// `str::split_whitespace`.
pub open spec fn words(s: Seq<char>) -> Seq<Seq<char>> {
    words_from(s, 0)
}

/// Executable `words`.
pub fn words_chars(s: &[char]) -> (r: Vec<Vec<char>>)
    ensures
        r@.map_values(|v: Vec<char>| v@) == words(s@),
{
    let mut out: Vec<Vec<char>> = Vec::new();
    let n = s.len();
    let mut i: usize = 0;
    while i < n
        invariant
            i <= n == s@.len(),
            words(s@) == out@.map_values(|v: Vec<char>| v@) + words_from(s@, i as int),
        decreases n - i,
    {
        if space_char(s[i]) {
            i += 1;
        } else {
            let mut j = i;
            proof {
                lemma_word_end(s@, i as int);
            }
            while j < n && !space_char(s[j])
                invariant
                    i <= j <= n == s@.len(),
                    word_end(s@, i as int) == word_end(s@, j as int),
                decreases n - j,
            {
                j += 1;
            }
            let ghost before = out@.map_values(|v: Vec<char>| v@);
            let w = slice_chars(s, i, j);
            out.push(w);
            assert(out@.map_values(|v: Vec<char>| v@) =~= before.push(w@));
            assert(before + (seq![w@] + words_from(s@, j as int)) =~= before.push(w@) + words_from(s@, j as int));
            i = j;
        }
    }
    assert(out@.map_values(|v: Vec<char>| v@) + words_from(s@, i as int) =~= out@.map_values(|v: Vec<char>| v@));
    out
}

/// The text `format!("{:?}", s)` makes of a string slice: the characters
/// between double quotes, escaped as `str::escape_debug` does.
pub uninterp spec fn debug_text(s: Seq<char>) -> Seq<char>;

/// `format!("{:?}", s)` for a string slice.
#[verifier::external_body]
pub(crate) fn debug_quote(s: &str) -> (r: String)
    ensures
        r@ == debug_text(s@),
{
    format!("{:?}", s)
}

} // verus!
