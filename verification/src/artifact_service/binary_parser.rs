//! Two parsers for a small artifact envelope:
//! `DVRA|...|len=<decimal>|data=<bytes>`.
//!
//! The fast path validates offsets on the raw input and then reads them from
//! the normalized input. The reference path normalizes first and then
//! validates, and is the differential oracle.

use vstd::prelude::*;
use crate::text::{parse_unsigned, parse_usize};

verus! {

/// `DVRA|`
pub open spec fn header_bytes() -> Seq<u8> {
    seq![68u8, 86u8, 82u8, 65u8, 124u8]
}

/// `|len=`
pub open spec fn length_marker() -> Seq<u8> {
    seq![124u8, 108u8, 101u8, 110u8, 61u8]
}

/// `|data=`
pub open spec fn data_marker() -> Seq<u8> {
    seq![124u8, 100u8, 97u8, 116u8, 97u8, 61u8]
}

fn header_vec() -> (r: Vec<u8>)
    ensures
        r@ == header_bytes(),
{
    let r = vec![68u8, 86u8, 82u8, 65u8, 124u8];
    assert(r@ =~= header_bytes());
    r
}

fn length_marker_vec() -> (r: Vec<u8>)
    ensures
        r@ == length_marker(),
{
    let r = vec![124u8, 108u8, 101u8, 110u8, 61u8];
    assert(r@ =~= length_marker());
    r
}

fn data_marker_vec() -> (r: Vec<u8>)
    ensures
        r@ == data_marker(),
{
    let r = vec![124u8, 100u8, 97u8, 116u8, 97u8, 61u8];
    assert(r@ =~= data_marker());
    r
}

/// Offsets of the data field, as validated.
#[derive(Clone, Copy, Debug, Eq, PartialEq, Structural)]
pub struct ValidatedEnvelope {
    data_start: usize,
    data_len: usize,
}

impl ValidatedEnvelope {
    pub closed spec fn start(&self) -> nat {
        self.data_start as nat
    }

    pub closed spec fn len(&self) -> nat {
        self.data_len as nat
    }

    /// Whether the data field lies within `buf`.
    pub fn fits(&self, buf: &[u8]) -> (r: bool)
        ensures
            r == (self.start() + self.len() <= buf@.len()),
    {
        let n = buf.len();
        self.data_start <= n && self.data_len <= n - self.data_start
    }
}

#[derive(Clone, Debug, Eq, PartialEq, Structural)]
pub enum ParseError {
    BadHeader,
    MissingLength,
    MissingData,
    InvalidLength,
    Truncated,
}

impl ParseError {
    /// The error's description.
    pub fn message(&self) -> (r: &'static str)
        ensures
            *self == ParseError::BadHeader ==> r@ == "invalid DVRA envelope header"@,
            *self == ParseError::MissingLength ==> r@ == "missing length field"@,
            *self == ParseError::MissingData ==> r@ == "missing data field"@,
            *self == ParseError::InvalidLength ==> r@ == "invalid decimal length"@,
            *self == ParseError::Truncated ==> r@ == "truncated data field"@,
    {
        match self {
            ParseError::BadHeader => "invalid DVRA envelope header",
            ParseError::MissingLength => "missing length field",
            ParseError::MissingData => "missing data field",
            ParseError::InvalidLength => "invalid decimal length",
            ParseError::Truncated => "truncated data field",
        }
    }
}

/// `needle` occurs in `hay` at `i`.
pub open spec fn bytes_at(hay: Seq<u8>, needle: Seq<u8>, i: int) -> bool {
    0 <= i && i + needle.len() <= hay.len() && hay.subrange(i, i + needle.len()) == needle
}

/// First position of `needle` in `hay`.
#[verifier::opaque]
pub open spec fn first_match(hay: Seq<u8>, needle: Seq<u8>) -> Option<nat> {
    if exists|i: int| bytes_at(hay, needle, i) {
        let i = choose|i: int| bytes_at(hay, needle, i) && forall|j: int| 0 <= j < i ==> !bytes_at(hay, needle, j);
        Some(i as nat)
    } else {
        None
    }
}

/// The first match is unique.
proof fn lemma_first_match(hay: Seq<u8>, needle: Seq<u8>, i: int)
    requires
        bytes_at(hay, needle, i),
        forall|j: int| 0 <= j < i ==> !bytes_at(hay, needle, j),
    ensures
        first_match(hay, needle) == Some(i as nat),
{
    reveal(first_match);
    assert(exists|k: int| bytes_at(hay, needle, k));
    let k = choose|k: int| bytes_at(hay, needle, k) && forall|j: int| 0 <= j < k ==> !bytes_at(hay, needle, j);
    assert(exists|k: int| bytes_at(hay, needle, k) && forall|j: int| 0 <= j < k ==> !bytes_at(hay, needle, j)) by {
        assert(bytes_at(hay, needle, i) && forall|j: int| 0 <= j < i ==> !bytes_at(hay, needle, j));
    }
    if k < i {
        assert(!bytes_at(hay, needle, k));
    } else if k > i {
        assert(!bytes_at(hay, needle, i));
    }
}

/// Position of the first window of `haystack` equal to `needle`.
fn find_subslice(haystack: &[u8], needle: &[u8]) -> (r: Option<usize>)
    requires
        needle@.len() > 0,
    ensures
        r is None ==> first_match(haystack@, needle@) is None,
        r is Some ==> first_match(haystack@, needle@) == Some(r->0 as nat),
        r is Some ==> bytes_at(haystack@, needle@, r->0 as int),
{
    reveal(first_match);
    let n = haystack.len();
    let m = needle.len();
    if m > n {
        assert(!exists|i: int| bytes_at(haystack@, needle@, i));
        return None;
    }
    let mut i: usize = 0;
    while i <= n - m
        invariant
            m <= n == haystack@.len(),
            m == needle@.len(),
            i <= n - m + 1,
            forall|j: int| 0 <= j < i ==> !bytes_at(haystack@, needle@, j),
        decreases n - m + 1 - i,
    {
        let mut k: usize = 0;
        let mut same = true;
        while k < m
            invariant
                m <= n == haystack@.len(),
                m == needle@.len(),
                i <= n - m,
                k <= m,
                same == forall|q: int| 0 <= q < k ==> haystack@[i + q] == needle@[q],
            decreases m - k,
        {
            if haystack[i + k] != needle[k] {
                same = false;
            }
            k += 1;
        }
        if same {
            assert(haystack@.subrange(i as int, i + m) =~= needle@);
            proof {
                lemma_first_match(haystack@, needle@, i as int);
            }
            return Some(i);
        }
        assert(!bytes_at(haystack@, needle@, i as int)) by {
            if bytes_at(haystack@, needle@, i as int) {
                let q = choose|q: int| 0 <= q < m && haystack@[i + q] != needle@[q];
                assert(haystack@.subrange(i as int, i + m)[q] == haystack@[i + q]);
            }
        }
        i += 1;
    }
    assert(!exists|j: int| bytes_at(haystack@, needle@, j));
    None
}

/// The bytes read as characters one for one.
pub open spec fn byte_chars(b: Seq<u8>) -> Seq<char> {
    b.map_values(|x: u8| (x as u32) as char)
}

/// Meaning of `validate`: the data offsets, or the first problem found.
pub open spec fn validate_spec(input: Seq<u8>) -> Result<(nat, nat), ParseError> {
    if !(header_bytes().len() <= input.len() && input.subrange(0, 5) == header_bytes()) {
        Err(ParseError::BadHeader)
    } else {
        match first_match(input, length_marker()) {
            None => Err(ParseError::MissingLength),
            Some(lm) => match first_match(input, data_marker()) {
                None => Err(ParseError::MissingData),
                Some(dm) => {
                    let ls = lm + 5;
                    if dm <= ls {
                        Err(ParseError::InvalidLength)
                    } else {
                        match parse_unsigned(
                            byte_chars(input.subrange(ls as int, dm as int)),
                            usize::MAX as nat,
                        ) {
                            None => Err(ParseError::InvalidLength),
                            Some(len) => {
                                let ds = dm + 6;
                                if ds + len > usize::MAX || ds + len > input.len() {
                                    Err(ParseError::Truncated)
                                } else {
                                    Ok((ds, len))
                                }
                            },
                        }
                    }
                },
            },
        }
    }
}

fn byte_chars_of(b: &[u8], lo: usize, hi: usize) -> (r: Vec<char>)
    requires
        lo <= hi <= b@.len(),
    ensures
        r@ == byte_chars(b@.subrange(lo as int, hi as int)),
{
    let mut out: Vec<char> = Vec::new();
    let mut i = lo;
    while i < hi
        invariant
            lo <= i <= hi <= b@.len(),
            out@ == byte_chars(b@.subrange(lo as int, i as int)),
        decreases hi - i,
    {
        out.push(b[i] as char);
        assert(byte_chars(b@.subrange(lo as int, i + 1)) =~= byte_chars(b@.subrange(lo as int, i as int)).push(
            (b@[i as int] as u32) as char,
        ));
        i += 1;
    }
    out
}

/// Whether the input starts with the envelope header.
fn has_header(input: &[u8]) -> (r: bool)
    ensures
        r == (header_bytes().len() <= input@.len() && input@.subrange(0, 5) == header_bytes()),
{
    let header = header_vec();
    let n = input.len();
    if n < 5 {
        return false;
    }
    let mut ok = true;
    let mut k: usize = 0;
    while k < 5
        invariant
            n == input@.len() >= 5,
            header@ == header_bytes(),
            k <= 5,
            ok == forall|q: int| 0 <= q < k ==> input@[q] == header@[q],
        decreases 5 - k,
    {
        if input[k] != header[k] {
            ok = false;
        }
        k += 1;
    }
    if ok {
        assert(input@.subrange(0, 5) =~= header_bytes());
    } else {
        assert(input@.subrange(0, 5) != header_bytes()) by {
            let q = choose|q: int| 0 <= q < 5 && input@[q] != header@[q];
            assert(input@.subrange(0, 5)[q] == input@[q]);
        }
    }
    ok
}

/// Checks the envelope and returns the data offsets.
pub fn validate(input: &[u8]) -> (r: Result<ValidatedEnvelope, ParseError>)
    ensures
        match validate_spec(input@) {
            Ok((s, l)) => r is Ok && r->Ok_0.start() == s && r->Ok_0.len() == l,
            Err(e) => r == Err::<ValidatedEnvelope, ParseError>(e),
        },
{
    let n = input.len();
    let ok = has_header(input);
    if !ok {
        return Err(ParseError::BadHeader);
    }
    let lm = match find_subslice(input, &length_marker_vec()) {
        Some(p) => p,
        None => return Err(ParseError::MissingLength),
    };
    let dm = match find_subslice(input, &data_marker_vec()) {
        Some(p) => p,
        None => return Err(ParseError::MissingData),
    };
    let length_start = lm + 5;
    if dm <= length_start {
        return Err(ParseError::InvalidLength);
    }
    let digits = byte_chars_of(input, length_start, dm);
    let data_len = match parse_usize(&digits) {
        Some(v) => v,
        None => return Err(ParseError::InvalidLength),
    };
    assert(dm + 6 <= n);
    let data_start = dm + 6;
    let data_end = match data_start.checked_add(data_len) {
        Some(e) => e,
        None => return Err(ParseError::Truncated),
    };
    if data_end > input.len() {
        return Err(ParseError::Truncated);
    }
    Ok(ValidatedEnvelope { data_start, data_len })
}

/// Escape removal from position `i`: a backslash followed by any byte stands
/// for that byte.
pub open spec fn normalize_from(b: Seq<u8>, i: int) -> Seq<u8>
    decreases b.len() - i,
{
    if i < 0 || i >= b.len() {
        seq![]
    } else if b[i] == 92u8 && i + 1 < b.len() {
        seq![b[i + 1]] + normalize_from(b, i + 2)
    } else {
        seq![b[i]] + normalize_from(b, i + 1)
    }
}

/// Removes escape bytes before delimiters and backslashes.
pub open spec fn normalize_spec(b: Seq<u8>) -> Seq<u8> {
    normalize_from(b, 0)
}

/// Removes escape bytes before delimiters and backslashes.
pub fn normalize(input: &[u8]) -> (r: Vec<u8>)
    ensures
        r@ == normalize_spec(input@),
{
    let n = input.len();
    let mut normalized: Vec<u8> = Vec::new();
    let mut cursor: usize = 0;
    while cursor < n
        invariant
            n == input@.len(),
            cursor <= n,
            normalize_spec(input@) == normalized@ + normalize_from(input@, cursor as int),
        decreases n - cursor,
    {
        let ghost before = normalized@;
        if input[cursor] == 92u8 && n - cursor > 1 {
            normalized.push(input[cursor + 1]);
            assert(before + normalize_from(input@, cursor as int) =~= normalized@ + normalize_from(
                input@,
                cursor + 2,
            ));
            cursor += 2;
        } else {
            normalized.push(input[cursor]);
            assert(before + normalize_from(input@, cursor as int) =~= normalized@ + normalize_from(
                input@,
                cursor + 1,
            ));
            cursor += 1;
        }
    }
    assert(normalized@ + normalize_from(input@, cursor as int) =~= normalized@);
    normalized
}

/// Reads the data field at the validated offsets. The offsets must lie in
/// the buffer read (they were computed for the buffer validated).
pub fn parse_fast(validated: &ValidatedEnvelope, normalized: &[u8]) -> (r: Vec<u8>)
    requires
        validated.start() + validated.len() <= normalized@.len(),
    ensures
        r@ == normalized@.subrange(
            validated.start() as int,
            (validated.start() + validated.len()) as int,
        ),
{
    let nl = normalized.len();
    let data_end = validated.data_start + validated.data_len;
    let mut out: Vec<u8> = Vec::new();
    let mut i = validated.data_start;
    while i < data_end
        invariant
            validated.data_start <= i <= data_end <= normalized@.len(),
            data_end == validated.data_start + validated.data_len,
            out@ == normalized@.subrange(validated.data_start as int, i as int),
        decreases data_end - i,
    {
        out.push(normalized[i]);
        assert(out@ =~= normalized@.subrange(validated.data_start as int, i + 1));
        i += 1;
    }
    out
}

/// The reference parse: normalize, validate the normalized bytes, read the
/// data field from them.
pub open spec fn reference_spec(input: Seq<u8>) -> Result<Seq<u8>, ParseError> {
    let n = normalize_spec(input);
    match validate_spec(n) {
        Err(e) => Err(e),
        Ok((s, l)) => Ok(n.subrange(s as int, (s + l) as int)),
    }
}

/// Normalizes first, then validates and reads the data field.
pub fn parse_reference(input: &[u8]) -> (r: Result<Vec<u8>, ParseError>)
    ensures
        match reference_spec(input@) {
            Ok(d) => r is Ok && r->Ok_0@ == d,
            Err(e) => r == Err::<Vec<u8>, ParseError>(e),
        },
{
    let normalized = normalize(input);
    let validated = validate(normalized.as_slice())?;
    Ok(parse_fast(&validated, normalized.as_slice()))
}

/// A legacy record: a tag byte and a payload.
#[derive(Clone, Debug, Eq, PartialEq)]
pub struct LegacyRecord {
    pub tag: u8,
    pub payload: Vec<u8>,
}

/// Decodes `tag, len, payload[len]`. The input must hold the declared payload.
pub fn legacy_decode(input: &[u8]) -> (r: LegacyRecord)
    requires
        input@.len() >= 2,
        input@.len() >= 2 + input@[1],
    ensures
        r.tag == input@[0],
        r.payload@ == input@.subrange(2, 2 + input@[1]),
{
    let tag = input[0];
    let payload_len = input[1] as usize;
    let mut payload: Vec<u8> = Vec::new();
    let mut i: usize = 0;
    while i < payload_len
        invariant
            i <= payload_len == input@[1],
            2 + payload_len <= input@.len(),
            payload@ == input@.subrange(2, 2 + i),
        decreases payload_len - i,
    {
        payload.push(input[2 + i]);
        assert(payload@ =~= input@.subrange(2, 2 + i + 1));
        i += 1;
    }
    LegacyRecord { tag, payload }
}

/// Escape removal never lengthens the input.
pub proof fn lemma_normalize_from_shorter(b: Seq<u8>, i: int)
    requires
        0 <= i <= b.len(),
    ensures
        normalize_from(b, i).len() <= b.len() - i,
    decreases b.len() - i,
{
    if i < b.len() {
        if b[i] == 92u8 && i + 1 < b.len() {
            lemma_normalize_from_shorter(b, i + 2);
        } else {
            lemma_normalize_from_shorter(b, i + 1);
        }
    }
}

/// The normalized input is never longer than the input.
pub proof fn lemma_normalize_shorter(b: Seq<u8>)
    ensures
        normalize_spec(b).len() <= b.len(),
{
    lemma_normalize_from_shorter(b, 0);
}

/// Without a backslash, escape removal from `i` keeps the rest as it is.
proof fn lemma_normalize_from_plain(b: Seq<u8>, i: int)
    requires
        0 <= i <= b.len(),
        !b.contains(92u8),
    ensures
        normalize_from(b, i) == b.subrange(i, b.len() as int),
    decreases b.len() - i,
{
    if i < b.len() {
        assert(b[i] != 92u8) by {
            if b[i] == 92u8 {
                assert(b.contains(92u8));
            }
        }
        lemma_normalize_from_plain(b, i + 1);
        assert(seq![b[i]] + b.subrange(i + 1, b.len() as int) =~= b.subrange(i, b.len() as int));
    } else {
        assert(b.subrange(i, b.len() as int) =~= seq![]);
    }
}

/// Without a backslash, normalizing changes nothing.
pub proof fn lemma_normalize_plain(b: Seq<u8>)
    requires
        !b.contains(92u8),
    ensures
        normalize_spec(b) == b,
{
    lemma_normalize_from_plain(b, 0);
    assert(b.subrange(0, b.len() as int) =~= b);
}

/// Validated offsets lie within the input validated.
pub proof fn lemma_validate_in_bounds(input: Seq<u8>)
    ensures
        validate_spec(input) matches Ok((s, l)) ==> s + l <= input.len(),
{
}

/// On an input without escapes that validates, the fast parser (offsets from
/// the raw input, read from the normalized input) reads within bounds and
/// gives what the reference parser gives.
pub proof fn lemma_fast_agrees_without_escapes(input: Seq<u8>)
    requires
        !input.contains(92u8),
        validate_spec(input) is Ok,
    ensures
        validate_spec(input) matches Ok((s, l)) && s + l <= normalize_spec(input).len()
            && reference_spec(input) == Ok::<Seq<u8>, ParseError>(
            normalize_spec(input).subrange(s as int, (s + l) as int),
        ),
{
    lemma_normalize_plain(input);
}

} // verus!
