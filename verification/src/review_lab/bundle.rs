//! The compact training bundle format and the extraction plan of a bundle.
//!
//! Layout: `DVB1`, a one-byte entry count, then for every entry a one-byte
//! path length, the UTF-8 path bytes, a big-endian `u16` content length, and
//! the content.

use vstd::prelude::*;
use vstd::utf8::{decode_utf8, encode_utf8, valid_utf8};
use crate::dvr::features::file_download::{components, join_path, lemma_join_components, path_components, path_join};
use crate::text::{chars_eq, chars_of, concat2, owned, push_str, starts_with, string_of};

verus! {

#[verifier::external_type_specification]
#[verifier::external_body]
pub struct ExUtf8Error(std::str::Utf8Error);

/// `std::str::from_utf8`, the text taken as an owned `String`: it succeeds
/// exactly on valid UTF-8, which it decodes.
#[verifier::external_body]
fn utf8_text(bytes: &[u8]) -> (r: Result<String, std::str::Utf8Error>)
    ensures
        r is Ok <==> valid_utf8(bytes@),
        r matches Ok(s) ==> s@ == decode_utf8(bytes@),
{
    match std::str::from_utf8(bytes) {
        Ok(s) => Ok(s.to_owned()),
        Err(e) => Err(e),
    }
}

/// The `Display` text of a `std::str::Utf8Error`. Nothing is stated of it:
/// the error is opaque here.
#[verifier::external_body]
fn utf8_error_text(e: &std::str::Utf8Error) -> String {
    format!("{e}")
}

/// One file of a bundle.
#[derive(Debug, Clone, PartialEq, Eq)]
pub struct BundleEntry {
    pub path: String,
    pub contents: Vec<u8>,
}

/// Why a bundle was refused or could not be written.
#[derive(Debug)]
pub enum BundleError {
    BadMagic,
    Truncated,
    LengthOverflow,
    InvalidUtf8(std::str::Utf8Error),
    TrailingBytes,
    /// The path, as given.
    UnsafePath(String),
    /// The path written and the I/O error's text.
    Write { path: String, source: String },
}

/// The ways the bundle format can be broken.
#[derive(Debug, Clone, Copy, PartialEq, Eq, Structural)]
pub enum BundleFault {
    BadMagic,
    Truncated,
    LengthOverflow,
    InvalidUtf8,
    TrailingBytes,
}

impl BundleError {
    /// The error is the format fault `f`.
    pub open spec fn is_fault(&self, f: BundleFault) -> bool {
        match self {
            BundleError::BadMagic => f == BundleFault::BadMagic,
            BundleError::Truncated => f == BundleFault::Truncated,
            BundleError::LengthOverflow => f == BundleFault::LengthOverflow,
            BundleError::InvalidUtf8(_) => f == BundleFault::InvalidUtf8,
            BundleError::TrailingBytes => f == BundleFault::TrailingBytes,
            _ => false,
        }
    }

    /// The error's description.
    pub fn message(&self) -> (r: String)
        ensures
            *self is BadMagic ==> r@ == "bad bundle magic"@,
            *self is Truncated ==> r@ == "truncated bundle"@,
            *self is LengthOverflow ==> r@ == "bundle length arithmetic overflow"@,
            *self is TrailingBytes ==> r@ == "bundle contains trailing bytes"@,
            *self is InvalidUtf8 ==> "bundle path is not valid UTF-8: "@.is_prefix_of(r@),
            (*self matches BundleError::UnsafePath(p) && r@ == "unsafe bundle path: "@ + p@)
                || !(*self is UnsafePath),
            (*self matches BundleError::Write { path, source } && r@ == "failed to write "@ + path@ + ": "@ + source@)
                || !(*self is Write),
    {
        match self {
            BundleError::BadMagic => owned("bad bundle magic"),
            BundleError::Truncated => owned("truncated bundle"),
            BundleError::LengthOverflow => owned("bundle length arithmetic overflow"),
            BundleError::InvalidUtf8(e) => {
                let t = utf8_error_text(e);
                concat2("bundle path is not valid UTF-8: ", t.as_str())
            },
            BundleError::TrailingBytes => owned("bundle contains trailing bytes"),
            BundleError::UnsafePath(p) => concat2("unsafe bundle path: ", p.as_str()),
            BundleError::Write { path, source } => {
                let mut m = concat2("failed to write ", path.as_str());
                push_str(&mut m, ": ");
                push_str(&mut m, source.as_str());
                m
            },
        }
    }
}

/// `DVB1`.
pub open spec fn magic() -> Seq<u8> {
    seq![68u8, 86u8, 66u8, 49u8]
}

/// An entry by value: its path's text and its contents.
pub type EntryView = (Seq<char>, Seq<u8>);

/// The entry that starts at `c`, and where the next one starts.
pub open spec fn entry_at(input: Seq<u8>, c: int) -> Result<(EntryView, int), BundleFault> {
    if c < 0 || c >= input.len() {
        Err(BundleFault::Truncated)
    } else {
        let ps = c + 1;
        let pe = ps + input[c];
        if pe > usize::MAX {
            Err(BundleFault::LengthOverflow)
        } else if pe > input.len() {
            Err(BundleFault::Truncated)
        } else if !valid_utf8(input.subrange(ps, pe)) {
            Err(BundleFault::InvalidUtf8)
        } else if pe + 2 > usize::MAX {
            Err(BundleFault::LengthOverflow)
        } else if pe + 2 > input.len() {
            Err(BundleFault::Truncated)
        } else {
            let cs = pe + 2;
            let ce = cs + input[pe] * 256 + input[pe + 1];
            if ce > usize::MAX {
                Err(BundleFault::LengthOverflow)
            } else if ce > input.len() {
                Err(BundleFault::Truncated)
            } else {
                Ok(((decode_utf8(input.subrange(ps, pe)), input.subrange(cs, ce)), ce))
            }
        }
    }
}

/// The first `n` entries, read from offset 5 on, and where they end.
pub open spec fn entries(input: Seq<u8>, n: nat) -> Result<(Seq<EntryView>, int), BundleFault>
    decreases n,
{
    if n == 0 {
        Ok((Seq::empty(), 5))
    } else {
        match entries(input, (n - 1) as nat) {
            Err(f) => Err(f),
            Ok((es, c)) => match entry_at(input, c) {
                Err(f) => Err(f),
                Ok((e, next)) => Ok((es.push(e), next)),
            },
        }
    }
}

/// What a bundle holds, or the first fault found.
pub open spec fn bundle_spec(input: Seq<u8>) -> Result<Seq<EntryView>, BundleFault> {
    if input.len() < 5 || input.subrange(0, 4) != magic() {
        Err(BundleFault::BadMagic)
    } else {
        match entries(input, input[4] as nat) {
            Err(f) => Err(f),
            Ok((es, c)) => if c != input.len() {
                Err(BundleFault::TrailingBytes)
            } else {
                Ok(es)
            },
        }
    }
}

/// The entries by value.
pub open spec fn entry_views(v: Seq<BundleEntry>) -> Seq<EntryView> {
    v.map_values(|e: BundleEntry| (e.path@, e.contents@))
}

/// Once the entries are broken, reading more of them stays broken.
proof fn lemma_entries_fault_stays(input: Seq<u8>, k: nat, n: nat)
    requires
        k <= n,
        entries(input, k) is Err,
    ensures
        entries(input, n) == entries(input, k),
    decreases n - k,
{
    if k < n {
        lemma_entries_fault_stays(input, k, (n - 1) as nat);
    }
}

/// The entries end within the input, after offset 5.
proof fn lemma_entries_end(input: Seq<u8>, n: nat)
    ensures
        entries(input, n) matches Ok((es, c)) ==> 5 <= c <= usize::MAX && es.len() == n
            && (n > 0 ==> c <= input.len()),
    decreases n,
{
    if n > 0 {
        lemma_entries_end(input, (n - 1) as nat);
    }
}

/// A copy of `b[lo..hi]`.
fn copy_range(b: &[u8], lo: usize, hi: usize) -> (r: Vec<u8>)
    requires
        lo <= hi <= b@.len(),
    ensures
        r@ == b@.subrange(lo as int, hi as int),
{
    let mut out: Vec<u8> = Vec::new();
    let mut i = lo;
    while i < hi
        invariant
            lo <= i <= hi <= b@.len(),
            out@ == b@.subrange(lo as int, i as int),
        decreases hi - i,
    {
        out.push(b[i]);
        assert(out@ =~= b@.subrange(lo as int, i + 1));
        i += 1;
    }
    out
}

/// Reads the entry at `cursor`.
fn read_entry(input: &[u8], cursor: usize) -> (r: Result<(BundleEntry, usize), BundleError>)
    ensures
        match (r, entry_at(input@, cursor as int)) {
            (Ok((e, next)), Ok((v, c))) => (e.path@, e.contents@) == v && next == c,
            (Err(e), Err(f)) => e.is_fault(f),
            _ => false,
        },
{
    let n = input.len();
    if cursor >= n {
        return Err(BundleError::Truncated);
    }
    let path_len = input[cursor] as usize;
    let path_start = cursor + 1;
    let path_end = match path_start.checked_add(path_len) {
        Some(e) => e,
        None => return Err(BundleError::LengthOverflow),
    };
    if path_end > n {
        return Err(BundleError::Truncated);
    }
    let path_bytes = copy_range(input, path_start, path_end);
    let path = match utf8_text(path_bytes.as_slice()) {
        Ok(s) => s,
        Err(e) => return Err(BundleError::InvalidUtf8(e)),
    };
    let length_end = match path_end.checked_add(2) {
        Some(e) => e,
        None => return Err(BundleError::LengthOverflow),
    };
    if length_end > n {
        return Err(BundleError::Truncated);
    }
    let content_len = (input[path_end] as usize) * 256 + (input[path_end + 1] as usize);
    let content_end = match length_end.checked_add(content_len) {
        Some(e) => e,
        None => return Err(BundleError::LengthOverflow),
    };
    if content_end > n {
        return Err(BundleError::Truncated);
    }
    let contents = copy_range(input, length_end, content_end);
    Ok((BundleEntry { path, contents }, content_end))
}

/// Parses a bundle.
pub fn parse(input: &[u8]) -> (r: Result<Vec<BundleEntry>, BundleError>)
    ensures
        match (r, bundle_spec(input@)) {
            (Ok(v), Ok(es)) => entry_views(v@) == es,
            (Err(e), Err(f)) => e.is_fault(f),
            _ => false,
        },
{
    let n = input.len();
    if n < 5 || input[0] != 68u8 || input[1] != 86u8 || input[2] != 66u8 || input[3] != 49u8 {
        proof {
            if n >= 5 {
                assert(input@.subrange(0, 4) != magic()) by {
                    let s = input@.subrange(0, 4);
                    assert(s[0] == input@[0] && s[1] == input@[1] && s[2] == input@[2] && s[3] == input@[3]);
                }
            }
        }
        return Err(BundleError::BadMagic);
    }
    assert(input@.subrange(0, 4) =~= magic());
    let count = input[4] as usize;
    let mut cursor: usize = 5;
    let mut out: Vec<BundleEntry> = Vec::new();
    let mut k: usize = 0;
    assert(entry_views(out@) =~= Seq::<EntryView>::empty());
    while k < count
        invariant
            n == input@.len(),
            n >= 5,
            input@.subrange(0, 4) == magic(),
            count == input@[4],
            k <= count,
            entries(input@, k as nat) == Ok::<(Seq<EntryView>, int), BundleFault>((entry_views(out@), cursor as int)),
        decreases count - k,
    {
        match read_entry(input, cursor) {
            Ok((e, next)) => {
                let ghost before = out@;
                out.push(e);
                assert(entry_views(out@) =~= entry_views(before).push((e.path@, e.contents@)));
                cursor = next;
            },
            Err(e) => {
                proof {
                    lemma_entries_fault_stays(input@, (k + 1) as nat, count as nat);
                }
                return Err(e);
            },
        }
        k += 1;
    }
    if cursor != n {
        return Err(BundleError::TrailingBytes);
    }
    Ok(out)
}

/// Where each entry goes: its path joined onto the destination.
pub open spec fn extraction_plan(es: Seq<EntryView>, destination: Seq<char>) -> Seq<EntryView> {
    es.map_values(|e: EntryView| (path_join(destination, e.0), e.1))
}

/// Parses a bundle and resolves each entry's path against `destination`
/// (`Path::join`: an absolute entry path replaces the destination, and a
/// `..` component is kept), in order; the caller writes each entry.
pub fn extract_bundle(input: &[u8], destination: &str) -> (r: Result<Vec<BundleEntry>, BundleError>)
    ensures
        match (r, bundle_spec(input@)) {
            (Ok(v), Ok(es)) => entry_views(v@) == extraction_plan(es, destination@),
            (Err(e), Err(f)) => e.is_fault(f),
            _ => false,
        },
{
    let entries = parse(input)?;
    let ghost es = entry_views(entries@);
    let dest = chars_of(destination);
    let mut out: Vec<BundleEntry> = Vec::new();
    let mut i: usize = 0;
    while i < entries.len()
        invariant
            es == entry_views(entries@),
            dest@ == destination@,
            i <= entries@.len(),
            entry_views(out@) == extraction_plan(es.take(i as int), destination@),
        decreases entries@.len() - i,
    {
        let ghost before = out@;
        let joined = join_path(&dest, &chars_of(entries[i].path.as_str()));
        let contents = copy_range(entries[i].contents.as_slice(), 0, entries[i].contents.len());
        assert(contents@ =~= entries@[i as int].contents@);
        out.push(BundleEntry { path: string_of(&joined), contents });
        assert(es.take(i + 1) =~= es.take(i as int).push(es[i as int]));
        assert(entry_views(out@) =~= entry_views(before).push((path_join(destination@, es[i as int].0), es[i as int].1)));
        assert(extraction_plan(es.take(i + 1), destination@) =~= extraction_plan(es.take(i as int), destination@).push(
            (path_join(destination@, es[i as int].0), es[i as int].1),
        ));
        i += 1;
    }
    assert(es.take(entries@.len() as int) =~= es);
    Ok(out)
}

/// A path that stays below the directory it is joined to: not empty, not
/// absolute, and with no `.` or `..` component.
pub open spec fn relative_path_is_safe(p: Seq<char>) -> bool {
    p.len() > 0 && !starts_with(p, "/"@) && !components(p).contains("."@) && !components(p).contains(".."@)
}

/// Refuses a path unless it is made of plain names only.
pub fn validate_relative_path(path: &str) -> (r: Result<(), BundleError>)
    ensures
        relative_path_is_safe(path@) ==> r is Ok,
        !relative_path_is_safe(path@) ==> (r matches Err(BundleError::UnsafePath(p)) && p@ == path@),
{
    proof {
        reveal_strlit("/");
        reveal_strlit(".");
        reveal_strlit("..");
    }
    let p = chars_of(path);
    if p.len() == 0 || p[0] == '/' {
        proof {
            crate::text::lemma_starts_with_one(p@, '/');
            assert("/"@ =~= seq!['/']);
        }
        return Err(BundleError::UnsafePath(owned(path)));
    }
    proof {
        crate::text::lemma_starts_with_one(p@, '/');
        assert("/"@ =~= seq!['/']);
    }
    let comps = path_components(&p);
    let ghost cv = comps@.map_values(|v: Vec<char>| v@);
    let dot = chars_of(".");
    let dotdot = chars_of("..");
    let mut i: usize = 0;
    while i < comps.len()
        invariant
            cv == comps@.map_values(|v: Vec<char>| v@),
            cv == components(p@),
            p@ == path@,
            dot@ == "."@,
            dotdot@ == ".."@,
            i <= comps@.len(),
            forall|k: int| 0 <= k < i ==> cv[k] != "."@ && cv[k] != ".."@,
        decreases comps@.len() - i,
    {
        assert(cv[i as int] == comps@[i as int]@);
        if chars_eq(&comps[i], &dot) || chars_eq(&comps[i], &dotdot) {
            assert(cv[i as int] == "."@ || cv[i as int] == ".."@);
            assert(cv.contains(cv[i as int]));
            assert(components(path@).contains("."@) || components(path@).contains(".."@));
            return Err(BundleError::UnsafePath(owned(path)));
        }
        i += 1;
    }
    assert(!cv.contains("."@) && !cv.contains(".."@));
    Ok(())
}

/// A bundle that parses holds exactly as many entries as its header counts.
pub proof fn lemma_bundle_entry_count(input: Seq<u8>)
    ensures
        bundle_spec(input) matches Ok(es) ==> es.len() == input[4],
{
    if input.len() >= 5 {
        lemma_entries_end(input, input[4] as nat);
    }
}

/// An entry whose path passes `validate_relative_path` lands below the
/// destination: the joined path's components are the destination's followed
/// by the entry's own, none of which is `.` or `..`.
pub proof fn lemma_safe_entry_stays_below(destination: Seq<char>, p: Seq<char>)
    requires
        relative_path_is_safe(p),
    ensures
        components(path_join(destination, p)) == components(destination) + components(p),
        forall|i: int| 0 <= i < components(p).len() ==> components(p)[i] != ".."@ && components(p)[i] != "."@,
{
    reveal_strlit("/");
    reveal_strlit(".");
    reveal_strlit("./");
    if p == "."@ || starts_with(p, "./"@) {
        assert(components(p)[0] == "."@);
        assert(components(p).contains("."@));
    }
    lemma_join_components(destination, p);
    assert forall|i: int| 0 <= i < components(p).len() implies components(p)[i] != ".."@ && components(p)[i] != "."@ by {
        if components(p)[i] == ".."@ {
            assert(components(p).contains(".."@));
        }
        if components(p)[i] == "."@ {
            assert(components(p).contains("."@));
        }
    }
}

/// A bundle all of whose paths are safe extracts below the destination.
pub proof fn lemma_safe_bundle_stays_below(es: Seq<EntryView>, destination: Seq<char>)
    requires
        forall|i: int| 0 <= i < es.len() ==> relative_path_is_safe(#[trigger] es[i].0),
    ensures
        forall|i: int| 0 <= i < es.len() ==> components(#[trigger] extraction_plan(es, destination)[i].0)
            == components(destination) + components(es[i].0),
{
    assert forall|i: int| 0 <= i < es.len() implies components(#[trigger] extraction_plan(es, destination)[i].0)
        == components(destination) + components(es[i].0) by {
        assert(relative_path_is_safe(es[i].0));
        lemma_safe_entry_stays_below(destination, es[i].0);
    }
}

/// The bytes of one entry: path length, UTF-8 path, big-endian content
/// length, contents.
pub open spec fn encode_entry(e: EntryView) -> Seq<u8> {
    let p = encode_utf8(e.0);
    seq![p.len() as u8] + p + seq![(e.1.len() / 256) as u8, (e.1.len() % 256) as u8] + e.1
}

/// The bytes of the entries, in order.
pub open spec fn encode_entries(es: Seq<EntryView>) -> Seq<u8>
    decreases es.len(),
{
    if es.len() == 0 {
        Seq::empty()
    } else {
        encode_entries(es.drop_last()) + encode_entry(es.last())
    }
}

/// The bundle of the entries: magic, count, entries.
pub open spec fn encode(es: Seq<EntryView>) -> Seq<u8> {
    magic() + seq![es.len() as u8] + encode_entries(es)
}

/// Entries the format can hold: at most 255 of them, each path at most 255
/// bytes of UTF-8, each content at most 65535 bytes.
pub open spec fn encodable(es: Seq<EntryView>) -> bool {
    &&& es.len() <= 255
    &&& forall|i: int| 0 <= i < es.len() ==> encode_utf8((#[trigger] es[i]).0).len() <= 255 && es[i].1.len() <= 65535
}

/// The entries read by `entries` are exactly the bytes from offset 5 to
/// where they end.
proof fn lemma_entries_bytes(b: Seq<u8>, n: nat)
    ensures
        entries(b, n) matches Ok((es, c)) ==> 5 <= c <= b.len() + 5 && es.len() == n
            && (n > 0 ==> c <= b.len() && b.subrange(5, c) == encode_entries(es)),
    decreases n,
{
    if n > 0 {
        lemma_entries_bytes(b, (n - 1) as nat);
        lemma_entries_end(b, (n - 1) as nat);
        if let Ok((es0, c0)) = entries(b, (n - 1) as nat) {
            if let Ok((e, c)) = entry_at(b, c0) {
                let ps = c0 + 1;
                let pe = ps + b[c0];
                let cs = pe + 2;
                let pb = b.subrange(ps, pe);
                vstd::utf8::decode_utf8_encode_utf8(pb);
                assert(encode_utf8(e.0) == pb);
                let l = e.1.len();
                assert(l == b[pe] * 256 + b[pe + 1]);
                assert(l / 256 == b[pe] && l % 256 == b[pe + 1]) by (nonlinear_arith)
                    requires
                        l == b[pe] * 256 + b[pe + 1],
                        0 <= b[pe + 1] < 256,
                        0 <= b[pe] < 256,
                ;
                assert(b.subrange(c0, c) =~= encode_entry(e));
                let es = es0.push(e);
                assert(es.drop_last() =~= es0);
                if n - 1 == 0 {
                    assert(es0.len() == 0);
                    assert(encode_entries(es0) =~= Seq::<u8>::empty());
                    assert(c0 == 5);
                    assert(b.subrange(5, c) =~= encode_entries(es0) + b.subrange(c0, c));
                } else {
                    assert(b.subrange(5, c) =~= b.subrange(5, c0) + b.subrange(c0, c));
                }
            }
        }
    }
}

/// A bundle that parses is exactly the encoding of what it holds: no byte is
/// skipped, none trails.
pub proof fn lemma_parsed_bundle_is_its_encoding(b: Seq<u8>)
    ensures
        bundle_spec(b) matches Ok(es) ==> b == encode(es),
{
    if let Ok(es) = bundle_spec(b) {
        lemma_entries_bytes(b, b[4] as nat);
        lemma_entries_end(b, b[4] as nat);
        assert(es.len() == b[4]);
        assert(b.subrange(0, 4) == magic());
        if b[4] == 0 {
            assert(encode_entries(es) =~= Seq::<u8>::empty());
            assert(b =~= encode(es));
        } else {
            assert(b =~= b.subrange(0, 4) + seq![b[4]] + b.subrange(5, b.len() as int));
            assert(b =~= encode(es));
        }
    }
}

/// The bytes of one entry are at most 65793 long, and its path fits.
proof fn lemma_entry_len(e: EntryView)
    requires
        encode_utf8(e.0).len() <= 255,
        e.1.len() <= 65535,
    ensures
        encode_entry(e).len() == 3 + encode_utf8(e.0).len() + e.1.len(),
        encode_entry(e).len() <= 65793,
{
}

/// The encoding of a prefix of the entries is a prefix of their encoding,
/// and the encoding grows by at most 65793 bytes per entry.
proof fn lemma_encode_prefix(es: Seq<EntryView>, k: int)
    requires
        encodable(es),
        0 <= k <= es.len(),
    ensures
        encode_entries(es.take(k)).len() <= encode_entries(es).len(),
        encode_entries(es) .subrange(0, encode_entries(es.take(k)).len() as int) == encode_entries(es.take(k)),
        encode_entries(es).len() <= 65793 * es.len(),
    decreases es.len(),
{
    if es.len() == 0 {
        assert(es.take(k) =~= es);
    } else {
        let init = es.drop_last();
        assert(encodable(init)) by {
            assert forall|i: int| 0 <= i < init.len() implies encode_utf8((#[trigger] init[i]).0).len() <= 255
                && init[i].1.len() <= 65535 by {
                assert(init[i] == es[i]);
            }
        }
        assert(encode_utf8(es[es.len() - 1].0).len() <= 255 && es[es.len() - 1].1.len() <= 65535);
        lemma_entry_len(es.last());
        if k == es.len() {
            assert(es.take(k) =~= es);
            lemma_encode_prefix(init, 0);
        } else {
            assert(es.take(k) =~= init.take(k));
            lemma_encode_prefix(init, k);
            assert(encode_entries(es) == encode_entries(init) + encode_entry(es.last()));
            assert(encode_entries(es).subrange(0, encode_entries(init.take(k)).len() as int) =~= encode_entries(
                init,
            ).subrange(0, encode_entries(init.take(k)).len() as int));
        }
    }
}

/// Reading the encoding of encodable entries gives the first `k` of them
/// back, ending where their encoding ends.
proof fn lemma_entries_of_encoding(es: Seq<EntryView>, k: nat)
    requires
        encodable(es),
        k <= es.len(),
    ensures
        entries(encode(es), k) == Ok::<(Seq<EntryView>, int), BundleFault>(
            (es.take(k as int), 5 + encode_entries(es.take(k as int)).len() as int),
        ),
    decreases k,
{
    let b = encode(es);
    lemma_encode_prefix(es, es.len() as int);
    assert(b.len() == 5 + encode_entries(es).len());
    assert(b.len() <= 5 + 65793 * 255);
    if k == 0 {
        assert(es.take(0) =~= Seq::<EntryView>::empty());
        assert(encode_entries(es.take(0)) =~= Seq::<u8>::empty());
    } else {
        lemma_entries_of_encoding(es, (k - 1) as nat);
        let prev = es.take(k - 1);
        let cur = es.take(k as int);
        assert(cur.drop_last() =~= prev);
        assert(cur.last() == es[k - 1]);
        let e = es[k - 1];
        let c0: int = 5 + encode_entries(prev).len() as int;
        lemma_encode_prefix(es, k as int);
        assert(encode_entries(cur) == encode_entries(prev) + encode_entry(e));
        let ee = encode_entry(e);
        assert(encode_utf8(e.0).len() <= 255 && e.1.len() <= 65535);
        lemma_entry_len(e);
        let c: int = c0 + ee.len() as int;
        assert(c <= b.len());
        // the entry's bytes stand at c0 .. c
        assert forall|j: int| 0 <= j < ee.len() implies b[c0 + j] == #[trigger] ee[j] by {
            assert(encode_entries(es).subrange(0, encode_entries(cur).len() as int)[encode_entries(prev).len() + j]
                == encode_entries(cur)[encode_entries(prev).len() + j]);
        }
        let p = encode_utf8(e.0);
        let pl: int = p.len() as int;
        let l: int = e.1.len() as int;
        assert(b[c0] == ee[0]);
        assert(ee[0] == pl as u8);
        assert(b[c0] == pl);
        let ps = c0 + 1;
        let pe = ps + pl;
        assert(b.subrange(ps, pe) =~= p) by {
            assert forall|j: int| 0 <= j < pl implies b.subrange(ps, pe)[j] == p[j] by {
                assert(b[c0 + 1 + j] == ee[1 + j]);
            }
        }
        vstd::utf8::encode_utf8_valid_utf8(e.0);
        vstd::utf8::encode_utf8_decode_utf8(e.0);
        assert(b[pe] == ee[1 + pl]);
        assert(b[pe + 1] == ee[2 + pl]);
        assert(b[pe] == l / 256 && b[pe + 1] == l % 256);
        assert(b[pe] * 256 + b[pe + 1] == l) by (nonlinear_arith)
            requires
                b[pe] == l / 256,
                b[pe + 1] == l % 256,
                0 <= l,
        ;
        let cs = pe + 2;
        assert(cs + l == c);
        assert(b.subrange(cs, c) =~= e.1) by {
            assert forall|j: int| 0 <= j < l implies b.subrange(cs, c)[j] == e.1[j] by {
                assert(b[c0 + 3 + pl + j] == ee[3 + pl + j]);
            }
        }
        assert(entry_at(b, c0) == Ok::<(EntryView, int), BundleFault>((e, c)));
        assert(cur =~= prev.push(e));
    }
}

/// Encodable entries read back from their encoding as they were.
pub proof fn lemma_encoding_parses_back(es: Seq<EntryView>)
    requires
        encodable(es),
    ensures
        bundle_spec(encode(es)) == Ok::<Seq<EntryView>, BundleFault>(es),
{
    let b = encode(es);
    lemma_entries_of_encoding(es, es.len());
    assert(es.take(es.len() as int) =~= es);
    assert(b.subrange(0, 4) =~= magic());
    assert(b[4] == es.len() as u8);
    assert(b[4] == es.len());
    lemma_encode_prefix(es, es.len() as int);
}

} // verus!
