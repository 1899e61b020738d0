//! Path-based access proxy (`/proxy/fetch?path=<raw-path>`).
//!
//! A guard decides whether a request may proceed; the backend resolves the
//! effective path and serves it. Paths under `/admin` are protected. The guard
//! and the backend must agree on what a raw path means.

use vstd::prelude::*;
use vstd::string::StringSliceAdditionalSpecFns;
use vstd::utf8::encode_utf8;
use crate::dvr::{or_default, App, Request, Response};
use crate::text::{
    chars_eq, chars_of, find_from, join, join_chars, owned, push_char, push_str, split, split_keyed,
    split_keyed_chars, starts_with, starts_with_chars, string_of,
};

verus! {

/// Value of an ASCII hexadecimal digit byte.
pub open spec fn hex_value(b: u8) -> Option<nat> {
    if 48 <= b <= 57 {
        Some((b - 48) as nat)
    } else if 97 <= b <= 102 {
        Some((b - 87) as nat)
    } else if 65 <= b <= 70 {
        Some((b - 55) as nat)
    } else {
        None
    }
}

/// One percent-decoding pass over bytes from position `i`: `%XY` with both
/// hex digits present (`i + 2 < len`) becomes the character with that code;
/// every other byte becomes the character with the byte's code.
pub open spec fn decode_from(b: Seq<u8>, i: int) -> Seq<char>
    decreases b.len() - i,
{
    if i < 0 || i >= b.len() {
        seq![]
    } else if b[i] == 37u8 && i + 2 < b.len() && hex_value(b[i + 1]) is Some && hex_value(
        b[i + 2],
    ) is Some {
        seq![((hex_value(b[i + 1])->0 * 16 + hex_value(b[i + 2])->0) as u32) as char] + decode_from(
            b,
            i + 3,
        )
    } else {
        seq![(b[i] as u32) as char] + decode_from(b, i + 1)
    }
}

/// One percent-decoding pass over the UTF-8 bytes of a string.
pub open spec fn decode_once(s: Seq<char>) -> Seq<char> {
    decode_from(encode_utf8(s), 0)
}

/// The segment stack after resolving `segs`: empty and `.` segments are
/// skipped, `..` pops.
pub open spec fn resolve(segs: Seq<Seq<char>>) -> Seq<Seq<char>>
    decreases segs.len(),
{
    if segs.len() == 0 {
        seq![]
    } else {
        let st = resolve(segs.drop_last());
        let s = segs.last();
        if s.len() == 0 || s == "."@ {
            st
        } else if s == ".."@ {
            if st.len() > 0 {
                st.drop_last()
            } else {
                st
            }
        } else {
            st.push(s)
        }
    }
}

/// Lexical normalization: collapse `//`, resolve `.` and `..`.
pub open spec fn normalize_spec(p: Seq<char>) -> Seq<char> {
    "/"@ + join(resolve(split(p, "/"@)), "/"@)
}

/// The guard's view: decode once, refuse anything under `/admin`.
pub open spec fn guard_allows(raw: Seq<char>) -> bool {
    !starts_with(normalize_spec(decode_once(raw)), "/admin"@)
}

/// The backend's view: decode twice, then normalize.
pub open spec fn backend_path(raw: Seq<char>) -> Seq<char> {
    normalize_spec(decode_once(decode_once(raw)))
}

/// Decoding repeated until the text stops changing, at most `k` passes.
pub open spec fn decode_fixpoint(s: Seq<char>, k: nat) -> Seq<char>
    decreases k,
{
    if k == 0 {
        s
    } else {
        let next = decode_once(s);
        if next == s {
            s
        } else {
            decode_fixpoint(next, (k - 1) as nat)
        }
    }
}

/// The single canonical form: decoded to a fixed point (at most eight
/// passes), then normalized.
pub open spec fn canonical(raw: Seq<char>) -> Seq<char> {
    normalize_spec(decode_fixpoint(raw, 8))
}

fn hex_digit_value(b: u8) -> (r: Option<u32>)
    ensures
        match hex_value(b) {
            Some(v) => r == Some(v as u32),
            None => r is None,
        },
{
    if 48 <= b && b <= 57 {
        Some((b - 48) as u32)
    } else if 97 <= b && b <= 102 {
        Some((b - 87) as u32)
    } else if 65 <= b && b <= 70 {
        Some((b - 55) as u32)
    } else {
        None
    }
}

/// Percent-decode one pass.
fn percent_decode_once(s: &str) -> (r: String)
    ensures
        r@ == decode_once(s@),
{
    let bytes = s.as_bytes();
    assert(bytes@ == encode_utf8(s@));
    let n = bytes.len();
    let mut out = String::new();
    let mut i: usize = 0;
    while i < n
        invariant
            n == bytes@.len(),
            i <= n,
            decode_from(bytes@, 0) == out@ + decode_from(bytes@, i as int),
        decreases n - i,
    {
        if bytes[i] == 37u8 && n - i > 2 {
            let hi = hex_digit_value(bytes[i + 1]);
            let lo = hex_digit_value(bytes[i + 2]);
            if let (Some(h), Some(l)) = (hi, lo) {
                let code = (h * 16 + l) as u8;
                let c = code as char;
                assert(c == ((h * 16 + l) as u32) as char);
                let ghost before = out@;
                push_char(&mut out, c);
                assert(before + decode_from(bytes@, i as int) =~= out@ + decode_from(bytes@, i + 3));
                i += 3;
                continue;
            }
        }
        let c = bytes[i] as char;
        let ghost before = out@;
        push_char(&mut out, c);
        assert(before + decode_from(bytes@, i as int) =~= out@ + decode_from(bytes@, i + 1));
        i += 1;
    }
    assert(out@ + decode_from(bytes@, i as int) =~= out@);
    out
}

/// Collapse `//` and resolve `.`/`..` lexically.
fn normalize(p: &str) -> (r: String)
    ensures
        r@ == normalize_spec(p@),
{
    let chars = chars_of(p);
    let slash = chars_of("/");
    let dot = chars_of(".");
    let dotdot = chars_of("..");
    proof {
        reveal_strlit("/");
    }
    let segs = split_keyed_chars(&chars, &chars, &slash, 0);
    let ghost sv = segs@.map_values(|v: Vec<char>| v@);
    let mut stack: Vec<Vec<char>> = Vec::new();
    let mut i: usize = 0;
    while i < segs.len()
        invariant
            i <= segs@.len(),
            sv == segs@.map_values(|v: Vec<char>| v@),
            dot@ == "."@,
            dotdot@ == ".."@,
            stack@.map_values(|v: Vec<char>| v@) == resolve(sv.take(i as int)),
        decreases segs@.len() - i,
    {
        let seg = &segs[i];
        assert(sv[i as int] == seg@);
        assert(sv.take(i + 1).drop_last() =~= sv.take(i as int));
        let ghost before = stack@.map_values(|v: Vec<char>| v@);
        if seg.len() == 0 || chars_eq(seg, &dot) {
        } else if chars_eq(seg, &dotdot) {
            if stack.len() > 0 {
                stack.pop();
                assert(stack@.map_values(|v: Vec<char>| v@) =~= before.drop_last());
            }
        } else {
            let copy = crate::text::slice_chars(seg, 0, seg.len());
            assert(copy@ =~= seg@);
            stack.push(copy);
            assert(stack@.map_values(|v: Vec<char>| v@) =~= before.push(seg@));
        }
        i += 1;
    }
    assert(sv.take(segs@.len() as int) =~= sv);
    let joined = join_chars(&stack, &slash);
    let mut out = owned("/");
    push_str(&mut out, string_of(&joined).as_str());
    out
}

/// Whether a path lies under `/admin`.
fn under_admin(p: &str) -> (r: bool)
    ensures
        r == starts_with(p@, "/admin"@),
{
    let chars = chars_of(p);
    let prefix = chars_of("/admin");
    starts_with_chars(&chars, &prefix)
}

/// The guard's view: decode once, block if the result is under `/admin`.
fn waf_allows(raw: &str) -> (r: bool)
    ensures
        r == guard_allows(raw@),
{
    let decoded = percent_decode_once(raw);
    let n = normalize(decoded.as_str());
    !under_admin(n.as_str())
}

/// The backend's view: decode twice, then normalize.
fn backend_effective_path(raw: &str) -> (r: String)
    ensures
        r@ == backend_path(raw@),
{
    let once = percent_decode_once(raw);
    let twice = percent_decode_once(once.as_str());
    normalize(twice.as_str())
}

/// Decode to a fixed point (at most eight passes), then normalize.
fn canonicalize(raw: &str) -> (r: String)
    ensures
        r@ == canonical(raw@),
{
    let mut cur = owned(raw);
    let mut k: usize = 0;
    while k < 8
        invariant
            k <= 8,
            decode_fixpoint(raw@, 8) == decode_fixpoint(cur@, (8 - k) as nat),
        ensures
            decode_fixpoint(raw@, 8) == cur@,
        decreases 8 - k,
    {
        let next = percent_decode_once(cur.as_str());
        if next == cur {
            break;
        }
        cur = next;
        k += 1;
    }
    normalize(cur.as_str())
}

/// The path a request asks for (`path`, default `/`).
pub open spec fn raw_path(req: &Request) -> Seq<char> {
    or_default(req.query_spec("path"@), "/"@)
}

fn raw_of<'a>(req: &'a Request) -> (r: &'a str)
    ensures
        r@ == raw_path(req),
{
    match req.query_get("path") {
        Some(v) => v,
        None => "/",
    }
}

fn served(path: &str) -> (r: Response)
    ensures
        r.status == 200,
        r.body@ == "served: "@ + path@,
{
    let mut out = owned("served: ");
    push_str(&mut out, path);
    Response::ok(out)
}

/// What `handle` answers.
pub open spec fn answers(app: &App, req: &Request, r: Response) -> bool {
    &&& !guard_allows(raw_path(req)) ==> r.status == 403 && r.body@ == "blocked by policy"@
    &&& guard_allows(raw_path(req)) ==> r.status == 200 && r.body@ == "served: "@ + backend_path(
                raw_path(req),
            )
}

/// The guard decides on a once-decoded path; the backend serves the
/// twice-decoded one.
pub fn handle(_app: &App, req: &Request) -> (r: Response)
    ensures
        answers(_app, req, r),
{
    let raw = raw_of(req);
    if !waf_allows(raw) {
        return Response::err(403, owned("blocked by policy"));
    }
    let effective = backend_effective_path(raw);
    served(effective.as_str())
}

/// One canonical form, used both for the decision and for the resolution.
pub fn fixed_handle(_app: &App, req: &Request) -> (r: Response)
    ensures
        starts_with(canonical(raw_path(req)), "/admin"@) ==> r.status == 403 && r.body@
            == "blocked by policy"@,
        !starts_with(canonical(raw_path(req)), "/admin"@) ==> r.status == 200 && r.body@
            == "served: "@ + canonical(raw_path(req)),
{
    let raw = raw_of(req);
    let canonical = canonicalize(raw);
    if under_admin(canonical.as_str()) {
        return Response::err(403, owned("blocked by policy"));
    }
    served(canonical.as_str())
}

/// The guard blocks exactly the inputs the backend resolves under `/admin`.
pub open spec fn equivalent(raw: Seq<char>) -> bool {
    !guard_allows(raw) == starts_with(backend_path(raw), "/admin"@)
}

/// Whether the guard blocks iff the backend reaches the protected namespace.
pub fn parser_equivalence_holds(raw: &str) -> (r: bool)
    ensures
        r == equivalent(raw@),
{
    let guard_blocks = !waf_allows(raw);
    let effective = backend_effective_path(raw);
    let backend_reaches_admin = under_admin(effective.as_str());
    guard_blocks == backend_reaches_admin
}

/// The same invariant for the single canonical form: it holds for every input.
pub fn parser_equivalence_holds_fixed(raw: &str) -> (r: bool)
    ensures
        r,
{
    let canonical = canonicalize(raw);
    let guard_blocks = under_admin(canonical.as_str());
    let backend_reaches_admin = under_admin(canonical.as_str());
    guard_blocks == backend_reaches_admin
}

/// A segment that names a directory entry: not empty, not `.` or `..`, and
/// without a `/`.
pub open spec fn is_named_segment(s: Seq<char>) -> bool {
    s.len() > 0 && s != "."@ && s != ".."@ && !s.contains('/')
}

/// Resolving a named segment and then `..` leaves the stack as it was.
proof fn lemma_resolve_pop(x: Seq<Seq<char>>, s: Seq<char>)
    requires
        is_named_segment(s),
    ensures
        resolve(x.push(s).push(".."@)) == resolve(x),
{
    reveal_strlit("..");
    reveal_strlit(".");
    assert(x.push(s).drop_last() =~= x);
    assert(x.push(s).push(".."@).drop_last() =~= x.push(s));
    assert(resolve(x.push(s)) == resolve(x).push(s));
    assert(resolve(x.push(s)).drop_last() =~= resolve(x));
}

/// Segments that resolve alike still resolve alike once the same segments
/// follow them.
proof fn lemma_resolve_append(x: Seq<Seq<char>>, y: Seq<Seq<char>>, z: Seq<Seq<char>>)
    requires
        resolve(x) == resolve(y),
    ensures
        resolve(x + z) == resolve(y + z),
    decreases z.len(),
{
    if z.len() == 0 {
        assert(x + z =~= x);
        assert(y + z =~= y);
    } else {
        lemma_resolve_append(x, y, z.drop_last());
        assert((x + z).drop_last() =~= x + z.drop_last());
        assert((y + z).drop_last() =~= y + z.drop_last());
        assert((x + z).last() == z.last());
        assert((y + z).last() == z.last());
    }
}

/// A piece without the separator splits into itself.
proof fn lemma_split_single(s: Seq<char>, c: char)
    requires
        !s.contains(c),
    ensures
        split(s, seq![c]) == seq![s],
{
    crate::text::lemma_find_one(s, c, 0);
    assert forall|j: int| 0 <= j < s.len() implies s[j] != c by {
        if s[j] == c {
            assert(s.contains(c));
        }
    }
    assert(s.subrange(0, s.len() as int) =~= s);
}

/// Lexical normalization resolves `..` against the segment before it:
/// `a/s/../b` normalizes as `a/b` for every named segment `s` (so
/// `/x/../y` normalizes to `/y`).
pub proof fn lemma_dotdot_cancels_segment(a: Seq<char>, s: Seq<char>, b: Seq<char>)
    requires
        is_named_segment(s),
    ensures
        normalize_spec(a + "/"@ + s + "/../"@ + b) == normalize_spec(a + "/"@ + b),
{
    reveal_strlit("/");
    reveal_strlit("/../");
    reveal_strlit("..");
    let sl = seq!['/'];
    let dd = ".."@;
    assert("/"@ =~= sl);
    assert(dd =~= seq!['.', '.']);
    assert(!dd.contains('/')) by {
        if dd.contains('/') {
            let j = choose|j: int| 0 <= j < dd.len() && dd[j] == '/';
            assert(dd[j] == '.');
        }
    }
    let tail = dd + sl + b;
    let mid = s + sl + tail;
    assert(a + "/"@ + s + "/../"@ + b =~= a + sl + mid);
    crate::text::lemma_split_concat(a, mid, '/');
    crate::text::lemma_split_concat(s, tail, '/');
    crate::text::lemma_split_concat(dd, b, '/');
    crate::text::lemma_split_concat(a, b, '/');
    lemma_split_single(s, '/');
    lemma_split_single(dd, '/');
    let pa = split(a, sl);
    let pb = split(b, sl);
    assert(split(a + sl + mid, sl) =~= pa.push(s).push(dd) + pb);
    lemma_resolve_pop(pa, s);
    lemma_resolve_append(pa.push(s).push(dd), pa, pb);
}

/// `.` segments and empty segments (from `//`) name nothing:
/// `a/./b` and `a//b` both normalize as `a/b`.
pub proof fn lemma_dot_and_empty_segments_vanish(a: Seq<char>, b: Seq<char>)
    ensures
        normalize_spec(a + "/./"@ + b) == normalize_spec(a + "/"@ + b),
        normalize_spec(a + "//"@ + b) == normalize_spec(a + "/"@ + b),
{
    reveal_strlit("/");
    reveal_strlit("/./");
    reveal_strlit("//");
    reveal_strlit(".");
    let sl = seq!['/'];
    let dot = "."@;
    let empty = Seq::<char>::empty();
    assert("/"@ =~= sl);
    assert(dot =~= seq!['.']);
    assert(!dot.contains('/')) by {
        if dot.contains('/') {
            let j = choose|j: int| 0 <= j < dot.len() && dot[j] == '/';
            assert(dot[j] == '.');
        }
    }
    assert(!empty.contains('/'));
    assert(a + "/./"@ + b =~= a + sl + (dot + sl + b));
    assert(a + "//"@ + b =~= a + sl + (empty + sl + b));
    crate::text::lemma_split_concat(a, dot + sl + b, '/');
    crate::text::lemma_split_concat(dot, b, '/');
    crate::text::lemma_split_concat(a, empty + sl + b, '/');
    crate::text::lemma_split_concat(empty, b, '/');
    crate::text::lemma_split_concat(a, b, '/');
    lemma_split_single(dot, '/');
    lemma_split_single(empty, '/');
    let pa = split(a, sl);
    let pb = split(b, sl);
    assert(split(a + sl + (dot + sl + b), sl) =~= pa.push(dot) + pb);
    assert(split(a + sl + (empty + sl + b), sl) =~= pa.push(empty) + pb);
    assert(pa.push(dot).drop_last() =~= pa);
    assert(pa.push(empty).drop_last() =~= pa);
    lemma_resolve_append(pa.push(dot), pa, pb);
    lemma_resolve_append(pa.push(empty), pa, pb);
}

/// No piece of a split holds the separator.
proof fn lemma_split_pieces_lack_separator(hay: Seq<char>, c: char, start: int)
    requires
        0 <= start <= hay.len(),
    ensures
        forall|i: int|
            0 <= i < split_keyed(hay, hay, seq![c], start).len() ==> !(#[trigger] split_keyed(
                hay,
                hay,
                seq![c],
                start,
            )[i]).contains(c),
    decreases hay.len() - start,
{
    let pieces = split_keyed(hay, hay, seq![c], start);
    crate::text::lemma_find_one(hay, c, start);
    match find_from(hay, seq![c], start) {
        Some(at) => {
            lemma_split_pieces_lack_separator(hay, c, at + 1);
            let first = hay.subrange(start, at);
            assert(!first.contains(c)) by {
                if first.contains(c) {
                    let j = choose|j: int| 0 <= j < first.len() && first[j] == c;
                    assert(hay[start + j] == c);
                }
            }
            let rest = split_keyed(hay, hay, seq![c], at + 1);
            assert(pieces == seq![first] + rest);
            assert forall|i: int| 0 <= i < pieces.len() implies !(#[trigger] pieces[i]).contains(c) by {
                if i > 0 {
                    assert(pieces[i] == rest[i - 1]);
                }
            }
        },
        None => {
            let last = hay.subrange(start, hay.len() as int);
            assert(!last.contains(c)) by {
                if last.contains(c) {
                    let j = choose|j: int| 0 <= j < last.len() && last[j] == c;
                    assert(hay[start + j] == c);
                }
            }
            assert(pieces == seq![last]);
        },
    }
}

/// Resolving segments without `/` leaves only named segments.
proof fn lemma_resolve_leaves_named(segs: Seq<Seq<char>>)
    requires
        forall|i: int| 0 <= i < segs.len() ==> !(#[trigger] segs[i]).contains('/'),
    ensures
        forall|i: int| 0 <= i < resolve(segs).len() ==> is_named_segment(#[trigger] resolve(segs)[i]),
    decreases segs.len(),
{
    if segs.len() > 0 {
        let init = segs.drop_last();
        assert forall|i: int| 0 <= i < init.len() implies !(#[trigger] init[i]).contains('/') by {
            assert(init[i] == segs[i]);
        }
        lemma_resolve_leaves_named(init);
        let st = resolve(init);
        assert(!segs.last().contains('/')) by {
            assert(segs.last() == segs[segs.len() - 1]);
        }
        assert forall|i: int| 0 <= i < resolve(segs).len() implies is_named_segment(#[trigger] resolve(segs)[i]) by {
            if i < st.len() {
                assert(resolve(segs)[i] == st[i]);
            }
        }
    }
}

/// Named segments resolve to themselves.
proof fn lemma_resolve_named_is_identity(segs: Seq<Seq<char>>)
    requires
        forall|i: int| 0 <= i < segs.len() ==> is_named_segment(#[trigger] segs[i]),
    ensures
        resolve(segs) == segs,
    decreases segs.len(),
{
    if segs.len() > 0 {
        let init = segs.drop_last();
        assert forall|i: int| 0 <= i < init.len() implies is_named_segment(#[trigger] init[i]) by {
            assert(init[i] == segs[i]);
        }
        lemma_resolve_named_is_identity(init);
        assert(is_named_segment(segs[segs.len() - 1]));
        assert(init.push(segs.last()) =~= segs);
    }
}

/// Splitting a join of pieces without the separator gives the pieces back.
proof fn lemma_split_join(segs: Seq<Seq<char>>)
    requires
        segs.len() > 0,
        forall|i: int| 0 <= i < segs.len() ==> !(#[trigger] segs[i]).contains('/'),
    ensures
        split(join(segs, "/"@), "/"@) == segs,
    decreases segs.len(),
{
    reveal_strlit("/");
    let sl = seq!['/'];
    assert("/"@ =~= sl);
    if segs.len() == 1 {
        lemma_split_single(segs[0], '/');
        assert(seq![segs[0]] =~= segs);
    } else {
        let init = segs.drop_last();
        assert forall|i: int| 0 <= i < init.len() implies !(#[trigger] init[i]).contains('/') by {
            assert(init[i] == segs[i]);
        }
        lemma_split_join(init);
        assert(!segs.last().contains('/')) by {
            assert(segs.last() == segs[segs.len() - 1]);
        }
        crate::text::lemma_split_concat(join(init, "/"@), segs.last(), '/');
        lemma_split_single(segs.last(), '/');
        assert(init + seq![segs.last()] =~= segs);
    }
}

/// Normalization is a normal form: a normalized path normalizes to itself.
pub proof fn lemma_normalize_idempotent(p: Seq<char>)
    ensures
        normalize_spec(normalize_spec(p)) == normalize_spec(p),
{
    reveal_strlit("/");
    let sl = seq!['/'];
    assert("/"@ =~= sl);
    lemma_split_pieces_lack_separator(p, '/', 0);
    let pieces = split(p, "/"@);
    assert forall|i: int| 0 <= i < pieces.len() implies !(#[trigger] pieces[i]).contains('/') by {}
    let segs = resolve(pieces);
    lemma_resolve_leaves_named(pieces);
    let joined = join(segs, "/"@);
    let n = normalize_spec(p);
    let empty = Seq::<char>::empty();
    assert(n =~= empty + sl + joined);
    crate::text::lemma_split_concat(empty, joined, '/');
    lemma_split_single(empty, '/');
    let none = Seq::<Seq<char>>::empty();
    assert(resolve(seq![empty]) == none) by {
        assert(seq![empty].drop_last() =~= none);
        assert(seq![empty].last() == empty);
        assert(resolve(none) == none);
    }
    if segs.len() == 0 {
        assert(joined == empty);
        assert(split(n, sl) =~= seq![empty, empty]);
        assert(seq![empty, empty].drop_last() =~= seq![empty]);
    } else {
        assert forall|i: int| 0 <= i < segs.len() implies !(#[trigger] segs[i]).contains('/') by {
            assert(is_named_segment(segs[i]));
        }
        lemma_split_join(segs);
        assert(split(n, sl) == seq![empty] + segs);
        lemma_resolve_append(seq![empty], none, segs);
        assert(none + segs =~= segs);
        lemma_resolve_named_is_identity(segs);
    }
}

} // verus!
