//! Nested-bracket expression parser (`/parse/nested?expr=<...>`).
//!
//! Reports the maximum nesting depth: `[]` is 1, `[[]]` is 2, `[a][b]` is 1.
//! A `]` with no open bracket ends the scan of the level it appears in.

use vstd::prelude::*;
use vstd::string::StringSliceAdditionalSpecFns;
use vstd::utf8::encode_utf8;
use crate::dvr::{or_default, App, Request, Response};
use crate::text::{decimal, decimal_string, owned, push_str};

verus! {

/// Deepest nesting the bounded parser accepts.
pub const MAX_DEPTH: usize = 128;

/// The larger of two numbers.
pub open spec fn max_nat(a: nat, b: nat) -> nat {
    if a >= b {
        a
    } else {
        b
    }
}

/// Parse of the level that starts at `pos`: its depth and the position after it.
pub open spec fn group(b: Seq<u8>, pos: int) -> (nat, int)
    decreases b.len() - pos, 1int,
{
    scan(b, pos, 0)
}

/// Scan of a level from position `i` with the deepest child seen so far `m`.
pub open spec fn scan(b: Seq<u8>, i: int, m: nat) -> (nat, int)
    decreases b.len() - i, 0int,
{
    if i < 0 || i >= b.len() {
        (m, i)
    } else if b[i] == 91u8 {
        let (child, next) = group(b, i + 1);
        if i < next <= b.len() {
            scan(b, next, max_nat(m, child))
        } else {
            (m, i)
        }
    } else if b[i] == 93u8 {
        ((m + 1) as nat, i + 1)
    } else {
        scan(b, i + 1, m)
    }
}

/// Where a scan ends and how deep it can report.
pub proof fn lemma_scan(b: Seq<u8>, i: int, m: nat)
    requires
        0 <= i <= b.len(),
        m <= i,
    ensures
        i <= scan(b, i, m).1 <= b.len(),
        scan(b, i, m).0 <= scan(b, i, m).1,
    decreases b.len() - i, 0int,
{
    if i < b.len() {
        if b[i] == 91u8 {
            lemma_group(b, i + 1);
            let (child, next) = group(b, i + 1);
            lemma_scan(b, next, max_nat(m, child));
        } else if b[i] == 93u8 {
        } else {
            lemma_scan(b, i + 1, m);
        }
    }
}

/// Where a level's parse ends and how deep it can report.
pub proof fn lemma_group(b: Seq<u8>, pos: int)
    requires
        0 <= pos <= b.len(),
    ensures
        pos <= group(b, pos).1 <= b.len(),
        group(b, pos).0 <= group(b, pos).1,
    decreases b.len() - pos, 1int,
{
    lemma_scan(b, pos, 0);
}

/// Parse from position `pos`, returning the depth of this level and the next
/// position. Recurses once per `[`.
fn parse_group(bytes: &[u8], pos: usize) -> (r: (usize, usize))
    requires
        pos <= bytes@.len(),
    ensures
        r.0 as nat == group(bytes@, pos as int).0,
        r.1 as int == group(bytes@, pos as int).1,
    decreases bytes@.len() - pos,
{
    let n = bytes.len();
    let mut i = pos;
    let mut max_child: usize = 0;
    proof {
        lemma_group(bytes@, pos as int);
    }
    while i < n
        invariant
            n == bytes@.len(),
            pos <= i <= n,
            max_child <= i,
            group(bytes@, pos as int) == scan(bytes@, i as int, max_child as nat),
        decreases n - i,
    {
        if bytes[i] == 91u8 {
            let (child, next) = parse_group(bytes, i + 1);
            proof {
                lemma_group(bytes@, i + 1);
            }
            max_child = if max_child >= child { max_child } else { child };
            i = next;
        } else if bytes[i] == 93u8 {
            return (max_child + 1, i + 1);
        } else {
            i += 1;
        }
    }
    (max_child, i)
}

/// The expression a request carries (`expr`, empty when absent).
pub open spec fn expression(req: &Request) -> Seq<char> {
    or_default(req.query_spec("expr"@), seq![])
}

/// Nesting depth of the expression, by the unbounded parser.
pub open spec fn nesting_depth(req: &Request) -> nat {
    group(encode_utf8(expression(req)), 0).0
}

fn expr_of<'a>(req: &'a Request) -> (r: &'a str)
    ensures
        r@ == expression(req),
{
    match req.query_get("expr") {
        Some(v) => v,
        None => {
            proof {
                reveal_strlit("");
            }
            ""
        },
    }
}

fn depth_response(depth: usize) -> (r: Response)
    ensures
        r.status == 200,
        r.body@ == "depth="@ + decimal(depth as nat),
{
    let mut out = owned("depth=");
    push_str(&mut out, decimal_string(depth as u64).as_str());
    Response::ok(out)
}

/// What `handle` answers.
pub open spec fn answers(app: &App, req: &Request, r: Response) -> bool {
    &&& r.status == 200
    &&& r.body@ == "depth="@ + decimal(nesting_depth(req))
}

/// Reports the nesting depth, with no limit on recursion.
pub fn handle(_app: &App, req: &Request) -> (r: Response)
    ensures
        answers(_app, req, r),
{
    let expr = expr_of(req);
    let bytes = expr.as_bytes();
    assert(bytes@ == encode_utf8(expr@));
    let (depth, _) = parse_group(bytes, 0);
    depth_response(depth)
}

/// Parse of a level, refusing once nesting exceeds `MAX_DEPTH`.
pub open spec fn group_bounded(b: Seq<u8>, pos: int, d: nat) -> Option<(nat, int)>
    decreases b.len() - pos, 1int,
{
    if d > 128 {
        None
    } else {
        scan_bounded(b, pos, d, 0)
    }
}

/// Scan of a level at nesting `d`, refusing once nesting exceeds `MAX_DEPTH`.
pub open spec fn scan_bounded(b: Seq<u8>, i: int, d: nat, m: nat) -> Option<(nat, int)>
    decreases b.len() - i, 0int,
{
    if i < 0 || i >= b.len() {
        Some((m, i))
    } else if b[i] == 91u8 {
        match group_bounded(b, i + 1, d + 1) {
            None => None,
            Some((child, next)) => if i < next <= b.len() {
                scan_bounded(b, next, d, max_nat(m, child))
            } else {
                None
            },
        }
    } else if b[i] == 93u8 {
        Some(((m + 1) as nat, i + 1))
    } else {
        scan_bounded(b, i + 1, d, m)
    }
}

/// When the bounded scan succeeds, it agrees with the unbounded one.
pub proof fn lemma_scan_bounded_agrees(b: Seq<u8>, i: int, d: nat, m: nat)
    requires
        0 <= i <= b.len(),
        m <= i,
    ensures
        scan_bounded(b, i, d, m) is Some ==> scan_bounded(b, i, d, m) == Some(scan(b, i, m)),
    decreases b.len() - i, 0int,
{
    if i < b.len() {
        if b[i] == 91u8 {
            lemma_group_bounded_agrees(b, i + 1, d + 1);
            lemma_group(b, i + 1);
            let (child, next) = group(b, i + 1);
            lemma_scan_bounded_agrees(b, next, d, max_nat(m, child));
        } else if b[i] == 93u8 {
        } else {
            lemma_scan_bounded_agrees(b, i + 1, d, m);
        }
    }
}

/// When the bounded parse of a level succeeds, it agrees with the unbounded one.
pub proof fn lemma_group_bounded_agrees(b: Seq<u8>, pos: int, d: nat)
    requires
        0 <= pos <= b.len(),
    ensures
        group_bounded(b, pos, d) is Some ==> group_bounded(b, pos, d) == Some(group(b, pos)),
    decreases b.len() - pos, 1int,
{
    if d <= 128 {
        lemma_scan_bounded_agrees(b, pos, d, 0);
    }
}

/// The bounded parse, wherever it succeeds, reports what the unbounded parse
/// reports.
pub proof fn lemma_bounded_parse_agrees(bytes: Seq<u8>)
    ensures
        group_bounded(bytes, 0, 0) is Some ==> group_bounded(bytes, 0, 0) == Some(group(bytes, 0)),
{
    lemma_group_bounded_agrees(bytes, 0, 0);
}

/// Brackets open after reading `b[..k]`: each `[` opens one, each `]`
/// closes one.
pub open spec fn open_brackets(b: Seq<u8>, k: int) -> int
    decreases k,
{
    if k <= 0 || k > b.len() {
        0
    } else {
        open_brackets(b, k - 1) + if b[k - 1] == 91u8 {
            1int
        } else if b[k - 1] == 93u8 {
            -1int
        } else {
            0int
        }
    }
}

/// Every `[` read between `from` and `to` leaves at most `MAX_DEPTH`
/// brackets open.
pub open spec fn opens_within_limit(b: Seq<u8>, from: int, to: int) -> bool {
    forall|k: int| from <= k < to && b[k] == 91u8 ==> #[trigger] open_brackets(b, k + 1) <= 128
}

/// The parse of an expression reads the bytes before `group(b, 0).1`; it
/// stays within the limit when no `[` read there leaves more than
/// `MAX_DEPTH` brackets open.
pub open spec fn within_depth_limit(b: Seq<u8>) -> bool {
    opens_within_limit(b, 0, group(b, 0).1)
}

/// How a scan at nesting `d` ends, and when the bounded scan succeeds.
proof fn lemma_scan_bounded_limit(b: Seq<u8>, i: int, d: nat, m: nat)
    requires
        0 <= i <= b.len(),
        m <= i,
        i < b.len() ==> open_brackets(b, i) == d,
    ensures
        scan(b, i, m).1 < b.len() ==> open_brackets(b, scan(b, i, m).1) == d - 1,
        scan_bounded(b, i, d, m) is Some <==> opens_within_limit(b, i, scan(b, i, m).1),
    decreases b.len() - i, 0int,
{
    lemma_scan(b, i, m);
    let e = scan(b, i, m).1;
    if i < b.len() {
        assert(open_brackets(b, i + 1) == open_brackets(b, i) + if b[i] == 91u8 {
            1int
        } else if b[i] == 93u8 {
            -1int
        } else {
            0int
        });
        if b[i] == 91u8 {
            lemma_group(b, i + 1);
            let (child, next) = group(b, i + 1);
            lemma_group_bounded_limit(b, i + 1, d + 1);
            lemma_group_bounded_agrees(b, i + 1, d + 1);
            lemma_scan_bounded_limit(b, next, d, max_nat(m, child));
            lemma_scan(b, next, max_nat(m, child));
            assert(e == scan(b, next, max_nat(m, child)).1);
            if d + 1 <= 128 {
                if opens_within_limit(b, i, e) {
                    assert(opens_within_limit(b, i + 1, next)) by {
                        assert forall|k: int| i + 1 <= k < next && b[k] == 91u8 implies #[trigger] open_brackets(b, k + 1)
                            <= 128 by {
                            assert(i <= k < e);
                        }
                    }
                    assert(opens_within_limit(b, next, e)) by {
                        assert forall|k: int| next <= k < e && b[k] == 91u8 implies #[trigger] open_brackets(b, k + 1)
                            <= 128 by {
                            assert(i <= k < e);
                        }
                    }
                }
                if opens_within_limit(b, i + 1, next) && opens_within_limit(b, next, e) {
                    assert(opens_within_limit(b, i, e)) by {
                        assert forall|k: int| i <= k < e && b[k] == 91u8 implies #[trigger] open_brackets(b, k + 1)
                            <= 128 by {
                            if k == i {
                            } else if k < next {
                                assert(i + 1 <= k < next);
                            } else {
                                assert(next <= k < e);
                            }
                        }
                    }
                }
            } else {
                assert(!opens_within_limit(b, i, e)) by {
                    assert(i < e);
                    assert(b[i] == 91u8 && open_brackets(b, i + 1) > 128);
                }
            }
        } else if b[i] == 93u8 {
            assert(opens_within_limit(b, i, e)) by {
                assert forall|k: int| i <= k < e && b[k] == 91u8 implies #[trigger] open_brackets(b, k + 1) <= 128 by {
                    assert(k == i);
                }
            }
        } else {
            lemma_scan_bounded_limit(b, i + 1, d, m);
            if opens_within_limit(b, i + 1, e) {
                assert(opens_within_limit(b, i, e)) by {
                    assert forall|k: int| i <= k < e && b[k] == 91u8 implies #[trigger] open_brackets(b, k + 1)
                        <= 128 by {
                        if k > i {
                            assert(i + 1 <= k < e);
                        }
                    }
                }
            }
            if opens_within_limit(b, i, e) {
                assert(opens_within_limit(b, i + 1, e)) by {
                    assert forall|k: int| i + 1 <= k < e && b[k] == 91u8 implies #[trigger] open_brackets(b, k + 1)
                        <= 128 by {
                        assert(i <= k < e);
                    }
                }
            }
        }
    }
}

/// How the parse of a level at nesting `d` ends, and when the bounded parse
/// succeeds.
proof fn lemma_group_bounded_limit(b: Seq<u8>, pos: int, d: nat)
    requires
        0 <= pos <= b.len(),
        pos < b.len() ==> open_brackets(b, pos) == d,
    ensures
        group(b, pos).1 < b.len() ==> open_brackets(b, group(b, pos).1) == d - 1,
        group_bounded(b, pos, d) is Some <==> (d <= 128 && opens_within_limit(b, pos, group(b, pos).1)),
    decreases b.len() - pos, 1int,
{
    lemma_scan_bounded_limit(b, pos, d, 0);
}

/// The bounded parse succeeds exactly on expressions within the depth limit,
/// and then reports what the unbounded parse reports.
pub proof fn lemma_bounded_parse_succeeds_within_limit(b: Seq<u8>)
    ensures
        group_bounded(b, 0, 0) is Some <==> within_depth_limit(b),
        within_depth_limit(b) ==> group_bounded(b, 0, 0) == Some(group(b, 0)),
{
    lemma_group_bounded_limit(b, 0, 0);
    lemma_group_bounded_agrees(b, 0, 0);
}

fn parse_group_bounded(bytes: &[u8], pos: usize, depth: usize) -> (r: Option<(usize, usize)>)
    requires
        pos <= bytes@.len(),
        depth <= MAX_DEPTH + 1,
    ensures
        match (group_bounded(bytes@, pos as int, depth as nat), r) {
            (None, None) => true,
            (Some(v), Some(x)) => x.0 as nat == v.0 && x.1 as int == v.1,
            _ => false,
        },
    decreases bytes@.len() - pos,
{
    if depth > MAX_DEPTH {
        return None;
    }
    let n = bytes.len();
    let mut i = pos;
    let mut max_child: usize = 0;
    proof {
        lemma_group(bytes@, pos as int);
        lemma_group_bounded_agrees(bytes@, pos as int, depth as nat);
    }
    while i < n
        invariant
            n == bytes@.len(),
            pos <= i <= n,
            max_child <= i,
            depth <= MAX_DEPTH,
            group_bounded(bytes@, pos as int, depth as nat) == scan_bounded(
                bytes@,
                i as int,
                depth as nat,
                max_child as nat,
            ),
        decreases n - i,
    {
        if bytes[i] == 91u8 {
            let (child, next) = match parse_group_bounded(bytes, i + 1, depth + 1) {
                Some(v) => v,
                None => return None,
            };
            proof {
                lemma_group(bytes@, i + 1);
                lemma_group_bounded_agrees(bytes@, i + 1, (depth + 1) as nat);
            }
            max_child = if max_child >= child { max_child } else { child };
            i = next;
        } else if bytes[i] == 93u8 {
            return Some((max_child + 1, i + 1));
        } else {
            i += 1;
        }
    }
    Some((max_child, i))
}

/// Same grammar, refusing nesting deeper than `MAX_DEPTH`.
pub fn fixed_handle(_app: &App, req: &Request) -> (r: Response)
    ensures
        match group_bounded(encode_utf8(expression(req)), 0, 0) {
            None => r.status == 400 && r.body@ == "nesting too deep"@,
            Some(v) => r.status == 200 && r.body@ == "depth="@ + decimal(v.0),
        },
        within_depth_limit(encode_utf8(expression(req))) ==> answers(_app, req, r),
        !within_depth_limit(encode_utf8(expression(req))) ==> r.status == 400 && r.body@ == "nesting too deep"@,
{
    proof {
        lemma_bounded_parse_succeeds_within_limit(encode_utf8(expression(req)));
    }
    let expr = expr_of(req);
    let bytes = expr.as_bytes();
    assert(bytes@ == encode_utf8(expr@));
    match parse_group_bounded(bytes, 0, 0) {
        Some((depth, _)) => depth_response(depth),
        None => Response::err(400, owned("nesting too deep")),
    }
}

} // verus!
