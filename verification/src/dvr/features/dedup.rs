//! Request de-duplication (`/dedup`, body = newline-separated keys).

use vstd::prelude::*;
use crate::dvr::{App, Request, Response};
use crate::text::{chars_eq, decimal, decimal_string, lines, lines_chars, lossy_text, owned, push_str, utf8_lossy};

verus! {

/// A deterministic multiplicative hasher with no per-process key.
pub struct WeakHasher {
    pub state: u64,
}

/// The state after hashing `bytes` from state `h`.
pub open spec fn weak_step(h: u64, bytes: Seq<u8>) -> u64
    decreases bytes.len(),
{
    if bytes.len() == 0 {
        h
    } else {
        weak_step(h, bytes.drop_last()).wrapping_mul(0x0100_0000_01b3).wrapping_add(
            bytes.last() as u64,
        )
    }
}

impl Default for WeakHasher {
    fn default() -> (r: Self)
        ensures
            r.state == 0,
    {
        WeakHasher { state: 0 }
    }
}

impl WeakHasher {
    /// The hash: the current state.
    pub fn finish(&self) -> (r: u64)
        ensures
            r == self.state,
    {
        self.state
    }

    /// Folds `bytes` into the state.
    pub fn write(&mut self, bytes: &[u8])
        ensures
            final(self).state == weak_step(old(self).state, bytes@),
    {
        let mut h = self.state;
        let mut i: usize = 0;
        while i < bytes.len()
            invariant
                i <= bytes@.len(),
                h == weak_step(old(self).state, bytes@.take(i as int)),
            decreases bytes@.len() - i,
        {
            assert(bytes@.take(i + 1).drop_last() =~= bytes@.take(i as int));
            h = h.wrapping_mul(0x0100_0000_01b3).wrapping_add(bytes[i] as u64);
            i += 1;
        }
        assert(bytes@.take(bytes@.len() as int) =~= bytes@);
        self.state = h;
    }
}

/// Number of distinct entries of `ls`.
pub open spec fn distinct_count(ls: Seq<Seq<char>>) -> nat
    decreases ls.len(),
{
    if ls.len() == 0 {
        0
    } else if ls.drop_last().contains(ls.last()) {
        distinct_count(ls.drop_last())
    } else {
        distinct_count(ls.drop_last()) + 1
    }
}

/// Number of distinct lines of the body, read as text.
pub open spec fn distinct_lines(req: &Request) -> nat {
    distinct_count(lines(utf8_lossy(req.body@)))
}

/// Counts the distinct lines of `text`.
fn count_distinct(text: &Vec<char>) -> (r: u64)
    ensures
        r == distinct_count(lines(text@)),
{
    let ls = lines_chars(text);
    let ghost lv = ls@.map_values(|v: Vec<char>| v@);
    let mut seen: Vec<Vec<char>> = Vec::new();
    let mut i: usize = 0;
    while i < ls.len()
        invariant
            i <= ls@.len(),
            lv == ls@.map_values(|v: Vec<char>| v@),
            lv == lines(text@),
            seen@.len() == distinct_count(lv.take(i as int)),
            seen@.len() <= i,
            forall|l: Seq<char>|
                lv.take(i as int).contains(l) <==> seen@.map_values(|v: Vec<char>| v@).contains(l),
        decreases ls@.len() - i,
    {
        let line = &ls[i];
        assert(lv[i as int] == line@);
        let mut found = false;
        let mut k: usize = 0;
        while k < seen.len()
            invariant
                k <= seen@.len(),
                found == exists|m: int| 0 <= m < k && seen@[m]@ == line@,
            decreases seen@.len() - k,
        {
            if chars_eq(&seen[k], line) {
                found = true;
            }
            k += 1;
        }
        let ghost sv = seen@.map_values(|v: Vec<char>| v@);
        let ghost prev = lv.take(i as int);
        let ghost next = lv.take(i + 1);
        assert(next.drop_last() =~= prev);
        assert(forall|l: Seq<char>| prev.contains(l) <==> sv.contains(l));
        assert(next.last() == line@);
        if found {
            proof {
            let m = choose|m: int| 0 <= m < seen@.len() && seen@[m]@ == line@;
            assert(sv[m] == line@);
            assert(prev.contains(line@));
            assert forall|l: Seq<char>| next.contains(l) <==> prev.contains(l) by {
                if next.contains(l) {
                    let j = choose|j: int| 0 <= j < i + 1 && next[j] == l;
                    if j < i {
                        assert(prev[j] == l);
                    }
                }
                if prev.contains(l) {
                    let j = choose|j: int| 0 <= j < i && prev[j] == l;
                    assert(next[j] == l);
                }
            }
            }
        } else {
            assert(!sv.contains(line@)) by {
                if sv.contains(line@) {
                    let m = choose|m: int| 0 <= m < sv.len() && sv[m] == line@;
                    assert(seen@[m]@ == line@);
                }
            }
            let copy = crate::text::slice_chars(line, 0, line.len());
            assert(copy@ =~= line@);
            seen.push(copy);
            assert(seen@.map_values(|v: Vec<char>| v@) =~= sv.push(line@));
            proof {
            assert forall|l: Seq<char>| next.contains(l) <==> sv.push(line@).contains(
                l,
            ) by {
                if next.contains(l) {
                    let j = choose|j: int| 0 <= j < i + 1 && next[j] == l;
                    if j < i {
                        assert(prev[j] == l);
                        assert(sv.contains(l));
                        let m = choose|m: int| 0 <= m < sv.len() && sv[m] == l;
                        assert(sv.push(line@)[m] == l);
                    } else {
                        assert(sv.push(line@)[sv.len() as int] == l);
                    }
                }
                if sv.push(line@).contains(l) {
                    let m = choose|m: int| 0 <= m < sv.len() + 1 && sv.push(line@)[m] == l;
                    if m < sv.len() {
                        assert(sv[m] == l);
                        assert(prev.contains(l));
                        let j = choose|j: int| 0 <= j < i && prev[j] == l;
                        assert(next[j] == l);
                    } else {
                        assert(next[i as int] == l);
                    }
                }
            }
            }
        }
        i += 1;
    }
    assert(lv.take(ls@.len() as int) =~= lv);
    seen.len() as u64
}

/// `distinct=<n>` for the body's lines.
fn distinct_response(req: &Request) -> (r: Response)
    ensures
        r.status == 200,
        r.body@ == "distinct="@ + decimal(distinct_lines(req)),
{
    let text = lossy_text(req.body.as_slice());
    let n = count_distinct(&text);
    let mut out = owned("distinct=");
    let digits = decimal_string(n);
    push_str(&mut out, digits.as_str());
    Response::ok(out)
}

/// What `handle` answers.
pub open spec fn answers(app: &App, req: &Request, r: Response) -> bool {
    &&& r.status == 200
    &&& r.body@ == "distinct="@ + decimal(distinct_lines(req))
}

/// Counts distinct lines of the body (keyed by a predictable hash in the
/// table it fills).
pub fn handle(_app: &App, req: &Request) -> (r: Response)
    ensures
        answers(_app, req, r),
{
    distinct_response(req)
}

/// Counts distinct lines of the body with a per-process keyed table.
pub fn fixed_handle(_app: &App, req: &Request) -> (r: Response)
    ensures
        r.status == 200,
        r.body@ == "distinct="@ + decimal(distinct_lines(req)),
{
    distinct_response(req)
}

} // verus!
