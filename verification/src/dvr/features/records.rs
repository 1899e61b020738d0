//! Batch record builder (`/records/build`, body = newline-separated records).

use vstd::prelude::*;
use crate::dvr::{App, Request, Response};
use crate::text::{decimal, decimal_string, lines, lines_chars, lossy_text, owned, push_str, string_of, utf8_lossy};

verus! {

/// A record that owns its payload.
#[derive(Debug)]
pub struct Record {
    payload: String,
}

impl Record {
    /// The record's payload.
    pub closed spec fn payload_spec(&self) -> Seq<char> {
        self.payload@
    }

    /// Parse one line into a record; a line starting with `!` is rejected.
    fn parse(line: &str) -> (r: Result<Record, &'static str>)
        ensures
            line@.len() > 0 && line@[0] == '!' ==> r is Err && r->Err_0@ == "rejected record"@,
            !(line@.len() > 0 && line@[0] == '!') ==> r is Ok && r->Ok_0.payload_spec() == line@,
    {
        let chars = crate::text::chars_of(line);
        if chars.len() > 0 && chars[0] == '!' {
            return Err("rejected record");
        }
        Ok(Record { payload: owned(line) })
    }
}

/// A line the record parser rejects.
pub open spec fn rejected(line: Seq<char>) -> bool {
    line.len() > 0 && line[0] == '!'
}

/// Builds every record; a rejected line is outside what this builder
/// handles (it stops the build).
pub fn build(lines: &[&str]) -> (r: Vec<Record>)
    requires
        forall|i: int| 0 <= i < lines@.len() ==> !rejected((#[trigger] lines@[i])@),
    ensures
        r@.len() == lines@.len(),
        forall|i: int| 0 <= i < lines@.len() ==> (#[trigger] r@[i]).payload_spec() == lines@[i]@,
{
    let n = lines.len();
    let mut out: Vec<Record> = Vec::new();
    let mut i: usize = 0;
    while i < n
        invariant
            n == lines@.len(),
            forall|k: int| 0 <= k < lines@.len() ==> !rejected((#[trigger] lines@[k])@),
            i <= n,
            out@.len() == i,
            forall|k: int| 0 <= k < i ==> (#[trigger] out@[k]).payload_spec() == lines@[k]@,
        decreases n - i,
    {
        assert(!rejected(lines@[i as int]@));
        let rec = Record::parse(lines[i]).unwrap();
        out.push(rec);
        i += 1;
    }
    out
}

/// Builds every record, stopping at the first rejected line.
pub fn build_fixed(lines: &[&str]) -> (r: Result<Vec<Record>, &'static str>)
    ensures
        (exists|i: int| 0 <= i < lines@.len() && rejected((#[trigger] lines@[i])@)) ==> r is Err
            && r->Err_0@ == "rejected record"@,
        (forall|i: int| 0 <= i < lines@.len() ==> !rejected((#[trigger] lines@[i])@)) ==> r is Ok
            && r->Ok_0@.len() == lines@.len() && forall|i: int|
            0 <= i < lines@.len() ==> (#[trigger] r->Ok_0@[i]).payload_spec() == lines@[i]@,
{
    let mut out: Vec<Record> = Vec::new();
    let mut i: usize = 0;
    while i < lines.len()
        invariant
            i <= lines@.len(),
            out@.len() == i,
            forall|k: int| 0 <= k < i ==> !rejected((#[trigger] lines@[k])@),
            forall|k: int| 0 <= k < i ==> (#[trigger] out@[k]).payload_spec() == lines@[k]@,
        decreases lines@.len() - i,
    {
        match Record::parse(lines[i]) {
            Ok(rec) => out.push(rec),
            Err(e) => return Err(e),
        }
        i += 1;
    }
    Ok(out)
}

/// Lines of the body, read as text.
pub open spec fn body_lines(req: &Request) -> Seq<Seq<char>> {
    lines(utf8_lossy(req.body@))
}

/// The body's lines as owned strings.
fn line_strings(req: &Request) -> (r: Vec<String>)
    ensures
        r@.map_values(|s: String| s@) == body_lines(req),
{
    let text = lossy_text(req.body.as_slice());
    let ls = lines_chars(&text);
    let ghost lv = ls@.map_values(|v: Vec<char>| v@);
    let mut out: Vec<String> = Vec::new();
    let mut i: usize = 0;
    while i < ls.len()
        invariant
            i <= ls@.len(),
            lv == ls@.map_values(|v: Vec<char>| v@),
            out@.map_values(|s: String| s@) == lv.take(i as int),
        decreases ls@.len() - i,
    {
        let s = string_of(&ls[i]);
        let ghost before = out@.map_values(|s: String| s@);
        out.push(s);
        assert(lv[i as int] == ls@[i as int]@);
        assert(out@.map_values(|s: String| s@) =~= before.push(ls@[i as int]@));
        assert(lv.take(i as int).push(lv[i as int]) =~= lv.take(i + 1));
        i += 1;
    }
    assert(lv.take(ls@.len() as int) =~= lv);
    out
}

/// Borrowed views of the strings.
fn borrow_all(v: &Vec<String>) -> (r: Vec<&str>)
    ensures
        r@.len() == v@.len(),
        forall|i: int| 0 <= i < v@.len() ==> (#[trigger] r@[i])@ == v@[i]@,
{
    let mut out: Vec<&str> = Vec::new();
    let mut i: usize = 0;
    while i < v.len()
        invariant
            i <= v@.len(),
            out@.len() == i,
            forall|k: int| 0 <= k < i ==> (#[trigger] out@[k])@ == v@[k]@,
        decreases v@.len() - i,
    {
        out.push(v[i].as_str());
        i += 1;
    }
    out
}

/// `built=<n>`.
fn built(n: usize) -> (r: Response)
    ensures
        r.status == 200,
        r.body@ == "built="@ + decimal(n as nat),
{
    let mut out = owned("built=");
    push_str(&mut out, decimal_string(n as u64).as_str());
    Response::ok(out)
}

/// What `handle` answers.
pub open spec fn answers(app: &App, req: &Request, r: Response) -> bool {
    &&& r.status == 200
    &&& r.body@ == "built="@ + decimal(body_lines(req).len())
}

/// The requests `handle` is defined on: no rejected line.
pub open spec fn admits(req: &Request) -> bool {
    forall|i: int| 0 <= i < body_lines(req).len() ==> !rejected(#[trigger] body_lines(req)[i])
}

/// Builds the batch with `build`.
pub fn handle(_app: &App, req: &Request) -> (r: Response)
    requires
        admits(req),
    ensures
        answers(_app, req, r),
{
    let owned_lines = line_strings(req);
    let lines = borrow_all(&owned_lines);
    let ghost bl = body_lines(req);
    assert forall|i: int| 0 <= i < lines@.len() implies !rejected((#[trigger] lines@[i])@) by {
        assert(owned_lines@.map_values(|s: String| s@)[i] == owned_lines@[i]@);
        assert(lines@[i]@ == bl[i]);
    }
    let recs = build(lines.as_slice());
    built(recs.len())
}

/// Builds with `build_fixed`; a rejected line answers `400`.
pub fn fixed_handle(_app: &App, req: &Request) -> (r: Response)
    ensures
        (exists|i: int| 0 <= i < body_lines(req).len() && rejected(#[trigger] body_lines(req)[i]))
            ==> r.status == 400 && r.body@ == "rejected record"@,
        (forall|i: int| 0 <= i < body_lines(req).len() ==> !rejected(#[trigger] body_lines(req)[i]))
            ==> r.status == 200 && r.body@ == "built="@ + decimal(body_lines(req).len()),
{
    let owned_lines = line_strings(req);
    let lines = borrow_all(&owned_lines);
    let ghost bl = body_lines(req);
    assert forall|i: int| 0 <= i < lines@.len() implies (#[trigger] lines@[i])@ == bl[i] by {
        assert(owned_lines@.map_values(|s: String| s@)[i] == owned_lines@[i]@);
    }
    match build_fixed(lines.as_slice()) {
        Ok(recs) => {
            proof {
                assert forall|i: int| 0 <= i < bl.len() implies !rejected(#[trigger] bl[i]) by {
                    assert(lines@[i]@ == bl[i]);
                }
            }
            built(recs.len())
        },
        Err(e) => {
            proof {
                let i = choose|i: int| 0 <= i < lines@.len() && rejected((#[trigger] lines@[i])@);
                assert(rejected(bl[i]));
            }
            Response::err(400, owned(e))
        },
    }
}

/// On every batch the plain builder handles, the checking builder answers
/// what the plain one owes.
pub proof fn lemma_checked_build_agrees_on_clean_batches(app: &App, req: &Request, r: Response)
    requires
        admits(req),
        r.status == 200,
        r.body@ == "built="@ + decimal(body_lines(req).len()),
    ensures
        answers(app, req, r),
{
}

} // verus!
