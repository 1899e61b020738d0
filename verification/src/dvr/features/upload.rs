//! Upload intake (`/upload`, headers `x-declared-size` and `x-repeat`).

use vstd::prelude::*;
use crate::dvr::{App, Request, Response};
use crate::text::{
    chars_of, decimal, decimal_string, hex, hex_chars, owned, parse_unsigned, parse_usize, push_str,
    string_of, zero_pad, zero_pad_chars,
};

verus! {

/// Largest declared size or expansion the fixed handler accepts (1 MiB).
pub const MAX_SIZE: usize = 1048576;

/// A header parsed as a `usize`, or `default`.
pub open spec fn header_number(req: &Request, name: Seq<char>, default: nat) -> nat {
    match req.header_spec(name) {
        Some(v) => match parse_unsigned(v, usize::MAX as nat) {
            Some(n) => n,
            None => default,
        },
        None => default,
    }
}

/// The size the client declares (`x-declared-size`, default 0).
pub open spec fn declared_size(req: &Request) -> nat {
    header_number(req, "x-declared-size"@, 0)
}

/// The expansion factor the client asks for (`x-repeat`, default 1).
pub open spec fn repeat_factor(req: &Request) -> nat {
    header_number(req, "x-repeat"@, 1)
}

/// `a * b`, saturating at `usize::MAX`.
pub open spec fn saturating_product(a: nat, b: nat) -> nat {
    if a * b > usize::MAX {
        usize::MAX as nat
    } else {
        a * b
    }
}

/// `buffered=<b> expanded_to=<e>`.
pub open spec fn upload_report(buffered: nat, expanded: nat) -> Seq<char> {
    "buffered="@ + decimal(buffered) + " expanded_to="@ + decimal(expanded)
}

fn number(req: &Request, name: &str, default: usize) -> (r: usize)
    ensures
        r == header_number(req, name@, default as nat),
{
    match req.header(name) {
        Some(v) => match parse_usize(&chars_of(v)) {
            Some(n) => n,
            None => default,
        },
        None => default,
    }
}

fn saturating_mul(a: usize, b: usize) -> (r: usize)
    ensures
        r == saturating_product(a as nat, b as nat),
{
    match a.checked_mul(b) {
        Some(v) => v,
        None => usize::MAX,
    }
}

fn report(buffered: usize, expanded: usize) -> (r: Response)
    ensures
        r.status == 200,
        r.body@ == upload_report(buffered as nat, expanded as nat),
{
    let mut out = owned("buffered=");
    push_str(&mut out, decimal_string(buffered as u64).as_str());
    push_str(&mut out, " expanded_to=");
    push_str(&mut out, decimal_string(expanded as u64).as_str());
    Response::ok(out)
}

/// What `handle` answers.
pub open spec fn answers(app: &App, req: &Request, r: Response) -> bool {
    &&& r.status == 200
    &&& r.body@ == upload_report(
                req.body@.len(),
                saturating_product(req.body@.len(), repeat_factor(req)),
            )
}

/// The requests `handle` is defined on.
pub open spec fn admits(req: &Request) -> bool {
    &&& declared_size(req) <= isize::MAX
}

/// Reserves a buffer of the client-declared size, copies the body into it,
/// and reports the body length and its expansion. A declared size beyond
/// what a byte buffer can hold is outside what this handler handles.
pub fn handle(_app: &App, req: &Request) -> (r: Response)
    requires
        admits(req),
    ensures
        answers(_app, req, r),
{
    let declared = number(req, "x-declared-size", 0);
    let mut buf: Vec<u8> = Vec::with_capacity(declared);
    buf.extend_from_slice(req.body.as_slice());
    let repeat = number(req, "x-repeat", 1);
    let expanded = saturating_mul(req.body.len(), repeat);
    report(buf.len(), expanded)
}

/// Enforces `MAX_SIZE` on the declared size and on the expansion first.
pub fn fixed_handle(_app: &App, req: &Request) -> (r: Response)
    ensures
        declared_size(req) > MAX_SIZE ==> r.status == 413 && r.body@ == "declared size too large"@,
        declared_size(req) <= MAX_SIZE && saturating_product(req.body@.len(), repeat_factor(req))
            > MAX_SIZE ==> r.status == 413 && r.body@ == "expansion too large"@,
        declared_size(req) <= MAX_SIZE && saturating_product(req.body@.len(), repeat_factor(req))
            <= MAX_SIZE ==> r.status == 200 && r.body@ == upload_report(
            req.body@.len(),
            saturating_product(req.body@.len(), repeat_factor(req)),
        ),
{
    let declared = number(req, "x-declared-size", 0);
    if declared > MAX_SIZE {
        return Response::err(413, owned("declared size too large"));
    }
    let repeat = number(req, "x-repeat", 1);
    let expanded = saturating_mul(req.body.len(), repeat);
    if expanded > MAX_SIZE {
        return Response::err(413, owned("expansion too large"));
    }
    let cap = if declared <= req.body.len() { declared } else { req.body.len() };
    let mut buf: Vec<u8> = Vec::with_capacity(cap);
    buf.extend_from_slice(req.body.as_slice());
    report(buf.len(), expanded)
}

/// Storage path under a generated id: `<upload_dir>/<seq as 16 hex digits>.blob`.
/// The client-supplied name is never used.
pub fn fixed_store(app: &App, _client_name: &str, seq: u64) -> (r: String)
    ensures
        r@ == app.config.upload_dir@ + "/"@ + zero_pad(hex(seq as nat), 16) + ".blob"@,
{
    let mut out = app.config.upload_dir.clone();
    push_str(&mut out, "/");
    let digits = hex_chars(seq);
    let padded = zero_pad_chars(&digits, 16);
    push_str(&mut out, string_of(&padded).as_str());
    push_str(&mut out, ".blob");
    out
}

} // verus!
