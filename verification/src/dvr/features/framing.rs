//! Length-prefixed frame reader (`/framing/read`).
//!
//! Body: a big-endian `u32` total length, then the payload.

use vstd::prelude::*;
use crate::dvr::{App, Request, Response};
use crate::text::{decimal, decimal_string, owned, push_str};

verus! {

/// Size of the length header.
pub const HEADER: usize = 4;

/// The big-endian `u32` in the first four bytes.
pub open spec fn declared_len(body: Seq<u8>) -> nat {
    body[0] as nat * 16777216 + body[1] as nat * 65536 + body[2] as nat * 256 + body[3] as nat
}

fn declared(buf: &Vec<u8>) -> (r: u32)
    requires
        buf@.len() >= 4,
    ensures
        r == declared_len(buf@),
{
    (buf[0] as u32) * 16777216 + (buf[1] as u32) * 65536 + (buf[2] as u32) * 256 + (buf[3] as u32)
}

/// The smaller of two numbers.
pub open spec fn min_nat(a: nat, b: nat) -> nat {
    if a <= b {
        a
    } else {
        b
    }
}

/// `declared=<d> payload_len=<p> taken=<t>`.
pub open spec fn frame_report(d: nat, p: nat, t: nat) -> Seq<char> {
    "declared="@ + decimal(d) + " payload_len="@ + decimal(p) + " taken="@ + decimal(t)
}

fn report(d: u64, p: u64, t: u64) -> (r: Response)
    ensures
        r.status == 200,
        r.body@ == frame_report(d as nat, p as nat, t as nat),
{
    let mut out = owned("declared=");
    push_str(&mut out, decimal_string(d).as_str());
    push_str(&mut out, " payload_len=");
    push_str(&mut out, decimal_string(p).as_str());
    push_str(&mut out, " taken=");
    push_str(&mut out, decimal_string(t).as_str());
    Response::ok(out)
}

/// What `handle` answers.
pub open spec fn answers(app: &App, req: &Request, r: Response) -> bool {
    &&& req.body@.len() < 4 ==> r.status == 400 && r.body@ == "short frame"@
    &&& req.body@.len() >= 4 ==> r.status == 200 && r.body@ == frame_report(
                declared_len(req.body@),
                (declared_len(req.body@) - 4) as nat,
                min_nat((declared_len(req.body@) - 4) as nat, (req.body@.len() - 4) as nat),
            )
}

/// The requests `handle` is defined on.
pub open spec fn admits(req: &Request) -> bool {
    &&& req.body@.len() >= 4 ==> declared_len(req.body@) >= 4
}

/// Reports the frame's declared, payload and available lengths. The payload
/// length is the declared length minus the header, so a declared length
/// below the header size is outside what this reader handles.
pub fn handle(_app: &App, req: &Request) -> (r: Response)
    requires
        admits(req),
    ensures
        answers(_app, req, r),
{
    let buf = &req.body;
    if buf.len() < HEADER {
        return Response::err(400, owned("short frame"));
    }
    let d = declared(buf);
    let payload_len = d as usize - HEADER;
    let available = buf.len() - HEADER;
    let taken = if payload_len <= available { payload_len } else { available };
    report(d as u64, payload_len as u64, taken as u64)
}

/// Checks the declared length against the header size and the frame before
/// using it.
pub fn fixed_handle(_app: &App, req: &Request) -> (r: Response)
    ensures
        req.body@.len() < 4 ==> r.status == 400 && r.body@ == "short frame"@,
        req.body@.len() >= 4 && declared_len(req.body@) < 4 ==> r.status == 400 && r.body@
            == "declared length below header size"@,
        req.body@.len() >= 4 && declared_len(req.body@) >= 4 && declared_len(req.body@) - 4
            > req.body@.len() - 4 ==> r.status == 400 && r.body@ == "declared length exceeds frame"@,
        req.body@.len() >= 4 && declared_len(req.body@) >= 4 && declared_len(req.body@) - 4
            <= req.body@.len() - 4 ==> r.status == 200 && r.body@ == frame_report(
            declared_len(req.body@),
            (declared_len(req.body@) - 4) as nat,
            (declared_len(req.body@) - 4) as nat,
        ),
{
    let buf = &req.body;
    if buf.len() < HEADER {
        return Response::err(400, owned("short frame"));
    }
    let d = declared(buf) as usize;
    let payload_len = match d.checked_sub(HEADER) {
        Some(n) => n,
        None => return Response::err(400, owned("declared length below header size")),
    };
    let available = buf.len() - HEADER;
    if payload_len > available {
        return Response::err(400, owned("declared length exceeds frame"));
    }
    report(d as u64, payload_len as u64, payload_len as u64)
}

/// Where the declared payload fits in the frame, the checking reader reports
/// what the plain reader reports.
pub proof fn lemma_checked_frame_agrees_when_payload_fits(app: &App, req: &Request, r: Response)
    requires
        req.body@.len() >= 4,
        declared_len(req.body@) >= 4,
        declared_len(req.body@) - 4 <= req.body@.len() - 4,
        r.status == 200,
        r.body@ == frame_report(
            declared_len(req.body@),
            (declared_len(req.body@) - 4) as nat,
            (declared_len(req.body@) - 4) as nat,
        ),
    ensures
        admits(req),
        answers(app, req, r),
{
}

} // verus!
