//! Login / token check (`/login`, header `x-token`).

use vstd::prelude::*;
use crate::dvr::{or_default, App, Request, Response};
use crate::text::{owned, push_str, str_eq};

verus! {

/// The token that authenticates.
pub const EXPECTED_TOKEN: &'static str = "s3cr3t-admin-token";

/// The token the request presents (empty when the header is absent).
pub open spec fn presented_token(req: &Request) -> Seq<char> {
    or_default(req.header_spec("x-token"@), seq![])
}

/// The header value, or the empty string.
fn presented<'a>(req: &'a Request) -> (r: &'a str)
    ensures
        r@ == presented_token(req),
{
    match req.header("x-token") {
        Some(v) => v,
        None => {
            proof {
                reveal_strlit("");
            }
            ""
        },
    }
}

/// What `handle` answers.
pub open spec fn answers(app: &App, req: &Request, r: Response) -> bool {
    &&& presented_token(req) == EXPECTED_TOKEN@ ==> r.status == 200 && r.body@ == "authenticated"@
    &&& presented_token(req) != EXPECTED_TOKEN@ ==> r.status == 401 && r.body@ == "unauthorized"@
}

/// Checks the presented token against the expected one.
pub fn handle(_app: &App, req: &Request) -> (r: Response)
    ensures
        answers(_app, req, r),
{
    handle_audited(_app, req).0
}

/// `handle`, with the audit line it writes for the attempt.
pub fn handle_audited(_app: &App, req: &Request) -> (r: (Response, String))
    ensures
        answers(_app, req, r.0),
        r.1@ == audit_line(req),
{
    let line = audit_record(req);
    let token = presented(req);
    if str_eq(token, EXPECTED_TOKEN) {
        (Response::ok(owned("authenticated")), line)
    } else {
        (Response::err(401, owned("unauthorized")), line)
    }
}

/// The audit line of a login attempt, carrying the presented token.
pub open spec fn audit_line(req: &Request) -> Seq<char> {
    "login attempt principal="@ + req.principal@ + " token="@ + presented_token(req) + " path="@ + req.path@
}

/// The audit line of a login attempt with the token left out.
pub open spec fn redacted_audit_line(req: &Request) -> Seq<char> {
    "login attempt principal="@ + req.principal@ + " token=<redacted> path="@ + req.path@
}

/// The audit line the login handler records: it carries the presented token.
pub fn audit_record(req: &Request) -> (r: String)
    ensures
        r@ == audit_line(req),
{
    let mut line = owned("login attempt principal=");
    push_str(&mut line, req.principal.as_str());
    push_str(&mut line, " token=");
    push_str(&mut line, presented(req));
    push_str(&mut line, " path=");
    push_str(&mut line, req.path.as_str());
    line
}

/// The audit line of the fixed handler: no credential material in it.
pub fn redacted_audit_record(req: &Request) -> (r: String)
    ensures
        r@ == redacted_audit_line(req),
{
    let mut line = owned("login attempt principal=");
    push_str(&mut line, req.principal.as_str());
    push_str(&mut line, " token=<redacted> path=");
    push_str(&mut line, req.path.as_str());
    line
}

/// Same verdict as `handle`, reached by a data-independent comparison.
pub fn fixed_handle(_app: &App, req: &Request) -> (r: Response)
    ensures
        presented_token(req) == EXPECTED_TOKEN@ ==> r.status == 200 && r.body@ == "authenticated"@,
        presented_token(req) != EXPECTED_TOKEN@ ==> r.status == 401 && r.body@ == "unauthorized"@,
{
    fixed_handle_audited(_app, req).0
}

/// `fixed_handle`, with the audit line it writes for the attempt: the token
/// is left out of it.
pub fn fixed_handle_audited(_app: &App, req: &Request) -> (r: (Response, String))
    ensures
        presented_token(req) == EXPECTED_TOKEN@ ==> r.0.status == 200 && r.0.body@ == "authenticated"@,
        presented_token(req) != EXPECTED_TOKEN@ ==> r.0.status == 401 && r.0.body@ == "unauthorized"@,
        r.1@ == redacted_audit_line(req),
{
    let line = redacted_audit_record(req);
    let token = presented(req);
    let a = token.as_bytes();
    let b = EXPECTED_TOKEN.as_bytes();
    let same = constant_time_eq(a, b);
    proof {
        vstd::utf8::encode_utf8_decode_utf8(token@);
        vstd::utf8::encode_utf8_decode_utf8(EXPECTED_TOKEN@);
    }
    if same {
        (Response::ok(owned("authenticated")), line)
    } else {
        (Response::err(401, owned("unauthorized")), line)
    }
}

/// The redacted audit line does not depend on the token: attempts that
/// differ only in the token they present write the same line.
pub proof fn lemma_redacted_line_ignores_token(a: &Request, b: &Request)
    requires
        a.principal@ == b.principal@,
        a.path@ == b.path@,
    ensures
        redacted_audit_line(a) == redacted_audit_line(b),
{
}

/// Comparison whose running time does not depend on where the inputs differ.
fn constant_time_eq(a: &[u8], b: &[u8]) -> (r: bool)
    ensures
        r == (a@ == b@),
{
    if a.len() != b.len() {
        return false;
    }
    let mut diff: u8 = 0;
    let mut i: usize = 0;
    while i < a.len()
        invariant
            a@.len() == b@.len(),
            i <= a@.len(),
            (diff == 0) == (forall|k: int| 0 <= k < i ==> a@[k] == b@[k]),
        decreases a@.len() - i,
    {
        let x = a[i];
        let y = b[i];
        let d = diff | (x ^ y);
        assert((diff | (x ^ y)) == 0 <==> (diff == 0 && x == y)) by (bit_vector);
        diff = d;
        i += 1;
    }
    assert(diff == 0 ==> a@ =~= b@);
    diff == 0
}

} // verus!
