//! Echo a truncated preview of a header value (`/headers/echo?h=<name>`).

use vstd::prelude::*;
use vstd::string::StringSliceAdditionalSpecFns;
use vstd::utf8::{encode_utf8, is_char_boundary};
use crate::dvr::{or_default, App, Request, Response};
use crate::text::{chars_of, owned, push_str, slice_chars, string_of};

verus! {

/// Number of bytes (vulnerable handler) or characters (fixed handler) shown.
pub const PREVIEW: usize = 16;

/// The header a request asks about (`h`, default `x-preview`).
pub open spec fn header_name(req: &Request) -> Seq<char> {
    or_default(req.query_spec("h"@), "x-preview"@)
}

/// The value of that header (empty when absent).
pub open spec fn header_value(req: &Request) -> Seq<char> {
    or_default(req.header_spec(header_name(req)), seq![])
}

/// The byte offset the vulnerable preview cuts at.
pub open spec fn preview_cut(value: Seq<char>) -> nat {
    let n = encode_utf8(value).len();
    if n < 16 {
        n
    } else {
        16
    }
}

fn value_of<'a>(req: &'a Request) -> (r: &'a str)
    ensures
        r@ == header_value(req),
{
    let name = match req.query_get("h") {
        Some(n) => n,
        None => "x-preview",
    };
    match req.header(name) {
        Some(v) => v,
        None => {
            proof {
                reveal_strlit("");
            }
            ""
        },
    }
}

/// What `handle` answers.
pub open spec fn answers(app: &App, req: &Request, r: Response) -> bool {
    &&& r.status == 200
    &&& r.body@.take(9) == "preview: "@
    &&& encode_utf8(r.body@.skip(9)) == encode_utf8(header_value(req)).take(
                preview_cut(header_value(req)) as int,
            )
}

/// The requests `handle` is defined on.
pub open spec fn admits(req: &Request) -> bool {
    &&& encode_utf8(header_value(req)).len() <= usize::MAX
    &&& is_char_boundary(encode_utf8(header_value(req)), preview_cut(header_value(req)) as int)
}

/// Shows the first sixteen bytes of the header value. Cutting inside a
/// multi-byte character is outside what this handler handles.
pub fn handle(_app: &App, req: &Request) -> (r: Response)
    requires
        admits(req),
    ensures
        answers(_app, req, r),
{
    let value = value_of(req);
    let n = value.len();
    let end = if n < PREVIEW { n } else { PREVIEW };
    assert(value.spec_bytes() == encode_utf8(value@));
    assert(end == preview_cut(value@));
    let (head, _tail) = value.split_at(end);
    assert(head.spec_bytes() == encode_utf8(head@));
    let mut out = owned("preview: ");
    let ghost prefix = out@;
    push_str(&mut out, head);
    proof {
        reveal_strlit("preview: ");
        assert(prefix.len() == 9);
        assert(out@.take(9) =~= prefix);
        assert(out@.skip(9) =~= head@);
        assert(encode_utf8(head@) =~= encode_utf8(header_value(req)).take(end as int));
    }
    Response::ok(out)
}

/// Shows the first sixteen characters of the header value.
pub fn fixed_handle(_app: &App, req: &Request) -> (r: Response)
    ensures
        r.status == 200,
        r.body@ == "preview: "@ + header_value(req).take(
            if header_value(req).len() < 16 { header_value(req).len() as int } else { 16 },
        ),
{
    let value = chars_of(value_of(req));
    let end = if value.len() < PREVIEW { value.len() } else { PREVIEW };
    let head = slice_chars(&value, 0, end);
    let mut out = owned("preview: ");
    let text = string_of(&head);
    push_str(&mut out, text.as_str());
    assert(head@ =~= value@.take(end as int));
    Response::ok(out)
}

} // verus!
