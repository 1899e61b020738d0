//! Word counting over a request body read as 32-bit words. The router has no
//! route to this handler.

use vstd::prelude::*;
use crate::dvr::{App, Request, Response};
use crate::text::{decimal, decimal_string, owned, push_str};

verus! {

/// `word_count=<n>`, `n` the number of whole 4-byte words in the body.
pub fn handle(_app: &App, req: &Request) -> (r: Response)
    ensures
        r.status == 200,
        r.body@ == "word_count="@ + decimal((req.body@.len() / 4) as nat),
{
    let words = req.body.len() / 4;
    let mut out = owned("word_count=");
    push_str(&mut out, decimal_string(words as u64).as_str());
    Response::ok(out)
}

} // verus!
