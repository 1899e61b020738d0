//! Fetch a document by id (`/documents/get?id=<n>`).

use vstd::prelude::*;
use crate::dvr::db::Document;
use crate::dvr::{App, Request, Response};
use crate::text::{chars_of, parse_u64, parse_unsigned, str_eq};

verus! {

/// The id a request names, when it parses as a `u64`.
pub open spec fn requested_id(req: &Request) -> Option<nat> {
    match req.query_spec("id"@) {
        Some(v) => parse_unsigned(v, u64::MAX as nat),
        None => None,
    }
}

/// The first document with the given id.
pub open spec fn find_document(docs: Seq<Document>, id: nat) -> Option<Document>
    decreases docs.len(),
{
    if docs.len() == 0 {
        None
    } else if docs[0].id == id {
        Some(docs[0])
    } else {
        find_document(docs.drop_first(), id)
    }
}

fn parse_id(req: &Request) -> (r: Option<u64>)
    ensures
        match requested_id(req) {
            Some(v) => r == Some(v as u64),
            None => r is None,
        },
{
    match req.query_get("id") {
        Some(v) => parse_u64(&chars_of(v)),
        None => None,
    }
}

fn find_doc(docs: &Vec<Document>, id: u64) -> (r: Option<usize>)
    ensures
        match find_document(docs@, id as nat) {
            Some(d) => r is Some && r->0 < docs@.len() && docs@[r->0 as int] == d,
            None => r is None,
        },
{
    let mut i: usize = 0;
    assert(docs@.skip(0) =~= docs@);
    while i < docs.len()
        invariant
            i <= docs@.len(),
            find_document(docs@, id as nat) == find_document(docs@.skip(i as int), id as nat),
        decreases docs@.len() - i,
    {
        if docs[i].id == id {
            return Some(i);
        }
        assert(docs@.skip(i as int).drop_first() =~= docs@.skip(i + 1));
        i += 1;
    }
    None
}

/// What `handle` answers.
pub open spec fn answers(app: &App, req: &Request, r: Response) -> bool {
    &&& match requested_id(req) {
                None => r.status == 400 && r.body@ == "bad id"@,
                Some(id) => match find_document(app.db.documents@, id) {
                    None => r.status == 404 && r.body@ == "not found"@,
                    Some(d) => r.status == 200 && r.body@ == d.body@,
                },
            }
}

/// Looks the document up and returns its body, whoever owns it.
pub fn handle(app: &App, req: &Request) -> (r: Response)
    ensures
        answers(app, req, r),
{
    let id = match parse_id(req) {
        Some(id) => id,
        None => return Response::err(400, crate::text::owned("bad id")),
    };
    match find_doc(&app.db.documents, id) {
        Some(i) => Response::ok(app.db.documents[i].body.clone()),
        None => Response::err(404, crate::text::owned("not found")),
    }
}

/// Returns the body only to the document's owner or to an admin.
pub fn fixed_handle(app: &App, req: &Request) -> (r: Response)
    ensures
        match requested_id(req) {
            None => r.status == 400 && r.body@ == "bad id"@,
            Some(id) => match find_document(app.db.documents@, id) {
                None => r.status == 404 && r.body@ == "not found"@,
                Some(d) => if d.owner@ != req.principal@ && !req.is_admin {
                    r.status == 403 && r.body@ == "forbidden"@
                } else {
                    r.status == 200 && r.body@ == d.body@
                },
            },
        },
{
    let id = match parse_id(req) {
        Some(id) => id,
        None => return Response::err(400, crate::text::owned("bad id")),
    };
    let i = match find_doc(&app.db.documents, id) {
        Some(i) => i,
        None => return Response::err(404, crate::text::owned("not found")),
    };
    let doc = &app.db.documents[i];
    if !str_eq(doc.owner.as_str(), req.principal.as_str()) && !req.is_admin {
        return Response::err(403, crate::text::owned("forbidden"));
    }
    Response::ok(doc.body.clone())
}

} // verus!
