//! The request-handling surface of a small internal service: requests that
//! have already been authenticated, the responses the handlers give, the
//! operator's configuration, and the router that dispatches by path.

use vstd::prelude::*;
use crate::text::{chars_of, eq_ignore_case, eq_ignore_case_chars, owned, str_eq};

pub mod db;
pub mod features;

verus! {

/// A parsed, already-authenticated request as it reaches feature handlers.
#[derive(Clone, Debug)]
pub struct Request {
    pub principal: String,
    pub is_admin: bool,
    pub path: String,
    pub query: Vec<(String, String)>,
    pub headers: Vec<(String, String)>,
    pub body: Vec<u8>,
    pub source: Source,
}

/// Where a request originated.
#[derive(Clone, Copy, Debug, PartialEq, Eq, Structural)]
pub enum Source {
    PublicEdge,
    InternalMesh,
}

/// Key/value pairs by the characters of their keys and values.
pub open spec fn pairs_view(p: Seq<(String, String)>) -> Seq<(Seq<char>, Seq<char>)> {
    p.map_values(|kv: (String, String)| (kv.0@, kv.1@))
}

/// Value of the first pair whose key equals `key`.
pub open spec fn lookup(pairs: Seq<(Seq<char>, Seq<char>)>, key: Seq<char>) -> Option<Seq<char>>
    decreases pairs.len(),
{
    if pairs.len() == 0 {
        None
    } else if pairs[0].0 == key {
        Some(pairs[0].1)
    } else {
        lookup(pairs.drop_first(), key)
    }
}

/// Value of the first pair whose key equals `key` up to ASCII case.
pub open spec fn lookup_ci(pairs: Seq<(Seq<char>, Seq<char>)>, key: Seq<char>) -> Option<
    Seq<char>,
>
    decreases pairs.len(),
{
    if pairs.len() == 0 {
        None
    } else if eq_ignore_case(pairs[0].0, key) {
        Some(pairs[0].1)
    } else {
        lookup_ci(pairs.drop_first(), key)
    }
}

/// `o`, or `d` when it is absent.
pub open spec fn or_default(o: Option<Seq<char>>, d: Seq<char>) -> Seq<char> {
    match o {
        Some(v) => v,
        None => d,
    }
}

impl Request {
    /// The query value for `key`.
    pub open spec fn query_spec(&self, key: Seq<char>) -> Option<Seq<char>> {
        lookup(pairs_view(self.query@), key)
    }

    /// The header value for `key` (header names compare up to ASCII case).
    pub open spec fn header_spec(&self, key: Seq<char>) -> Option<Seq<char>> {
        lookup_ci(pairs_view(self.headers@), key)
    }

    /// First query value whose key equals `key`.
    pub fn query_get(&self, key: &str) -> (r: Option<&str>)
        ensures
            match r {
                Some(v) => self.query_spec(key@) == Some(v@),
                None => self.query_spec(key@) is None,
            },
    {
        let mut i: usize = 0;
        let ghost all = pairs_view(self.query@);
        assert(all.skip(0) =~= all);
        while i < self.query.len()
            invariant
                i <= self.query@.len(),
                all == pairs_view(self.query@),
                lookup(all, key@) == lookup(all.skip(i as int), key@),
            decreases self.query@.len() - i,
        {
            assert(all.skip(i as int)[0] == (self.query@[i as int].0@, self.query@[i as int].1@));
            if str_eq(self.query[i].0.as_str(), key) {
                return Some(self.query[i].1.as_str());
            }
            assert(all.skip(i as int).drop_first() =~= all.skip(i + 1));
            i += 1;
        }
        None
    }

    /// First header value whose name equals `key` up to ASCII case.
    pub fn header(&self, key: &str) -> (r: Option<&str>)
        ensures
            match r {
                Some(v) => self.header_spec(key@) == Some(v@),
                None => self.header_spec(key@) is None,
            },
    {
        let key_chars = chars_of(key);
        let mut i: usize = 0;
        let ghost all = pairs_view(self.headers@);
        assert(all.skip(0) =~= all);
        while i < self.headers.len()
            invariant
                i <= self.headers@.len(),
                all == pairs_view(self.headers@),
                key_chars@ == key@,
                lookup_ci(all, key@) == lookup_ci(all.skip(i as int), key@),
            decreases self.headers@.len() - i,
        {
            assert(all.skip(i as int)[0] == (self.headers@[i as int].0@, self.headers@[i as int].1@));
            let name = chars_of(self.headers[i].0.as_str());
            if eq_ignore_case_chars(&name, &key_chars) {
                return Some(self.headers[i].1.as_str());
            }
            assert(all.skip(i as int).drop_first() =~= all.skip(i + 1));
            i += 1;
        }
        None
    }
}

/// A handler's answer: an HTTP-like status and a text body.
#[derive(Debug)]
pub struct Response {
    pub status: u16,
    pub body: String,
}

impl Response {
    /// A `200` response.
    pub fn ok(body: String) -> (r: Self)
        ensures
            r.status == 200,
            r.body@ == body@,
    {
        Response { status: 200, body }
    }

    /// A response with the given status.
    pub fn err(status: u16, body: String) -> (r: Self)
        ensures
            r.status == status,
            r.body@ == body@,
    {
        Response { status, body }
    }
}

/// The server's runtime configuration, set by the operator.
#[derive(Clone, Debug)]
pub struct Config {
    /// Command run by the post-processing hook.
    pub post_hook_command: Option<String>,
    /// Directory uploads are written to.
    pub upload_dir: String,
}

impl Default for Config {
    fn default() -> (r: Self)
        ensures
            r.post_hook_command is None,
            r.upload_dir@ == "/tmp/dvr-uploads"@,
    {
        Config { post_hook_command: None, upload_dir: owned("/tmp/dvr-uploads") }
    }
}

/// The application: the in-memory store and the operator's configuration.
pub struct App {
    pub db: db::Db,
    pub config: Config,
}

impl App {
    /// The application over the seeded store and the default configuration.
    pub fn new() -> (r: Self)
        ensures
            db::is_seeded(r.db),
            r.config.post_hook_command is None,
            r.config.upload_dir@ == "/tmp/dvr-uploads"@,
    {
        App { db: db::Db::seed(), config: Config::default() }
    }

    /// The application over the seeded store and the given configuration.
    pub fn with_config(config: Config) -> (r: Self)
        ensures
            db::is_seeded(r.db),
            r.config == config,
    {
        App { db: db::Db::seed(), config }
    }
}

impl Default for App {
    fn default() -> (r: Self)
        ensures
            db::is_seeded(r.db),
            r.config.post_hook_command is None,
            r.config.upload_dir@ == "/tmp/dvr-uploads"@,
    {
        Self::new()
    }
}

/// A `String` holding `a` followed by `b`.
pub fn join2(a: &str, b: &str) -> (r: String)
    ensures
        r@ == a@ + b@,
{
    crate::text::concat2(a, b)
}

/// The paths the router dispatches.
pub open spec fn is_route(p: Seq<char>) -> bool {
    p == "/users/search"@ || p == "/files/download"@ || p == "/documents/get"@ || p == "/headers/echo"@ || p == "/framing/read"@ || p == "/upload"@ || p == "/hook/run"@ || p == "/login"@ || p == "/validate"@ || p == "/proxy/fetch"@ || p == "/collect"@ || p == "/parse/nested"@ || p == "/cache/warm"@ || p == "/dedup"@ || p == "/records/build"@ || p == "/profile/update"@
}

/// The requests the router's handlers are defined on.
pub open spec fn route_admits(req: &Request) -> bool {
    &&& req.path@ == "/headers/echo"@ ==> features::header_parse::admits(req)
    &&& req.path@ == "/framing/read"@ ==> features::framing::admits(req)
    &&& req.path@ == "/upload"@ ==> features::upload::admits(req)
    &&& req.path@ == "/collect"@ ==> features::collect::admits(req)
    &&& req.path@ == "/cache/warm"@ ==> features::concurrency::admits(req)
    &&& req.path@ == "/records/build"@ ==> features::records::admits(req)
}

/// What the router answers: each route's handler answer, else `404`.
pub open spec fn routes(app: &App, req: &Request, r: Response) -> bool {
    &&& req.path@ == "/users/search"@ ==> features::user_search::answers(app, req, r)
    &&& req.path@ == "/files/download"@ ==> features::file_download::answers(app, req, r)
    &&& req.path@ == "/documents/get"@ ==> features::documents::answers(app, req, r)
    &&& req.path@ == "/headers/echo"@ ==> features::header_parse::answers(app, req, r)
    &&& req.path@ == "/framing/read"@ ==> features::framing::answers(app, req, r)
    &&& req.path@ == "/upload"@ ==> features::upload::answers(app, req, r)
    &&& req.path@ == "/hook/run"@ ==> features::hooks::answers(app, req, r)
    &&& req.path@ == "/login"@ ==> features::auth::answers(app, req, r)
    &&& req.path@ == "/validate"@ ==> features::validation::answers(app, req, r)
    &&& req.path@ == "/proxy/fetch"@ ==> features::proxy::answers(app, req, r)
    &&& req.path@ == "/collect"@ ==> features::collect::answers(app, req, r)
    &&& req.path@ == "/parse/nested"@ ==> features::nested::answers(app, req, r)
    &&& req.path@ == "/cache/warm"@ ==> features::concurrency::answers(app, req, r)
    &&& req.path@ == "/dedup"@ ==> features::dedup::answers(app, req, r)
    &&& req.path@ == "/records/build"@ ==> features::records::answers(app, req, r)
    &&& req.path@ == "/profile/update"@ ==> features::profile::answers(app, req, r)
    &&& !is_route(req.path@) ==> r.status == 404 && r.body@ == "not found"@
}

impl App {
    /// Route table: dispatches a request to its feature handler by path.
    pub fn handle(&self, req: &Request) -> (r: Response)
        requires
            route_admits(req),
        ensures
            routes(self, req, r),
    {
        let path = req.path.as_str();
        proof {
            reveal_strlit("/users/search");
            reveal_strlit("/files/download");
            reveal_strlit("/documents/get");
            reveal_strlit("/headers/echo");
            reveal_strlit("/framing/read");
            reveal_strlit("/upload");
            reveal_strlit("/hook/run");
            reveal_strlit("/login");
            reveal_strlit("/validate");
            reveal_strlit("/proxy/fetch");
            reveal_strlit("/collect");
            reveal_strlit("/parse/nested");
            reveal_strlit("/cache/warm");
            reveal_strlit("/dedup");
            reveal_strlit("/records/build");
            reveal_strlit("/profile/update");
            assert("/users/search"@.len() == 13);
            assert("/files/download"@.len() == 15);
            assert("/documents/get"@.len() == 14);
            assert("/headers/echo"@.len() == 13);
            assert("/framing/read"@.len() == 13);
            assert("/upload"@.len() == 7);
            assert("/hook/run"@.len() == 9);
            assert("/login"@.len() == 6);
            assert("/validate"@.len() == 9);
            assert("/proxy/fetch"@.len() == 12);
            assert("/collect"@.len() == 8);
            assert("/parse/nested"@.len() == 13);
            assert("/cache/warm"@.len() == 11);
            assert("/dedup"@.len() == 6);
            assert("/records/build"@.len() == 14);
            assert("/profile/update"@.len() == 15);
            assert("/users/search"@[1] != "/headers/echo"@[1]);
            assert("/users/search"@[1] != "/framing/read"@[1]);
            assert("/users/search"@[1] != "/parse/nested"@[1]);
            assert("/files/download"@[1] != "/profile/update"@[1]);
            assert("/documents/get"@[1] != "/records/build"@[1]);
            assert("/headers/echo"@[1] != "/framing/read"@[1]);
            assert("/headers/echo"@[1] != "/parse/nested"@[1]);
            assert("/framing/read"@[1] != "/parse/nested"@[1]);
            assert("/hook/run"@[1] != "/validate"@[1]);
            assert("/login"@[1] != "/dedup"@[1]);
        }
        if str_eq(path, "/users/search") {
            return features::user_search::handle(self, req);
        }
        if str_eq(path, "/files/download") {
            return features::file_download::handle(self, req);
        }
        if str_eq(path, "/documents/get") {
            return features::documents::handle(self, req);
        }
        if str_eq(path, "/headers/echo") {
            return features::header_parse::handle(self, req);
        }
        if str_eq(path, "/framing/read") {
            return features::framing::handle(self, req);
        }
        if str_eq(path, "/upload") {
            return features::upload::handle(self, req);
        }
        if str_eq(path, "/hook/run") {
            return features::hooks::handle(self, req);
        }
        if str_eq(path, "/login") {
            return features::auth::handle(self, req);
        }
        if str_eq(path, "/validate") {
            return features::validation::handle(self, req);
        }
        if str_eq(path, "/proxy/fetch") {
            return features::proxy::handle(self, req);
        }
        if str_eq(path, "/collect") {
            return features::collect::handle(self, req);
        }
        if str_eq(path, "/parse/nested") {
            return features::nested::handle(self, req);
        }
        if str_eq(path, "/cache/warm") {
            return features::concurrency::handle(self, req);
        }
        if str_eq(path, "/dedup") {
            return features::dedup::handle(self, req);
        }
        if str_eq(path, "/records/build") {
            return features::records::handle(self, req);
        }
        if str_eq(path, "/profile/update") {
            return features::profile::handle(self, req);
        }
        Response::err(404, owned("not found"))
    }
}

/// `k=v`.
pub open spec fn pair_text(p: (Seq<char>, Seq<char>)) -> Seq<char> {
    p.0 + "="@ + p.1
}

/// A query as the demo driver prints it: nothing when empty, else `?` and the
/// `k=v` pairs joined with `&`.
pub open spec fn query_text(pairs: Seq<(Seq<char>, Seq<char>)>) -> Seq<char> {
    if pairs.len() == 0 {
        Seq::empty()
    } else {
        "?"@ + crate::text::join(pairs.map_values(|p: (Seq<char>, Seq<char>)| pair_text(p)), "&"@)
    }
}

/// The request's query, printed.
pub fn fmt_query(r: &Request) -> (s: String)
    ensures
        s@ == query_text(pairs_view(r.query@)),
{
    let n = r.query.len();
    if n == 0 {
        return String::new();
    }
    let mut parts: Vec<Vec<char>> = Vec::new();
    let mut i: usize = 0;
    let ghost pv = pairs_view(r.query@);
    while i < n
        invariant
            n == r.query@.len(),
            pv == pairs_view(r.query@),
            i <= n,
            parts@.map_values(|v: Vec<char>| v@) == pv.take(i as int).map_values(
                |p: (Seq<char>, Seq<char>)| pair_text(p),
            ),
        decreases n - i,
    {
        let ghost before = parts@.map_values(|v: Vec<char>| v@);
        let mut part = crate::text::chars_of(r.query[i].0.as_str());
        part.push('=');
        crate::text::extend_chars(&mut part, &crate::text::chars_of(r.query[i].1.as_str()));
        proof {
            reveal_strlit("=");
            assert("="@ =~= seq!['=']);
        }
        assert(part@ =~= pair_text(pv[i as int]));
        parts.push(part);
        assert(parts@.map_values(|v: Vec<char>| v@) =~= before.push(pair_text(pv[i as int])));
        assert(pv.take(i + 1).map_values(|p: (Seq<char>, Seq<char>)| pair_text(p)) =~= pv.take(i as int).map_values(
            |p: (Seq<char>, Seq<char>)| pair_text(p),
        ).push(pair_text(pv[i as int])));
        i += 1;
    }
    assert(pv.take(n as int) =~= pv);
    let joined = crate::text::join_chars(&parts, &crate::text::chars_of("&"));
    let mut out = crate::text::owned("?");
    crate::text::push_str(&mut out, crate::text::string_of(&joined).as_str());
    out
}

impl App {
    /// Routes a request and gives the audit lines the handling writes: the
    /// login handler writes one, carrying the presented token.
    pub fn handle_audited(&self, req: &Request) -> (r: (Response, Vec<String>))
        requires
            route_admits(req),
        ensures
            routes(self, req, r.0),
            req.path@ == "/login"@ ==> r.1@.len() == 1 && r.1@[0]@ == features::auth::audit_line(req),
            req.path@ != "/login"@ ==> r.1@.len() == 0,
    {
        let resp = self.handle(req);
        let mut lines: Vec<String> = Vec::new();
        if str_eq(req.path.as_str(), "/login") {
            lines.push(features::auth::audit_record(req));
        }
        (resp, lines)
    }
}

} // verus!
