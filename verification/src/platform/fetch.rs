//! The fetch service's egress policy and the checks its guarded client makes
//! around a request. The requests themselves are sent by the caller.

use vstd::prelude::*;
use crate::text::{concat2, decimal, decimal_string, lossy_text, owned, push_str, str_eq, string_of, utf8_lossy};

verus! {

/// A URL by value: scheme, username, password, query, fragment, path,
/// origin.
pub type UrlView = (Seq<char>, Seq<char>, Option<Seq<char>>, Option<Seq<char>>, Option<Seq<char>>, Seq<char>, Seq<char>);

/// The parts of a parsed URL that the policy reads.
#[derive(Debug, Clone)]
pub struct UrlParts {
    pub scheme: String,
    pub username: String,
    pub password: Option<String>,
    pub query: Option<String>,
    pub fragment: Option<String>,
    pub path: String,
    /// The origin's ASCII serialization (`scheme://host[:port]`, or `null`).
    pub origin: String,
}

/// An optional string by value.
pub open spec fn opt_view(o: Option<String>) -> Option<Seq<char>> {
    match o {
        Some(s) => Some(s@),
        None => None,
    }
}

impl UrlParts {
    /// The parts by value: scheme, username, password, query, fragment,
    /// path, origin.
    pub open spec fn parts_view(&self) -> UrlView {
        (self.scheme@, self.username@, opt_view(self.password), opt_view(self.query), opt_view(self.fragment), self.path@, self.origin@)
    }
}

/// What `url::Url::parse` makes of a string: the parts (scheme, username,
/// password, query, fragment, path, origin's ASCII serialization) of the URL,
/// or the parse error's text.
pub uninterp spec fn url_parse(raw: Seq<char>) -> Result<(Seq<char>, Seq<char>, Option<Seq<char>>, Option<Seq<char>>, Option<Seq<char>>, Seq<char>, Seq<char>), Seq<char>>;

/// `url::Url::parse`, the URL taken apart by its getters (`scheme`,
/// `username`, `password`, `query`, `fragment`, `path`, and `origin()`'s
/// `ascii_serialization`), or the error's `Display` text. The contract only
/// names the result: the WHATWG parsing rules are the crate's.
#[verifier::external_body]
fn parse_url(raw: &str) -> (r: Result<UrlParts, String>)
    ensures
        url_parse(raw@) == match r {
            Ok(p) => Ok(p.parts_view()),
            Err(e) => Err(e@),
        },
{
    match url::Url::parse(raw) {
        Ok(u) => Ok(UrlParts {
            scheme: u.scheme().to_owned(),
            username: u.username().to_owned(),
            password: u.password().map(str::to_owned),
            query: u.query().map(str::to_owned),
            fragment: u.fragment().map(str::to_owned),
            path: u.path().to_owned(),
            origin: u.origin().ascii_serialization(),
        }),
        Err(e) => Err(e.to_string()),
    }
}

/// Why a fetch was refused or failed; the underlying errors by their text.
#[derive(Debug, Clone)]
pub enum FetchError {
    InvalidUrl(String),
    Request(String),
    InvalidAllowedOrigin { origin: String, reason: String },
    SchemeDenied(String),
    CredentialsDenied,
    FragmentDenied,
    OriginDenied(String),
    RedirectDenied(u16),
    ResponseTooLarge { limit: usize },
    InvalidResponseLimit,
}

impl FetchError {
    /// The error's description.
    pub fn message(&self) -> (r: String)
        ensures
            match self {
                FetchError::InvalidUrl(e) => r@ == "invalid URL: "@ + e@,
                FetchError::Request(e) => r@ == "HTTP request failed: "@ + e@,
                FetchError::InvalidAllowedOrigin { origin, reason } => r@ == "invalid allowed origin "@ + origin@ + ": "@ + reason@,
                FetchError::SchemeDenied(s) => r@ == "URL scheme is denied: "@ + s@,
                FetchError::CredentialsDenied => r@ == "URL credentials are denied"@,
                FetchError::FragmentDenied => r@ == "URL fragments are denied"@,
                FetchError::OriginDenied(o) => r@ == "origin is not in the egress allowlist: "@ + o@,
                FetchError::RedirectDenied(s) => r@ == "upstream redirect denied with status "@ + decimal(*s as nat),
                FetchError::ResponseTooLarge { limit } => r@ == "upstream response exceeds "@ + decimal(*limit as nat) + " bytes"@,
                FetchError::InvalidResponseLimit => r@ == "response limit must be greater than zero"@,
            },
    {
        match self {
            FetchError::InvalidUrl(e) => concat2("invalid URL: ", e.as_str()),
            FetchError::Request(e) => concat2("HTTP request failed: ", e.as_str()),
            FetchError::InvalidAllowedOrigin { origin, reason } => {
                let mut m = concat2("invalid allowed origin ", origin.as_str());
                push_str(&mut m, ": ");
                push_str(&mut m, reason.as_str());
                m
            },
            FetchError::SchemeDenied(s) => concat2("URL scheme is denied: ", s.as_str()),
            FetchError::CredentialsDenied => owned("URL credentials are denied"),
            FetchError::FragmentDenied => owned("URL fragments are denied"),
            FetchError::OriginDenied(o) => concat2("origin is not in the egress allowlist: ", o.as_str()),
            FetchError::RedirectDenied(s) => concat2("upstream redirect denied with status ", decimal_string(*s as u64).as_str()),
            FetchError::ResponseTooLarge { limit } => {
                let mut m = concat2("upstream response exceeds ", decimal_string(*limit as u64).as_str());
                push_str(&mut m, " bytes");
                m
            },
            FetchError::InvalidResponseLimit => owned("response limit must be greater than zero"),
        }
    }
}

/// What a fetch returns: the final status, the final URL, the body read as
/// UTF-8 (invalid sequences replaced).
#[derive(Debug, Clone, PartialEq, Eq)]
pub struct FetchResponse {
    pub status: u16,
    pub final_url: String,
    pub body: String,
}

impl FetchResponse {
    pub fn from_parts(status: u16, final_url: String, body: &[u8]) -> (r: FetchResponse)
        ensures
            r.status == status,
            r.final_url@ == final_url@,
            r.body@ == utf8_lossy(body@),
    {
        let text = lossy_text(body);
        FetchResponse { status, final_url, body: string_of(&text) }
    }
}

/// A response limit of zero is refused.
pub fn check_response_limit(max_response_bytes: usize) -> (r: Result<(), FetchError>)
    ensures
        max_response_bytes > 0 ==> r is Ok,
        max_response_bytes == 0 ==> r matches Err(FetchError::InvalidResponseLimit),
{
    if max_response_bytes == 0 {
        Err(FetchError::InvalidResponseLimit)
    } else {
        Ok(())
    }
}

/// The text of why a configured origin is not a bare origin.
pub open spec fn bare_origin_reason() -> Seq<char> {
    "expected a bare http(s) origin without credentials, path, query, or fragment"@
}

/// The scheme is one the policy serves.
pub open spec fn web_scheme(s: Seq<char>) -> bool {
    s == "http"@ || s == "https"@
}

/// A configured origin's canonical form, given how it parsed: the origin
/// serialization of a bare `http(s)` origin, else why it is refused.
pub open spec fn canonical_origin_spec(
    parsed: Result<UrlView, Seq<char>>,
) -> Result<Seq<char>, Seq<char>> {
    match parsed {
        Err(e) => Err(e),
        Ok((scheme, username, password, query, fragment, path, origin)) => if !web_scheme(scheme) || username.len() > 0
            || password is Some || query is Some || fragment is Some || path != "/"@ {
            Err(bare_origin_reason())
        } else {
            Ok(origin)
        },
    }
}

fn opt_is_some(o: &Option<String>) -> (r: bool)
    ensures
        r == (o is Some),
{
    match o {
        Some(_) => true,
        None => false,
    }
}

/// A configured origin's canonical form, from the result of parsing it.
pub fn origin_from_parse(raw: &str, parsed: Result<UrlParts, String>) -> (r: Result<String, FetchError>)
    ensures
        match (r, canonical_origin_spec(match parsed { Ok(p) => Ok(p.parts_view()), Err(e) => Err(e@) })) {
            (Ok(o), Ok(c)) => o@ == c,
            (Err(FetchError::InvalidAllowedOrigin { origin, reason }), Err(c)) => origin@ == raw@ && reason@ == c,
            _ => false,
        },
{
    match parsed {
        Err(e) => Err(FetchError::InvalidAllowedOrigin { origin: owned(raw), reason: e }),
        Ok(u) => {
            let web = str_eq(u.scheme.as_str(), "http") || str_eq(u.scheme.as_str(), "https");
            if !web || !u.username.as_str().is_empty() || opt_is_some(&u.password) || opt_is_some(&u.query)
                || opt_is_some(&u.fragment) || !str_eq(u.path.as_str(), "/") {
                proof {
                    if u.username@.len() == 0 {
                        assert(u.username@ =~= Seq::<char>::empty());
                    }
                }
                Err(FetchError::InvalidAllowedOrigin {
                    origin: owned(raw),
                    reason: owned("expected a bare http(s) origin without credentials, path, query, or fragment"),
                })
            } else {
                Ok(u.origin)
            }
        },
    }
}

/// A configured origin's canonical form.
fn canonical_configured_origin(raw: &str) -> (r: Result<String, FetchError>)
    ensures
        match (r, canonical_origin_spec(url_parse(raw@))) {
            (Ok(o), Ok(c)) => o@ == c,
            (Err(FetchError::InvalidAllowedOrigin { origin, reason }), Err(c)) => origin@ == raw@ && reason@ == c,
            _ => false,
        },
{
    let parsed = parse_url(raw);
    origin_from_parse(raw, parsed)
}

/// The allowed origins of the first `n` configured ones, or the first one
/// refused and why.
pub open spec fn policy_from(raws: Seq<Seq<char>>, n: int) -> Result<Set<Seq<char>>, (Seq<char>, Seq<char>)>
    decreases n,
{
    if n <= 0 {
        Ok(Set::empty())
    } else {
        match policy_from(raws, n - 1) {
            Err(e) => Err(e),
            Ok(s) => match canonical_origin_spec(url_parse(raws[n - 1])) {
                Err(reason) => Err((raws[n - 1], reason)),
                Ok(o) => Ok(s.insert(o)),
            },
        }
    }
}

/// Strings by value.
pub open spec fn string_views(v: Seq<String>) -> Seq<Seq<char>> {
    v.map_values(|s: String| s@)
}

/// The exact origins a guarded fetch may reach.
#[derive(Debug, Clone)]
pub struct EgressPolicy {
    allowed_origins: Vec<String>,
}

/// The verdict of the egress policy on a URL, in the order it checks.
#[derive(Debug, Clone, Copy, PartialEq, Eq, Structural)]
pub enum EgressVerdict {
    Allowed,
    SchemeDenied,
    CredentialsDenied,
    FragmentDenied,
    OriginDenied,
}

/// The policy's verdict on a URL, for the allowed origins `origins`.
pub open spec fn egress_verdict(origins: Set<Seq<char>>, u: UrlView) -> EgressVerdict {
    let (scheme, username, password, _query, fragment, _path, origin) = u;
    if !web_scheme(scheme) {
        EgressVerdict::SchemeDenied
    } else if username.len() > 0 || password is Some {
        EgressVerdict::CredentialsDenied
    } else if fragment is Some {
        EgressVerdict::FragmentDenied
    } else if !origins.contains(origin) {
        EgressVerdict::OriginDenied
    } else {
        EgressVerdict::Allowed
    }
}

/// `r` is what the policy answers to a URL `u`.
pub open spec fn validate_answers(r: Result<(), FetchError>, origins: Set<Seq<char>>, u: UrlView) -> bool {
    match (r, egress_verdict(origins, u)) {
        (Ok(()), EgressVerdict::Allowed) => true,
        (Err(FetchError::SchemeDenied(s)), EgressVerdict::SchemeDenied) => s@ == u.0,
        (Err(FetchError::CredentialsDenied), EgressVerdict::CredentialsDenied) => true,
        (Err(FetchError::FragmentDenied), EgressVerdict::FragmentDenied) => true,
        (Err(FetchError::OriginDenied(o)), EgressVerdict::OriginDenied) => o@ == u.6,
        _ => false,
    }
}

/// `r` is what a guarded fetch's preparation answers, given how the URL
/// parsed: the parse error, or the policy's answer.
pub open spec fn target_answers(r: Result<UrlParts, FetchError>, origins: Set<Seq<char>>, parsed: Result<UrlView, Seq<char>>) -> bool {
    match parsed {
        Err(e) => r matches Err(FetchError::InvalidUrl(t)) && t@ == e,
        Ok(u) => match r {
            Ok(v) => v.parts_view() == u && egress_verdict(origins, u) == EgressVerdict::Allowed,
            Err(e) => validate_answers(Err(e), origins, u),
        },
    }
}

impl EgressPolicy {
    /// The allowed origins.
    pub closed spec fn origins(&self) -> Set<Seq<char>> {
        string_views(self.allowed_origins@).to_set()
    }

    /// No origin is held twice.
    pub closed spec fn wf(&self) -> bool {
        string_views(self.allowed_origins@).no_duplicates()
    }

    /// The canonical origins of the configured ones; the first configured
    /// origin that is not a bare `http(s)` origin is refused.
    pub fn new(allowed_origins: &[String]) -> (r: Result<Self, FetchError>)
        ensures
            match (r, policy_from(string_views(allowed_origins@), allowed_origins@.len() as int)) {
                (Ok(p), Ok(s)) => p.wf() && p.origins() == s,
                (Err(FetchError::InvalidAllowedOrigin { origin, reason }), Err((o, c))) => origin@ == o && reason@ == c,
                _ => false,
            },
    {
        let n = allowed_origins.len();
        let ghost raws = string_views(allowed_origins@);
        let mut held: Vec<String> = Vec::new();
        let mut i: usize = 0;
        assert(string_views(held@).to_set() =~= Set::<Seq<char>>::empty());
        while i < n
            invariant
                n == allowed_origins@.len(),
                raws == string_views(allowed_origins@),
                i <= n,
                string_views(held@).no_duplicates(),
                policy_from(raws, i as int) == Ok::<Set<Seq<char>>, (Seq<char>, Seq<char>)>(string_views(held@).to_set()),
            decreases n - i,
        {
            assert(raws[i as int] == allowed_origins@[i as int]@);
            match canonical_configured_origin(allowed_origins[i].as_str()) {
                Err(e) => {
                    proof {
                        lemma_policy_refusal_stays(raws, i + 1, n as int);
                    }
                    return Err(e);
                },
                Ok(o) => {
                    let ghost before = string_views(held@);
                    if !holds(&held, o.as_str()) {
                        held.push(o);
                        assert(string_views(held@) =~= before.push(o@));
                        assert(string_views(held@).no_duplicates()) by {
                            assert forall|a: int, b: int| 0 <= a < b < string_views(held@).len()
                                implies string_views(held@)[a] != string_views(held@)[b] by {
                                if b == before.len() {
                                    assert(before.contains(before[a]));
                                }
                            }
                        }
                        proof {
                            before.lemma_push_to_set_commute(o@);
                        }
                    } else {
                        assert(before.to_set().insert(o@) =~= before.to_set());
                    }
                },
            }
            i += 1;
        }
        Ok(EgressPolicy { allowed_origins: held })
    }

    /// Refuses a URL whose scheme is not `http(s)`, that carries credentials
    /// or a fragment, or whose origin is not exactly an allowed one; its
    /// path and query are not looked at.
    pub fn validate(&self, url: &UrlParts) -> (r: Result<(), FetchError>)
        ensures
            validate_answers(r, self.origins(), url.parts_view()),
    {
        if !(str_eq(url.scheme.as_str(), "http") || str_eq(url.scheme.as_str(), "https")) {
            return Err(FetchError::SchemeDenied(url.scheme.clone()));
        }
        if !url.username.as_str().is_empty() || opt_is_some(&url.password) {
            proof {
                if url.username@.len() == 0 {
                    assert(url.username@ =~= Seq::<char>::empty());
                }
            }
            return Err(FetchError::CredentialsDenied);
        }
        if opt_is_some(&url.fragment) {
            return Err(FetchError::FragmentDenied);
        }
        if !holds(&self.allowed_origins, url.origin.as_str()) {
            return Err(FetchError::OriginDenied(url.origin.clone()));
        }
        Ok(())
    }

    /// The URL a guarded fetch may request: it must parse, and pass the
    /// policy.
    pub fn prepare(&self, raw_url: &str) -> (r: Result<UrlParts, FetchError>)
        ensures
            target_answers(r, self.origins(), url_parse(raw_url@)),
    {
        let parsed = parse_url(raw_url);
        self.check_target(parsed)
    }

    /// The URL a guarded fetch may request, from the result of parsing it.
    pub fn check_target(&self, parsed: Result<UrlParts, String>) -> (r: Result<UrlParts, FetchError>)
        ensures
            target_answers(r, self.origins(), match parsed { Ok(p) => Ok(p.parts_view()), Err(e) => Err(e@) }),
    {
        match parsed {
            Err(e) => Err(FetchError::InvalidUrl(e)),
            Ok(u) => {
                self.validate(&u)?;
                Ok(u)
            },
        }
    }
}

/// Whether `s` is held.
fn holds(v: &Vec<String>, s: &str) -> (r: bool)
    ensures
        r == string_views(v@).contains(s@),
{
    let mut i: usize = 0;
    while i < v.len()
        invariant
            i <= v@.len(),
            forall|k: int| 0 <= k < i ==> string_views(v@)[k] != s@,
        decreases v@.len() - i,
    {
        if str_eq(v[i].as_str(), s) {
            assert(string_views(v@)[i as int] == s@);
            return true;
        }
        i += 1;
    }
    false
}

/// Once a configured origin is refused, the policy stays refused.
proof fn lemma_policy_refusal_stays(raws: Seq<Seq<char>>, k: int, n: int)
    requires
        0 <= k <= n,
        policy_from(raws, k) is Err,
    ensures
        policy_from(raws, n) == policy_from(raws, k),
    decreases n - k,
{
    if k < n {
        lemma_policy_refusal_stays(raws, k, n - 1);
    }
}

/// A redirection status (3xx) is refused: the guarded client does not follow
/// redirects.
pub fn check_redirect(status: u16) -> (r: Result<(), FetchError>)
    ensures
        300 <= status < 400 ==> (r matches Err(FetchError::RedirectDenied(s)) && s == status),
        !(300 <= status < 400) ==> r is Ok,
{
    if 300 <= status && status < 400 {
        Err(FetchError::RedirectDenied(status))
    } else {
        Ok(())
    }
}

/// A declared length over the limit is refused before reading.
pub fn check_content_length(content_length: Option<u64>, max_response_bytes: usize) -> (r: Result<(), FetchError>)
    ensures
        (content_length matches Some(l) && l > max_response_bytes) ==> (r matches Err(FetchError::ResponseTooLarge { limit })
            && limit == max_response_bytes),
        !(content_length matches Some(l) && l > max_response_bytes) ==> r is Ok,
{
    match content_length {
        Some(l) => if l > max_response_bytes as u64 {
            Err(FetchError::ResponseTooLarge { limit: max_response_bytes })
        } else {
            Ok(())
        },
        None => Ok(()),
    }
}

/// Appends a chunk of the body, unless the body would then exceed the limit;
/// the body is left as it was on refusal.
pub fn accept_chunk(body: &mut Vec<u8>, chunk: &[u8], max_response_bytes: usize) -> (r: Result<(), FetchError>)
    ensures
        old(body)@.len() + chunk@.len() > max_response_bytes ==> (r matches Err(FetchError::ResponseTooLarge { limit })
            && limit == max_response_bytes && final(body)@ == old(body)@),
        old(body)@.len() + chunk@.len() <= max_response_bytes ==> r is Ok && final(body)@ == old(body)@ + chunk@,
{
    let n = chunk.len();
    if body.len() > max_response_bytes || n > max_response_bytes - body.len() {
        return Err(FetchError::ResponseTooLarge { limit: max_response_bytes });
    }
    let ghost start = body@;
    let mut i: usize = 0;
    while i < n
        invariant
            n == chunk@.len(),
            i <= n,
            body@ == start + chunk@.take(i as int),
        decreases n - i,
    {
        body.push(chunk[i]);
        assert(chunk@.take(i + 1) =~= chunk@.take(i as int).push(chunk@[i as int]));
        i += 1;
    }
    assert(chunk@.take(n as int) =~= chunk@);
    Ok(())
}

/// The policy looks at the scheme, the credentials, the fragment and the
/// origin only: a URL of an allowed origin is allowed whatever its path and
/// query.
pub proof fn lemma_verdict_ignores_path_and_query(origins: Set<Seq<char>>, u: UrlView, query: Option<Seq<char>>, path: Seq<char>)
    ensures
        egress_verdict(origins, u) == egress_verdict(origins, (u.0, u.1, u.2, query, u.4, path, u.6)),
{
}

/// An allowed URL is an `http(s)` URL without credentials or fragment whose
/// origin is exactly an allowed one.
pub proof fn lemma_allowed_means_listed(origins: Set<Seq<char>>, u: UrlView)
    ensures
        egress_verdict(origins, u) == EgressVerdict::Allowed <==> (web_scheme(u.0) && u.1.len() == 0 && u.2 is None
            && u.4 is None && origins.contains(u.6)),
{
}

} // verus!
