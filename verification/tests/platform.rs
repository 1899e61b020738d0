use dvra::platform::api::{command_result, get_artifact_fixed, get_artifact_vulnerable, tenant_from_header};
use dvra::platform::cache::{PanicCell, SafeCell};
use dvra::platform::fetch::{
    accept_chunk, check_content_length, check_redirect, check_response_limit, origin_from_parse, EgressPolicy,
    FetchError, FetchResponse, UrlParts,
};
use dvra::platform::store::ArtifactStore;

#[test]
fn unscoped_lookup_crosses_tenant_boundary() {
    let store = ArtifactStore::seeded();
    let artifact = store.get_unscoped(2).expect("seeded artifact");
    assert_eq!(artifact.tenant, "red");
}

#[test]
fn scoped_lookup_blocks_other_tenant() {
    let store = ArtifactStore::seeded();
    assert!(store.get_scoped("blue", 2).is_none());
}

#[test]
fn scoped_lookup_serves_the_owner() {
    let store = ArtifactStore::seeded();
    let a = store.get_scoped("red", 2).expect("owner reads");
    assert_eq!(a.name, "acquisition-plan.zip");
    assert_eq!(a.classification, "restricted");
    assert!(store.get_unscoped(3).is_none());
    assert!(ArtifactStore::default().get_unscoped(1).is_none());
}

fn policy() -> EgressPolicy {
    EgressPolicy::new(&["https://updates.example.invalid".to_owned()]).expect("valid test policy")
}

#[test]
fn exact_allowed_origin_accepts_arbitrary_paths() {
    let url = policy()
        .prepare("https://updates.example.invalid/releases/latest?arch=x86_64")
        .expect("origin should be allowed");
    assert_eq!(url.origin, "https://updates.example.invalid");
    assert_eq!(url.path, "/releases/latest");
    assert_eq!(url.query.as_deref(), Some("arch=x86_64"));
}

#[test]
fn metadata_service_origin_is_denied() {
    let error = policy()
        .prepare("http://metadata:8081/latest/meta-data/iam/security-credentials/dvra")
        .expect_err("metadata must be denied");
    assert!(matches!(error, FetchError::OriginDenied(_)));
    assert_eq!(error.message(), "origin is not in the egress allowlist: http://metadata:8081");
}

#[test]
fn configured_origin_must_not_include_a_path() {
    let error = EgressPolicy::new(&["https://updates.example.invalid/releases".to_owned()])
        .expect_err("path-bearing origin must be rejected");
    assert!(matches!(error, FetchError::InvalidAllowedOrigin { .. }));
}

#[test]
fn policy_refuses_schemes_credentials_and_fragments() {
    let p = policy();
    assert!(matches!(p.prepare("ftp://updates.example.invalid/x"), Err(FetchError::SchemeDenied(s)) if s == "ftp"));
    assert!(matches!(p.prepare("https://u:pw@updates.example.invalid/"), Err(FetchError::CredentialsDenied)));
    assert!(matches!(p.prepare("https://updates.example.invalid/#top"), Err(FetchError::FragmentDenied)));
    assert!(matches!(p.prepare("not a url"), Err(FetchError::InvalidUrl(_))));
    assert!(p.prepare("https://updates.example.invalid:443/").is_ok());
}

#[test]
fn configured_origins_are_canonicalized() {
    let p = EgressPolicy::new(&["HTTPS://Updates.Example.Invalid:443/".to_owned(), "http://a.invalid:8080".to_owned()])
        .expect("bare origins");
    assert!(p.prepare("https://updates.example.invalid/x").is_ok());
    assert!(p.prepare("http://a.invalid:8080/y").is_ok());
    assert!(matches!(p.prepare("http://a.invalid/y"), Err(FetchError::OriginDenied(o)) if o == "http://a.invalid"));
    match EgressPolicy::new(&["not a url".to_owned()]) {
        Err(FetchError::InvalidAllowedOrigin { origin, reason }) => {
            assert_eq!(origin, "not a url");
            assert!(!reason.is_empty());
        }
        other => panic!("unexpected {other:?}"),
    }
}

#[test]
fn origin_from_parse_requires_a_bare_origin() {
    let parts = UrlParts {
        scheme: "https".to_owned(),
        username: String::new(),
        password: None,
        query: Some("q".to_owned()),
        fragment: None,
        path: "/".to_owned(),
        origin: "https://h".to_owned(),
    };
    match origin_from_parse("https://h/?q", Ok(parts.clone())) {
        Err(FetchError::InvalidAllowedOrigin { origin, reason }) => {
            assert_eq!(origin, "https://h/?q");
            assert_eq!(reason, "expected a bare http(s) origin without credentials, path, query, or fragment");
        }
        other => panic!("unexpected {other:?}"),
    }
    let bare = UrlParts { query: None, ..parts };
    assert_eq!(origin_from_parse("https://h", Ok(bare)).expect("bare"), "https://h");
}

#[test]
fn response_checks() {
    assert!(matches!(check_response_limit(0), Err(FetchError::InvalidResponseLimit)));
    assert!(check_response_limit(1).is_ok());
    assert!(matches!(check_redirect(302), Err(FetchError::RedirectDenied(302))));
    assert!(check_redirect(200).is_ok());
    assert!(check_redirect(400).is_ok());
    assert!(matches!(check_content_length(Some(5000), 4096), Err(FetchError::ResponseTooLarge { limit: 4096 })));
    assert!(check_content_length(Some(4096), 4096).is_ok());
    assert!(check_content_length(None, 4096).is_ok());
    let mut body = Vec::new();
    assert!(accept_chunk(&mut body, b"abc", 4).is_ok());
    assert!(accept_chunk(&mut body, b"de", 4).is_err());
    assert_eq!(body, b"abc");
    assert!(accept_chunk(&mut body, b"d", 4).is_ok());
    assert_eq!(body, b"abcd");
    assert_eq!(FetchError::ResponseTooLarge { limit: 4 }.message(), "upstream response exceeds 4 bytes");
    assert_eq!(FetchError::RedirectDenied(302).message(), "upstream redirect denied with status 302");
}

#[test]
fn response_body_is_read_lossily() {
    let r = FetchResponse::from_parts(200, "http://x/".to_owned(), b"ok\xff");
    assert_eq!(r.body, "ok\u{fffd}");
    assert_eq!(r.status, 200);
}

#[test]
fn artifact_routes() {
    let store = ArtifactStore::seeded();
    let a = get_artifact_vulnerable(&store, Some("blue"), 2).expect("unscoped route serves any tenant");
    assert_eq!(a.tenant, "red");
    let e = get_artifact_fixed(&store, Some("blue"), 2).expect_err("scoped route");
    assert_eq!(e.status, 404);
    assert_eq!(e.message, "artifact not found");
    assert_eq!(get_artifact_fixed(&store, Some("red"), 2).expect("owner").id, 2);
    assert_eq!(get_artifact_vulnerable(&store, Some(""), 2).expect_err("no tenant").status, 400);
    assert_eq!(tenant_from_header(None).expect_err("missing").message, "missing x-tenant header");
    assert_eq!(tenant_from_header(Some("blue")).expect("tenant"), "blue");
}

#[test]
fn command_results() {
    let r = command_result(None, b"out", b"e\xffrr");
    assert_eq!(r.status, -1);
    assert_eq!(r.stdout, "out");
    assert_eq!(r.stderr, "e\u{fffd}rr");
    assert_eq!(command_result(Some(3), b"", b"").status, 3);
}

#[test]
fn cells_replace_in_place() {
    let mut cell = PanicCell::new(String::from("value"));
    cell.replace_with(|old| old + "!");
    assert_eq!(cell.get(), "value!");
    let mut safe = SafeCell::new(2u32);
    safe.replace_with(|v| v * 10);
    assert_eq!(safe.get(), Some(&20));
}
