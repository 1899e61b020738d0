use dvra::dvr::features::{
    auth, collect, dedup, documents, file_download, framing, header_parse, hooks, native, nested, profile, proxy,
    records, upload, user_search, validation,
};
use dvra::dvr::{App, Config, Request, Source};

fn request(path: &str, query: Vec<(&str, &str)>, headers: Vec<(&str, &str)>, body: Vec<u8>, source: Source) -> Request {
    Request {
        principal: "alice".to_string(),
        is_admin: false,
        path: path.to_string(),
        query: query.into_iter().map(|(k, v)| (k.to_string(), v.to_string())).collect(),
        headers: headers.into_iter().map(|(k, v)| (k.to_string(), v.to_string())).collect(),
        body,
        source,
    }
}

// ---- auth ----

fn login(token: &str) -> Request {
    request("/login", vec![], vec![("x-token", token)], vec![], Source::PublicEdge)
}

#[test]
fn correct_token_authenticates() {
    let app = App::new();
    assert_eq!(auth::handle(&app, &login(auth::EXPECTED_TOKEN)).status, 200);
}

#[test]
fn wrong_token_rejected() {
    let app = App::new();
    assert_eq!(auth::handle(&app, &login("nope")).status, 401);
    assert_eq!(auth::fixed_handle(&app, &login("nope")).status, 401);
}

#[test]
fn fixed_still_authenticates_correct_token() {
    let app = App::new();
    assert_eq!(auth::fixed_handle(&app, &login(auth::EXPECTED_TOKEN)).status, 200);
}

// ---- collect ----

fn collect_req(len_header: Option<&str>, body: Vec<u8>) -> Request {
    let headers = match len_header {
        Some(v) => vec![("x-len", v)],
        None => vec![],
    };
    request("/collect", vec![], headers, body, Source::PublicEdge)
}

#[test]
fn honest_length_is_fine() {
    let app = App::new();
    let r = collect::handle(&app, &collect_req(None, vec![1, 2, 3, 4]));
    assert_eq!(r.body, "sum=10");
}

#[test]
fn fixed_clamps_a_lying_length() {
    let app = App::new();
    let r = collect::fixed_handle(&app, &collect_req(Some("1000000"), vec![1, 2, 3, 4]));
    assert_eq!(r.body, "sum=10");
}

// ---- dedup ----

fn dedup_req(body: &str) -> Request {
    request("/dedup", vec![], vec![], body.as_bytes().to_vec(), Source::PublicEdge)
}

#[test]
fn counts_distinct_lines() {
    let app = App::new();
    assert_eq!(dedup::handle(&app, &dedup_req("a\nb\na\nc")).body, "distinct=3");
    assert_eq!(dedup::fixed_handle(&app, &dedup_req("a\nb\na\nc")).body, "distinct=3");
}

fn weak_hash(s: &str) -> u64 {
    let mut h = dedup::WeakHasher::default();
    h.write(s.as_bytes());
    h.finish()
}

#[test]
fn weak_hasher_collides_predictably() {
    assert_eq!(weak_hash("abc"), weak_hash("abc"));
}

// ---- documents ----

fn doc_req(principal: &str, id: &str) -> Request {
    let mut r = request("/documents/get", vec![("id", id)], vec![], vec![], Source::PublicEdge);
    r.principal = principal.to_string();
    r
}

#[test]
fn alice_can_read_bobs_doc() {
    let app = App::new();
    let r = documents::handle(&app, &doc_req("alice", "11"));
    assert_eq!(r.body, "bob's private notes");
}

#[test]
fn fixed_denies_cross_owner() {
    let app = App::new();
    let r = documents::fixed_handle(&app, &doc_req("alice", "11"));
    assert_eq!(r.status, 403);
}

// ---- file download ----

fn download_req(name: &str) -> Request {
    request("/files/download", vec![("name", name)], vec![], vec![], Source::PublicEdge)
}

#[test]
fn traversal_escapes_upload_dir() {
    let app = App::new();
    let r = file_download::handle(&app, &download_req("../../etc/passwd"));
    assert!(r.body.contains("../../etc/passwd"));
    assert_eq!(file_download::fixed_handle(&app, &download_req("../../etc/passwd")).status, 400);
}

#[test]
fn fixed_rejects_traversal() {
    let app = App::new();
    let r = file_download::fixed_handle(&app, &download_req("../../etc/passwd"));
    assert_eq!(r.status, 400);
}

// ---- framing ----

fn frame_req(body: Vec<u8>) -> Request {
    request("/framing/read", vec![], vec![], body, Source::PublicEdge)
}

#[test]
fn well_formed_frame() {
    let app = App::new();
    let mut body = 8u32.to_be_bytes().to_vec();
    body.extend_from_slice(&[1, 2, 3, 4]);
    let r = framing::handle(&app, &frame_req(body));
    assert!(r.body.contains("payload_len=4"));
}

#[test]
fn fixed_rejects_small_declared() {
    let app = App::new();
    let body = 2u32.to_be_bytes().to_vec();
    let r = framing::fixed_handle(&app, &frame_req(body));
    assert_eq!(r.status, 400);
}

// ---- header preview ----

fn header_req(value: &str) -> Request {
    request("/headers/echo", vec![("h", "x-note")], vec![("x-note", value)], vec![], Source::PublicEdge)
}

#[test]
fn ascii_preview_is_fine() {
    let app = App::new();
    let r = header_parse::handle(&app, &header_req("hello world this is long"));
    assert_eq!(r.body, "preview: hello world this");
}

#[test]
fn fixed_handles_multibyte() {
    let app = App::new();
    let value = format!("{}{}", "a".repeat(15), "é");
    let r = header_parse::fixed_handle(&app, &header_req(&value));
    assert!(r.body.starts_with("preview: "));
}

// ---- hooks ----

fn app_with_hook(cmd: &str) -> App {
    App::with_config(Config { post_hook_command: Some(cmd.to_string()), upload_dir: "/tmp/dvr-uploads".to_string() })
}

fn hook_req(source: Source, arg: &str) -> Request {
    request("/hook/run", vec![("arg", arg)], vec![], vec![], source)
}

#[test]
fn benign_when_config_is_trusted_and_static() {
    let app = app_with_hook("/usr/local/bin/reindex --all");
    let r = hooks::handle(&app, &hook_req(Source::InternalMesh, ""));
    assert!(r.body.contains("reindex"));
}

#[test]
fn becomes_injection_when_request_data_is_templated() {
    let app = app_with_hook("/usr/local/bin/reindex $ARG");
    let r = hooks::handle(&app, &hook_req(Source::PublicEdge, "; cat /etc/passwd"));
    assert!(r.body.contains("cat /etc/passwd"));
}

#[test]
fn fixed_blocks_edge_and_templating() {
    let app = app_with_hook("/usr/local/bin/reindex $ARG");
    assert_eq!(hooks::fixed_handle(&app, &hook_req(Source::PublicEdge, "x")).status, 403);
    assert_eq!(hooks::fixed_handle(&app, &hook_req(Source::InternalMesh, "x")).status, 500);
}

// ---- native ----

#[test]
fn helper_is_never_wired_into_router() {
    let app = App::new();
    let req = request("/native/words", vec![], vec![], vec![0u8; 8], Source::PublicEdge);
    let routed = app.handle(&req);
    assert_eq!(routed.status, 404);
    assert_eq!(native::handle(&app, &req).body, "word_count=2");
}

// ---- nested ----

fn nested_req(expr: &str) -> Request {
    request("/parse/nested", vec![("expr", expr)], vec![], vec![], Source::PublicEdge)
}

#[test]
fn shallow_nesting_ok() {
    let app = App::new();
    assert_eq!(nested::handle(&app, &nested_req("[[]]")).body, "depth=2");
    assert_eq!(nested::handle(&app, &nested_req("[a][b]")).body, "depth=1");
}

#[test]
fn fixed_rejects_deep_nesting() {
    let app = App::new();
    let deep = "[".repeat(10_000);
    assert_eq!(nested::fixed_handle(&app, &nested_req(&deep)).status, 400);
}

#[test]
fn vulnerable_and_fixed_agree_on_shallow() {
    let app = App::new();
    let v = nested::handle(&app, &nested_req("[[[]]]")).body;
    let f = nested::fixed_handle(&app, &nested_req("[[[]]]")).body;
    assert_eq!(v, f);
}

// ---- profile ----

fn profile_req(body: &str) -> Request {
    request("/profile/update", vec![], vec![], body.as_bytes().to_vec(), Source::PublicEdge)
}

#[test]
fn normal_update_changes_allowed_fields() {
    let app = App::new();
    let r = profile::handle(&app, &profile_req(r#"{"display_name":"Alice","bio":"hi"}"#));
    assert!(r.body.contains("name=Alice"));
    assert!(r.body.contains("admin=false"));
}

#[test]
fn mass_assignment_escalates() {
    let app = App::new();
    let r = profile::handle(&app, &profile_req(r#"{"display_name":"x","is_admin":true,"role":"admin"}"#));
    assert!(r.body.contains("admin=true"));
    assert!(r.body.contains("role=admin"));
}

#[test]
fn fixed_ignores_privileged_fields() {
    let app = App::new();
    let r = profile::fixed_handle(&app, &profile_req(r#"{"display_name":"x","is_admin":true,"role":"admin"}"#));
    assert!(r.body.contains("admin=false"));
    assert!(r.body.contains("role=user"));
}

// ---- proxy ----

fn proxy_req(path: &str) -> Request {
    request("/proxy/fetch", vec![("path", path)], vec![], vec![], Source::PublicEdge)
}

#[test]
fn direct_admin_is_blocked() {
    let app = App::new();
    assert_eq!(proxy::handle(&app, &proxy_req("/admin/keys")).status, 403);
}

#[test]
fn double_encoded_admin_bypasses_guard() {
    let app = App::new();
    let r = proxy::handle(&app, &proxy_req("%252fadmin%252fkeys"));
    assert_eq!(r.status, 200);
    assert_eq!(r.body, "served: /admin/keys");
}

#[test]
fn parser_equivalence_is_violated_by_that_input() {
    assert!(!proxy::parser_equivalence_holds("%252fadmin%252fkeys"));
}

#[test]
fn fixed_blocks_the_bypass_and_preserves_invariant() {
    let app = App::new();
    assert_eq!(proxy::fixed_handle(&app, &proxy_req("%252fadmin%252fkeys")).status, 403);
    assert!(proxy::parser_equivalence_holds_fixed("%252fadmin%252fkeys"));
    assert!(proxy::parser_equivalence_holds_fixed("/admin/keys"));
    assert!(proxy::parser_equivalence_holds_fixed("/public/x"));
}

// ---- records ----

fn records_req(body: &str) -> Request {
    request("/records/build", vec![], vec![], body.as_bytes().to_vec(), Source::PublicEdge)
}

#[test]
fn all_valid_lines_build() {
    let app = App::new();
    assert_eq!(records::handle(&app, &records_req("a\nb\nc")).body, "built=3");
}

#[test]
fn fixed_returns_error_without_unsound_state() {
    let app = App::new();
    assert_eq!(records::fixed_handle(&app, &records_req("a\n!bad\nc")).status, 400);
    assert_eq!(records::fixed_handle(&app, &records_req("a\nb")).body, "built=2");
}

// ---- upload ----

fn upload_req(declared: &str, repeat: &str, body: Vec<u8>) -> Request {
    request("/upload", vec![], vec![("x-declared-size", declared), ("x-repeat", repeat)], body, Source::PublicEdge)
}

#[test]
fn fixed_rejects_huge_declaration() {
    let app = App::new();
    let r = upload::fixed_handle(&app, &upload_req("999999999999", "1", vec![1, 2, 3]));
    assert_eq!(r.status, 413);
}

#[test]
fn fixed_rejects_expansion_bomb() {
    let app = App::new();
    let r = upload::fixed_handle(&app, &upload_req("0", "999999999", vec![0u8; 64]));
    assert_eq!(r.status, 413);
}

// ---- user search ----

fn search_req(username: &str) -> Request {
    request("/users/search", vec![("username", username)], vec![], vec![], Source::PublicEdge)
}

#[test]
fn normal_lookup_returns_one() {
    let app = App::new();
    let r = user_search::handle(&app, &search_req("alice"));
    assert_eq!(r.body, "matches: alice");
}

#[test]
fn injection_returns_every_row() {
    let app = App::new();
    let r = user_search::handle(&app, &search_req("' OR '1'='1"));
    assert!(r.body.contains("alice") && r.body.contains("bob") && r.body.contains("root"));
}

#[test]
fn fixed_resists_injection() {
    let app = App::new();
    let r = user_search::fixed_handle(&app, &search_req("' OR '1'='1"));
    assert_eq!(r.body, "matches: ");
}

// ---- validation ----

fn validate_req(n: &str) -> Request {
    request("/validate", vec![("n", n)], vec![], vec![], Source::PublicEdge)
}

#[test]
fn valid_number() {
    let app = App::new();
    assert_eq!(validation::handle(&app, &validate_req("123")).body, "n=123");
}

#[test]
fn non_digit_rejected_before_unwrap() {
    let app = App::new();
    assert_eq!(validation::handle(&app, &validate_req("12x")).status, 400);
    assert_eq!(validation::handle(&app, &validate_req("-1")).status, 400);
    assert_eq!(validation::handle(&app, &validate_req("")).status, 400);
}

#[test]
fn overlong_rejected_before_unwrap() {
    let app = App::new();
    assert_eq!(validation::handle(&app, &validate_req(&"9".repeat(20))).status, 400);
}

#[test]
fn fixed_hook_runs_argv_without_a_shell() {
    let app = app_with_hook("/usr/local/bin/reindex --all");
    let r = hooks::fixed_handle(&app, &hook_req(Source::InternalMesh, "x"));
    assert_eq!(r.status, 200);
    assert_eq!(r.body, r#"would run argv: ["/usr/local/bin/reindex", "--all"]"#);
    let quoted = app_with_hook("say \"hi\"");
    let r = hooks::fixed_handle(&quoted, &hook_req(Source::InternalMesh, ""));
    assert_eq!(r.body, r#"would run argv: ["say", "\"hi\""]"#);
}

#[test]
fn demo_query_formatting() {
    let r = request("/users/search", vec![("username", "alice"), ("x", "1")], vec![], vec![], Source::PublicEdge);
    assert_eq!(dvra::dvr::fmt_query(&r), "?username=alice&x=1");
    let empty = request("/login", vec![], vec![], vec![], Source::PublicEdge);
    assert_eq!(dvra::dvr::fmt_query(&empty), "");
}

#[test]
fn clamping_handler_agrees_on_honest_length() {
    let app = App::new();
    let honest = collect_req(Some("2"), vec![1, 2, 3, 4]);
    assert_eq!(collect::handle(&app, &honest).body, "sum=3");
    assert_eq!(collect::fixed_handle(&app, &honest).body, "sum=3");
}

#[test]
fn checked_frame_agrees_when_payload_fits() {
    let app = App::new();
    let mut body = 6u32.to_be_bytes().to_vec();
    body.extend_from_slice(&[9, 9, 9]);
    let plain = framing::handle(&app, &frame_req(body.clone())).body;
    let checked = framing::fixed_handle(&app, &frame_req(body)).body;
    assert_eq!(plain, checked);
}

#[test]
fn bounded_parser_accepts_exactly_the_depth_limit() {
    let app = App::new();
    let at_limit = format!("{}{}", "[".repeat(128), "]".repeat(128));
    assert_eq!(nested::fixed_handle(&app, &nested_req(&at_limit)).body, "depth=128");
    assert_eq!(nested::handle(&app, &nested_req(&at_limit)).body, "depth=128");
    let over = format!("{}{}", "[".repeat(129), "]".repeat(129));
    assert_eq!(nested::fixed_handle(&app, &nested_req(&over)).status, 400);
    let closed_early = format!("[]]{}", "[".repeat(200));
    assert_eq!(nested::fixed_handle(&app, &nested_req(&closed_early)).body, "depth=2");
}

#[test]
fn last_allowed_key_wins() {
    let app = App::new();
    let r = profile::fixed_handle(&app, &profile_req(r#"{"display_name":"a","display_name":"b","role":"admin"}"#));
    assert!(r.body.contains("name=b"));
    assert!(r.body.contains("role=user"));
}

#[test]
fn login_audit_lines() {
    let app = App::new();
    let (r, line) = auth::handle_audited(&app, &login("nope"));
    assert_eq!(r.status, 401);
    assert_eq!(line, "login attempt principal=alice token=nope path=/login");
    let (r, line) = auth::fixed_handle_audited(&app, &login(auth::EXPECTED_TOKEN));
    assert_eq!(r.status, 200);
    assert_eq!(line, "login attempt principal=alice token=<redacted> path=/login");
    let (_, other) = auth::fixed_handle_audited(&app, &login("nope"));
    assert_eq!(line, other);
    let (routed, lines) = app.handle_audited(&login("nope"));
    assert_eq!(routed.status, 401);
    assert_eq!(lines, vec!["login attempt principal=alice token=nope path=/login".to_string()]);
    let (_, none) = app.handle_audited(&validate_req("1"));
    assert!(none.is_empty());
}
