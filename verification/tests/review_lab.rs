use dvra::review_lab::api::{fetch_route_open, job_destination, plan_bundle_job, post_process_command};
use dvra::review_lab::bundle::{extract_bundle, parse, validate_relative_path, BundleEntry, BundleError};
use dvra::review_lab::cache::{SafeCell, SlotCell};
use dvra::review_lab::config::{
    export_command, AppConfig, CommandRunner, ConfigError, DangerousLabGate, PostProcessConfig, SsrfLabGate,
    ThreatModel,
};

fn bundle(entries: &[(&[u8], &[u8])]) -> Vec<u8> {
    let mut out = b"DVB1".to_vec();
    out.push(entries.len() as u8);
    for (path, contents) in entries {
        out.push(path.len() as u8);
        out.extend_from_slice(path);
        out.extend_from_slice(&(contents.len() as u16).to_be_bytes());
        out.extend_from_slice(contents);
    }
    out
}

#[test]
fn bundle_parses_entries_in_order() {
    let input = bundle(&[(b"a.txt", b"hello"), (b"dir/b.bin", &[0, 1, 2])]);
    let entries = parse(&input).expect("valid bundle");
    assert_eq!(
        entries,
        vec![
            BundleEntry { path: "a.txt".to_owned(), contents: b"hello".to_vec() },
            BundleEntry { path: "dir/b.bin".to_owned(), contents: vec![0, 1, 2] },
        ]
    );
    assert_eq!(parse(b"DVB1\x00").expect("empty bundle"), vec![]);
}

#[test]
fn bundle_faults() {
    assert!(matches!(parse(b"DVB"), Err(BundleError::BadMagic)));
    assert!(matches!(parse(b"DVB2\x00"), Err(BundleError::BadMagic)));
    assert!(matches!(parse(b"DVB1\x01"), Err(BundleError::Truncated)));
    assert!(matches!(parse(b"DVB1\x01\x05ab"), Err(BundleError::Truncated)));
    assert!(matches!(parse(b"DVB1\x01\x01a\x00"), Err(BundleError::Truncated)));
    assert!(matches!(parse(b"DVB1\x01\x01a\x00\x05abc"), Err(BundleError::Truncated)));
    assert!(matches!(parse(b"DVB1\x01\x01\xff\x00\x00"), Err(BundleError::InvalidUtf8(_))));
    assert!(matches!(parse(b"DVB1\x00x"), Err(BundleError::TrailingBytes)));
    assert_eq!(BundleError::TrailingBytes.message(), "bundle contains trailing bytes");
    let e = parse(b"DVB1\x01\x01\xff\x00\x00").expect_err("invalid utf-8");
    assert!(e.message().starts_with("bundle path is not valid UTF-8: "));
    assert_eq!(
        BundleError::Write { path: "/x".to_owned(), source: "denied".to_owned() }.message(),
        "failed to write /x: denied"
    );
}

#[test]
fn extraction_joins_paths_without_containment() {
    let input = bundle(&[(b"ok.txt", b"1"), (b"../escape.txt", b"2"), (b"/etc/cron.d/x", b"3")]);
    let plan = extract_bundle(&input, "/srv/dvra/job-7").expect("valid bundle");
    let paths: Vec<&str> = plan.iter().map(|e| e.path.as_str()).collect();
    assert_eq!(paths, vec!["/srv/dvra/job-7/ok.txt", "/srv/dvra/job-7/../escape.txt", "/etc/cron.d/x"]);
    assert_eq!(plan[1].contents, b"2");
}

#[test]
fn relative_path_validation() {
    assert!(validate_relative_path("a/b.txt").is_ok());
    assert!(matches!(validate_relative_path(""), Err(BundleError::UnsafePath(p)) if p.is_empty()));
    assert!(matches!(validate_relative_path("/etc/passwd"), Err(BundleError::UnsafePath(p)) if p == "/etc/passwd"));
    assert!(matches!(validate_relative_path("a/../b"), Err(BundleError::UnsafePath(_))));
    assert!(matches!(validate_relative_path("./a"), Err(BundleError::UnsafePath(_))));
    assert!(validate_relative_path("a/./b").is_ok());
}

#[test]
fn gates_need_both_settings() {
    assert!(DangerousLabGate::from_env(Some("enabled"), Some("I_UNDERSTAND")).require_enabled().is_ok());
    assert!(matches!(
        DangerousLabGate::from_env(Some("enabled"), None).require_enabled(),
        Err(ConfigError::DangerousLabDisabled)
    ));
    assert!(DangerousLabGate::disabled().require_enabled().is_err());
    assert!(SsrfLabGate::from_env(Some("enabled"), Some("I_UNDERSTAND")).require_enabled().is_ok());
    assert!(matches!(SsrfLabGate::from_env(Some("on"), Some("I_UNDERSTAND")).require_enabled(), Err(ConfigError::SsrfLabDisabled)));
    assert_eq!(AppConfig::config_path(None), "config/dvra.toml");
    assert_eq!(AppConfig::config_path(Some("/etc/dvra.toml")), "/etc/dvra.toml");
}

fn post_process() -> PostProcessConfig {
    PostProcessConfig {
        shell_template: "printf processed".to_owned(),
        exec_program: "printf".to_owned(),
        exec_args: vec!["%s".to_owned()],
        secret_token: "test-secret".to_owned(),
        threat_model: ThreatModel::TenantControlled,
    }
}

#[test]
fn hook_command_pastes_the_name_into_the_shell() {
    let open = CommandRunner::new(post_process(), DangerousLabGate::from_env(Some("enabled"), Some("I_UNDERSTAND")));
    assert_eq!(
        open.hook_command("a; id").expect("open"),
        vec!["sh".to_owned(), "-c".to_owned(), "printf processed a; id".to_owned()]
    );
    let shut = CommandRunner::new(post_process(), DangerousLabGate::disabled());
    assert!(matches!(shut.hook_command("x"), Err(ConfigError::DangerousLabDisabled)));
    assert_eq!(export_command("a b")[2], "tar -cf /tmp/export.tar a b");
}

#[test]
fn config_error_messages() {
    assert_eq!(
        ConfigError::Read { path: "c.toml".to_owned(), source: "gone".to_owned() }.message(),
        "failed to read configuration c.toml: gone"
    );
    assert_eq!(ConfigError::Execute("boom".to_owned()).message(), "command execution failed: boom");
    assert_eq!(
        ConfigError::SsrfLabDisabled.message(),
        "SSRF lab is disabled; use the isolated fake-metadata Docker profile"
    );
}

#[test]
fn lab_routes() {
    assert_eq!(job_destination("/srv/dvra", 7), "/srv/dvra/job-7");
    assert_eq!(job_destination("/srv/dvra/", 0), "/srv/dvra/job-0");
    let shut = plan_bundle_job(&DangerousLabGate::disabled(), "/srv", 1, b"DVB1\x00").expect_err("gated");
    assert_eq!(shut.status, 403);
    let gate = DangerousLabGate::from_env(Some("enabled"), Some("I_UNDERSTAND"));
    assert_eq!(plan_bundle_job(&gate, "/srv", 1, b"junk").expect_err("bad bundle").status, 400);
    let plan = plan_bundle_job(&gate, "/srv", 1, &bundle(&[(b"x", b"y")])).expect("planned");
    assert_eq!(plan[0].path, "/srv/job-1/x");
    let runner = CommandRunner::new(post_process(), DangerousLabGate::disabled());
    assert_eq!(post_process_command(&runner, "x").expect_err("gated").status, 403);
    assert_eq!(fetch_route_open(&SsrfLabGate::disabled()).expect_err("gated").status, 403);
}

#[test]
fn slot_cell_replaces_in_place() {
    let mut cell = SlotCell::new(vec![1u8]);
    cell.replace_with(|mut v| {
        v.push(2);
        v
    });
    assert_eq!(cell.get(), &vec![1u8, 2]);
    let safe = SafeCell::new(1u8);
    assert_eq!(safe.get(), Some(&1));
}

#[test]
fn parsed_bundle_reencodes_to_its_bytes() {
    let input = bundle(&[("é.txt".as_bytes(), b"x"), (b"b", &[7u8; 300])]);
    let entries = parse(&input).expect("valid");
    let pairs: Vec<(&[u8], &[u8])> = entries.iter().map(|e| (e.path.as_bytes(), e.contents.as_slice())).collect();
    assert_eq!(bundle(&pairs), input);
}
