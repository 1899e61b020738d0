use dvra::artifact_service::api::{AppState, ArtifactLookup};
use dvra::artifact_service::auth::{can_read_project, can_read_project_strict, Actor, ProjectScope};
use dvra::artifact_service::binary_parser::{
    legacy_decode, normalize, parse_fast, parse_reference, validate, ParseError,
};
use dvra::artifact_service::config::{
    ConfigAuthority, ConfigError, ParserConfig, PostProcessConfig, WorkerConfig,
};
use dvra::artifact_service::labctl::{
    audit_failures, audit_verdict, check_report, command_result, compose_run_args, doctor_checks, manifest_path,
    parse_command, registry_failure, reproduction, required_paths, scenario_lines, scenarios, wait_step,
    CheckOutcome, LabCommand, Reproduction, WaitStep,
};
use dvra::artifact_service::scenario_model::Truth;
use dvra::artifact_service::unsafe_cache::FragileVec;
use dvra::artifact_service::worker::{
    check_work_dir, lab_mode_allows, parse_worker_args, print_label_safely, run_post_process, worker_parse,
    WorkerCommand,
};

const CRASHING_FIXTURE: &[u8] = b"DVRA|name=a\\|b|len=4|data=WXYZ";

#[test]
fn dvra_001_policy_accepts_an_authenticated_cross_tenant_actor() {
    let actor = Actor::authenticated("tenant-blue").expect("valid actor");
    let red_project = ProjectScope::new("tenant-red");

    assert!(can_read_project(&actor, &red_project));
    assert!(!can_read_project_strict(&actor, &red_project));
}

#[test]
fn blank_tenant_is_not_authenticated() {
    assert!(Actor::authenticated("").is_none());
    assert!(Actor::authenticated("  \t").is_none());
    assert_eq!(Actor::authenticated(" red ").expect("actor").tenant_id(), " red ");
}

#[test]
fn reference_parser_handles_escaped_delimiter() {
    assert_eq!(parse_reference(CRASHING_FIXTURE).expect("reference parse"), b"WXYZ");
}

#[test]
fn legacy_decoder_accepts_its_implicit_contract() {
    let record = legacy_decode(&[7, 3, b'a', b'b', b'c']);
    assert_eq!(record.tag, 7);
    assert_eq!(record.payload, b"abc");
}

#[test]
fn stale_offsets_do_not_fit_the_normalized_buffer() {
    let validated = validate(CRASHING_FIXTURE).expect("valid raw envelope");
    let normalized = normalize(CRASHING_FIXTURE);
    assert!(validated.fits(CRASHING_FIXTURE));
    assert!(!validated.fits(&normalized));
}

#[test]
fn fast_parse_without_escapes_matches_reference() {
    let input = b"DVRA|name=ab|len=3|data=XYZ!";
    let validated = validate(input).expect("valid");
    let normalized = normalize(input);
    assert_eq!(normalized, input.to_vec());
    assert_eq!(parse_fast(&validated, &normalized), parse_reference(input).expect("reference"));
    assert_eq!(parse_fast(&validated, &normalized), b"XYZ");
}

#[test]
fn normalize_drops_escape_bytes() {
    assert_eq!(normalize(b"a\\|b\\\\c\\"), b"a|b\\c\\".to_vec());
}

#[test]
fn validate_reports_each_fault() {
    assert_eq!(validate(b"XXXX|len=1|data=a"), Err(ParseError::BadHeader));
    assert_eq!(validate(b"DVRA|data=a"), Err(ParseError::MissingLength));
    assert_eq!(validate(b"DVRA|len=1"), Err(ParseError::MissingData));
    assert_eq!(validate(b"DVRA|len=|data=a"), Err(ParseError::InvalidLength));
    assert_eq!(validate(b"DVRA|len=x|data=a"), Err(ParseError::InvalidLength));
    assert_eq!(validate(b"DVRA|len=5|data=ab"), Err(ParseError::Truncated));
    assert_eq!(ParseError::Truncated.message(), "truncated data field");
    assert_eq!(ParseError::BadHeader.message(), "invalid DVRA envelope header");
}

#[test]
fn all_truth_axes_are_required_for_exploitability() {
    let exploitable = Truth { defect: true, built: true, reachable: true, attacker_controlled: true, impactful: true };
    assert!(exploitable.exploitable());

    let unreachable = Truth { reachable: false, ..exploitable };
    assert!(!unreachable.exploitable());
}

#[test]
fn fragile_vec_normal_return_path_looks_correct() {
    let mut values = FragileVec::from_vec(vec!["one".to_owned(), "two".to_owned()]);
    values.remove_with(0, drop);
    assert_eq!(values.as_slice(), ["two"]);
}

#[test]
fn cross_tenant_actor_reads_foreign_artifact() {
    let state = AppState::seeded();
    match state.get_artifact(Some("tenant-blue"), "red-proj", "release-plan") {
        ArtifactLookup::Found(a) => {
            assert_eq!(a.label, "red team release plan");
            assert_eq!(a.project_id, "red-proj");
        }
        other => panic!("unexpected answer {other:?}"),
    }
}

#[test]
fn artifact_lookup_answers_each_case() {
    let state = AppState::seeded();
    assert!(matches!(state.get_artifact(None, "red-proj", "release-plan"), ArtifactLookup::Unauthorized));
    assert!(matches!(state.get_artifact(Some("   "), "red-proj", "release-plan"), ArtifactLookup::Unauthorized));
    assert!(matches!(state.get_artifact(Some("tenant-red"), "green-proj", "x"), ArtifactLookup::ProjectNotFound));
    assert!(matches!(state.get_artifact(Some("tenant-red"), "red-proj", "sample"), ArtifactLookup::ArtifactNotFound));
}

#[test]
fn apply_environment_overrides_or_adds_the_command() {
    let mut config = WorkerConfig { parser: ParserConfig::default(), post_process: None };
    config.apply_environment(None);
    assert!(config.post_process.is_none());
    config.apply_environment(Some("printf env".to_owned()));
    let pp = config.post_process.clone().expect("configured");
    assert_eq!(pp.authority, ConfigAuthority::OperatorOnly);
    assert_eq!(pp.command, "printf env");

    let mut tenant = WorkerConfig {
        parser: ParserConfig { normalize_escapes: false },
        post_process: Some(PostProcessConfig { authority: ConfigAuthority::TenantProject, command: "a".to_owned() }),
    };
    tenant.apply_environment(Some("b".to_owned()));
    let pp = tenant.post_process.expect("kept");
    assert_eq!(pp.authority, ConfigAuthority::TenantProject);
    assert_eq!(pp.command, "b");
    assert!(ParserConfig::default().normalize_escapes);
}

#[test]
fn config_errors_describe_themselves() {
    assert_eq!(ConfigError::Io("gone".to_owned()).message(), "failed to read configuration: gone");
    assert_eq!(ConfigError::Yaml("bad".to_owned()).message(), "invalid YAML configuration: bad");
}

#[test]
fn post_process_goes_through_a_shell() {
    let config = PostProcessConfig { authority: ConfigAuthority::TenantProject, command: "printf injected > m".to_owned() };
    let inv = run_post_process(&config, "artifact.bin", "/tmp/dvra/w");
    assert_eq!(inv.program, "/bin/sh");
    assert_eq!(inv.args, vec!["-c".to_owned(), "printf injected > m".to_owned()]);
    assert_eq!(inv.env, vec![("DVRA_ARTIFACT".to_owned(), "artifact.bin".to_owned())]);
    assert_eq!(inv.current_dir, "/tmp/dvra/w");
}

#[test]
fn label_stays_one_argument() {
    let inv = print_label_safely("artifact; touch /tmp/x", "/tmp/dvra/w");
    assert_eq!(inv.program, "/bin/echo");
    assert_eq!(inv.args, vec!["artifact; touch /tmp/x".to_owned()]);
    assert!(inv.env.is_empty());
}

fn strings(v: &[&str]) -> Vec<String> {
    v.iter().map(|s| s.to_string()).collect()
}

#[test]
fn worker_command_line() {
    assert!(matches!(parse_worker_args(&strings(&["w"])), WorkerCommand::Help));
    assert!(matches!(parse_worker_args(&strings(&["w", "process", "a"])), WorkerCommand::Invalid));
    assert!(matches!(parse_worker_args(&strings(&[])), WorkerCommand::Invalid));
    match parse_worker_args(&strings(&["w", "process", "c.yaml", "in.dvra", "/tmp/dvra/x"])) {
        WorkerCommand::Process { config_path, input_path, work_dir } => {
            assert_eq!(config_path, "c.yaml");
            assert_eq!(input_path, "in.dvra");
            assert_eq!(work_dir, "/tmp/dvra/x");
        }
        other => panic!("unexpected {other:?}"),
    }
}

#[test]
fn worker_guards() {
    assert!(lab_mode_allows(Some("isolated")));
    assert!(!lab_mode_allows(Some("enabled")));
    assert!(!lab_mode_allows(None));
    assert!(check_work_dir("/tmp/dvra/job", "/tmp/dvra").is_ok());
    assert!(check_work_dir("/tmp/dvra", "/tmp/dvra").is_ok());
    assert_eq!(
        check_work_dir("/tmp/dvra-other", "/tmp/dvra"),
        Err("work directory must be under /tmp/dvra, got /tmp/dvra-other".to_owned())
    );
}

#[test]
fn worker_parse_reads_the_data_field() {
    assert_eq!(worker_parse(b"DVRA|len=2|data=ok", true).expect("parse"), b"ok");
    assert_eq!(worker_parse(b"DVRA|len=2|data=ok", false).expect("parse"), b"ok");
    assert_eq!(worker_parse(CRASHING_FIXTURE, false).expect("parse"), b"WXYZ");
    assert_eq!(worker_parse(b"nope", true), Err(ParseError::BadHeader));
}

#[test]
fn scenario_registry() {
    let table = scenarios();
    assert_eq!(table.len(), 7);
    assert_eq!(table[0], ("DVRA-001", "IDOR between tenant projects"));
    assert_eq!(table[6].0, "DVRA-014");
    let lines = scenario_lines();
    assert_eq!(lines[2], "DVRA-006: validator/normalizer parser offset mismatch");
    assert_eq!(manifest_path("DVRA-004"), "scenarios/public/DVRA-004.yaml");
    assert_eq!(required_paths().len(), 31);
}

#[test]
fn labctl_command_line() {
    assert!(matches!(parse_command(&strings(&["labctl"])), Ok(LabCommand::Help)));
    assert!(matches!(parse_command(&strings(&["labctl", "-h"])), Ok(LabCommand::Help)));
    assert!(matches!(parse_command(&strings(&["labctl", "list"])), Ok(LabCommand::List)));
    assert!(matches!(parse_command(&strings(&["labctl", "audit"])), Ok(LabCommand::Audit)));
    assert!(matches!(parse_command(&strings(&["labctl", "doctor"])), Ok(LabCommand::Doctor)));
    match parse_command(&strings(&["labctl", "reproduce", "dvra-006"])) {
        Ok(LabCommand::Reproduce(id)) => assert_eq!(id, "dvra-006"),
        other => panic!("unexpected {other:?}"),
    }
    assert_eq!(
        parse_command(&strings(&["labctl", "reproduce"])).unwrap_err(),
        "usage: dvra-labctl reproduce <DVRA-ID>"
    );
    assert_eq!(parse_command(&strings(&["labctl", "frob"])).unwrap_err(), "unknown command: frob");
}

#[test]
fn reproduction_recipes() {
    match reproduction("dvra-001").expect("known") {
        Reproduction::Cargo(args) => assert_eq!(args, vec!["test", "-p", "dvra-api", "dvra_001", "--", "--nocapture"]),
        other => panic!("unexpected {other:?}"),
    }
    match reproduction("009").expect("known") {
        Reproduction::Cargo(args) => {
            assert_eq!(args, vec!["test", "-p", "dvra-unsafe-cache", "--features", "loom-model", "dvra_009", "--", "--nocapture"])
        }
        other => panic!("unexpected {other:?}"),
    }
    assert!(matches!(reproduction("Dvra-013"), Ok(Reproduction::Compose("dvra-miri-013"))));
    assert_eq!(reproduction("dvra-999").unwrap_err(), "unknown scenario id: dvra-999");
    assert_eq!(
        compose_run_args("/w/infrastructure/compose.yaml", "dvra-miri-008"),
        strings(&["compose", "-f", "/w/infrastructure/compose.yaml", "--profile", "labs", "run", "--rm", "dvra-miri-008"])
    );
    assert_eq!(command_result(false, "exit status: 2"), Err("command exited with exit status: 2".to_owned()));
}

fn good_manifest() -> Result<String, String> {
    Ok("id: x\nbenchmark_oracle: instructor-oracle/scenarios.yaml\nreproducer: r\nexpected_signal: s\n".to_owned())
}

#[test]
fn audit_of_a_complete_checkout_passes() {
    let failures = audit_failures(&vec![true; 31], &vec![true; 7], &vec![good_manifest(); 7], 7);
    assert!(failures.is_empty());
    assert_eq!(audit_verdict(&failures), Ok("ok: repository completeness audit".to_owned()));
}

#[test]
fn audit_reports_failures_in_order() {
    let mut paths = vec![true; 31];
    paths[3] = false;
    let mut exists = vec![true; 7];
    exists[1] = false;
    let mut reads = vec![good_manifest(); 7];
    reads[1] = Err("No such file".to_owned());
    reads[2] = Ok("reproducer: x\nexpected_signal: y\n".to_owned());
    let failures = audit_failures(&paths, &exists, &reads, 6);
    assert_eq!(
        failures,
        strings(&[
            "missing required path: docs/qa.md",
            "missing required path: scenarios/public/DVRA-004.yaml",
            "cannot read scenarios/public/DVRA-004.yaml: No such file",
            "cannot read scenarios/public/DVRA-004.yaml: No such file",
            "cannot read scenarios/public/DVRA-004.yaml: No such file",
            "scenarios/public/DVRA-006.yaml missing `benchmark_oracle: instructor-oracle/scenarios.yaml`",
            "scenario registry has 7 ids but 6 public manifests exist",
        ])
    );
    assert_eq!(audit_verdict(&failures), Err("7 audit failure(s)".to_owned()));
    assert_eq!(registry_failure(7), None);
}

#[test]
fn doctor_checks_and_reports() {
    let checks = doctor_checks("/w/infrastructure/compose.yaml");
    assert_eq!(checks.len(), 7);
    assert_eq!(checks[3].label, "docker compose config");
    assert_eq!(checks[3].args, strings(&["compose", "-f", "/w/infrastructure/compose.yaml", "--profile", "labs", "config"]));
    assert_eq!(checks[3].timeout_secs, 15);
    assert_eq!(checks[6].args, strings(&["miri", "--version"]));
    assert_eq!(
        check_report("cargo", &CheckOutcome::Exited { success: true, status: "exit status: 0".to_owned() }),
        "ok: cargo"
    );
    assert_eq!(
        check_report("docker", &CheckOutcome::SpawnFailed("not found".to_owned())),
        "missing or not ready: docker (not found)"
    );
    assert_eq!(check_report("docker info", &CheckOutcome::TimedOut), "missing or not ready: docker info (timed out)");
    assert_eq!(wait_step(false, true), WaitStep::GiveUp);
    assert_eq!(wait_step(true, true), WaitStep::Finished);
    assert_eq!(wait_step(true, false), WaitStep::Sleep);
}
