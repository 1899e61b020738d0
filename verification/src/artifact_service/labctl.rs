//! The lab control tool's decisions: its command line, the scenario registry,
//! the repository completeness audit, the environment checks and the
//! reproduction recipes. Running processes and touching the file system is
//! left to the caller, which hands the outcomes back as plain values.

use vstd::prelude::*;
use crate::text::{
    chars_eq, chars_of, concat2, contains, contains_str, decimal, decimal_string, owned, push_str,
    str_eq, upper_chars, upper_seq,
};

verus! {

/// The number of registered scenarios.
pub const SCENARIO_COUNT: usize = 7;

/// The registered scenario ids, in order.
pub open spec fn scenario_ids() -> Seq<Seq<char>> {
    seq![
        "DVRA-001"@,
        "DVRA-004"@,
        "DVRA-006"@,
        "DVRA-008"@,
        "DVRA-009"@,
        "DVRA-013"@,
        "DVRA-014"@,
    ]
}

/// The registered scenario titles, in the order of `scenario_ids`.
pub open spec fn scenario_titles() -> Seq<Seq<char>> {
    seq![
        "IDOR between tenant projects"@,
        "tenant-controlled shell post-processing command"@,
        "validator/normalizer parser offset mismatch"@,
        "panic-unsound unsafe collection"@,
        "invalid Send/Sync implementation"@,
        "real unsafe decoder defect in an unregistered route"@,
        "safe fixed-program Command::new false positive"@,
    ]
}

/// The scenario registry: `(id, title)` pairs.
pub fn scenarios() -> (r: Vec<(&'static str, &'static str)>)
    ensures
        r@.len() == SCENARIO_COUNT,
        forall|i: int| 0 <= i < r@.len() ==> (#[trigger] r@[i]).0@ == scenario_ids()[i] && r@[i].1@ == scenario_titles()[i],
{
    let mut r: Vec<(&'static str, &'static str)> = Vec::new();
    r.push(("DVRA-001", "IDOR between tenant projects"));
    r.push(("DVRA-004", "tenant-controlled shell post-processing command"));
    r.push(("DVRA-006", "validator/normalizer parser offset mismatch"));
    r.push(("DVRA-008", "panic-unsound unsafe collection"));
    r.push(("DVRA-009", "invalid Send/Sync implementation"));
    r.push(("DVRA-013", "real unsafe decoder defect in an unregistered route"));
    r.push(("DVRA-014", "safe fixed-program Command::new false positive"));
    r
}

/// The `list` command's lines: `"{id}: {title}"` for each scenario.
pub fn scenario_lines() -> (r: Vec<String>)
    ensures
        r@.len() == SCENARIO_COUNT,
        forall|i: int| 0 <= i < r@.len() ==> #[trigger] r@[i]@ == scenario_ids()[i] + ": "@ + scenario_titles()[i],
{
    let table = scenarios();
    let mut out: Vec<String> = Vec::new();
    let mut i: usize = 0;
    while i < table.len()
        invariant
            table@.len() == SCENARIO_COUNT,
            forall|j: int| 0 <= j < table@.len() ==> (#[trigger] table@[j]).0@ == scenario_ids()[j] && table@[j].1@ == scenario_titles()[j],
            i <= table@.len(),
            out@.len() == i,
            forall|j: int| 0 <= j < i ==> #[trigger] out@[j]@ == scenario_ids()[j] + ": "@ + scenario_titles()[j],
        decreases table@.len() - i,
    {
        let (id, title) = table[i];
        let mut line = concat2(id, ": ");
        push_str(&mut line, title);
        assert(line@ == scenario_ids()[i as int] + ": "@ + scenario_titles()[i as int]);
        out.push(line);
        i += 1;
    }
    out
}

/// Where a scenario's public manifest lives, relative to the workspace root.
pub open spec fn manifest_path_spec(id: Seq<char>) -> Seq<char> {
    "scenarios/public/"@ + id + ".yaml"@
}

pub fn manifest_path(id: &str) -> (r: String)
    ensures
        r@ == manifest_path_spec(id@),
{
    let mut p = concat2("scenarios/public/", id);
    push_str(&mut p, ".yaml");
    p
}

/// The number of paths every checkout must hold.
pub const REQUIRED_PATH_COUNT: usize = 31;

/// The paths every checkout must hold, relative to the workspace root.
pub open spec fn required_paths_spec() -> Seq<Seq<char>> {
    seq![
        "README.md"@,
        "docs/completeness.md"@,
        "docs/instructor-guide.md"@,
        "docs/qa.md"@,
        "docs/threat-models.md"@,
        "docs/verification.md"@,
        "docs/benchmark-oracle.md"@,
        "docs/private-oracle.schema.example.yaml"@,
        "instructor-oracle/scenarios.yaml"@,
        "apps/api/src/lib.rs"@,
        "apps/mock-metadata-service/src/main.rs"@,
        "apps/worker/src/main.rs"@,
        "configs/operator-safe.yaml"@,
        "configs/tenant-vulnerable.yaml"@,
        "crates/auth/src/lib.rs"@,
        "crates/binary-parser/src/lib.rs"@,
        "crates/unsafe-cache/src/lib.rs"@,
        "crates/worker-engine/src/lib.rs"@,
        "fuzz/fuzz_targets/dvra_006_differential.rs"@,
        "fuzz/seeds/dvra-006/escaped-delimiter.dvra"@,
        "infrastructure/compose.yaml"@,
        "infrastructure/containers/Dockerfile"@,
        "infrastructure/containers/miri.Dockerfile"@,
        "infrastructure/seccomp/README.md"@,
        "labs/compiler-soundness/README.md"@,
        "labs/rudra-patterns/README.md"@,
        "labs/stdlib-archaeology/README.md"@,
        "labs/vulnerable-dependencies/README.md"@,
        "scenarios/fixtures/parser/basic.dvra"@,
        "scenarios/fixtures/parser/dvra-006.dvra"@,
        "tools/miri-reproduce.sh"@,
    ]
}

pub fn required_paths() -> (r: Vec<&'static str>)
    ensures
        r@.len() == REQUIRED_PATH_COUNT,
        forall|i: int| 0 <= i < r@.len() ==> #[trigger] r@[i]@ == required_paths_spec()[i],
{
    let mut r: Vec<&'static str> = Vec::new();
    r.push("README.md");
    r.push("docs/completeness.md");
    r.push("docs/instructor-guide.md");
    r.push("docs/qa.md");
    r.push("docs/threat-models.md");
    r.push("docs/verification.md");
    r.push("docs/benchmark-oracle.md");
    r.push("docs/private-oracle.schema.example.yaml");
    r.push("instructor-oracle/scenarios.yaml");
    r.push("apps/api/src/lib.rs");
    r.push("apps/mock-metadata-service/src/main.rs");
    r.push("apps/worker/src/main.rs");
    r.push("configs/operator-safe.yaml");
    r.push("configs/tenant-vulnerable.yaml");
    r.push("crates/auth/src/lib.rs");
    r.push("crates/binary-parser/src/lib.rs");
    r.push("crates/unsafe-cache/src/lib.rs");
    r.push("crates/worker-engine/src/lib.rs");
    r.push("fuzz/fuzz_targets/dvra_006_differential.rs");
    r.push("fuzz/seeds/dvra-006/escaped-delimiter.dvra");
    r.push("infrastructure/compose.yaml");
    r.push("infrastructure/containers/Dockerfile");
    r.push("infrastructure/containers/miri.Dockerfile");
    r.push("infrastructure/seccomp/README.md");
    r.push("labs/compiler-soundness/README.md");
    r.push("labs/rudra-patterns/README.md");
    r.push("labs/stdlib-archaeology/README.md");
    r.push("labs/vulnerable-dependencies/README.md");
    r.push("scenarios/fixtures/parser/basic.dvra");
    r.push("scenarios/fixtures/parser/dvra-006.dvra");
    r.push("tools/miri-reproduce.sh");
    r
}

/// The text every public manifest must hold, in the order they are checked.
pub open spec fn manifest_fields() -> Seq<Seq<char>> {
    seq![
        "benchmark_oracle: instructor-oracle/scenarios.yaml"@,
        "reproducer:"@,
        "expected_signal:"@,
    ]
}

pub fn manifest_field_list() -> (r: Vec<&'static str>)
    ensures
        r@.len() == 3,
        forall|i: int| 0 <= i < r@.len() ==> #[trigger] r@[i]@ == manifest_fields()[i],
{
    let mut r: Vec<&'static str> = Vec::new();
    r.push("benchmark_oracle: instructor-oracle/scenarios.yaml");
    r.push("reproducer:");
    r.push("expected_signal:");
    r
}

/// The failure for a path that does not exist.
pub open spec fn missing_path_spec(path: Seq<char>) -> Seq<char> {
    "missing required path: "@ + path
}

pub fn missing_path_failure(path: &str) -> (r: String)
    ensures
        r@ == missing_path_spec(path@),
{
    concat2("missing required path: ", path)
}

/// The failure, if any, for a manifest that should hold `expected`, given
/// what reading it gave: its contents or the read error's text.
pub open spec fn field_failure_spec(path: Seq<char>, read: Result<String, String>, expected: Seq<char>) -> Option<Seq<char>> {
    match read {
        Ok(contents) => if contains(contents@, expected) {
            None
        } else {
            Some(path + " missing `"@ + expected + "`"@)
        },
        Err(error) => Some("cannot read "@ + path + ": "@ + error@),
    }
}

pub fn manifest_field_failure(path: &str, read: &Result<String, String>, expected: &str) -> (r: Option<String>)
    ensures
        match (r, field_failure_spec(path@, *read, expected@)) {
            (None, None) => true,
            (Some(a), Some(b)) => a@ == b,
            _ => false,
        },
{
    match read {
        Ok(contents) => if contains_str(contents.as_str(), expected) {
            None
        } else {
            let mut m = concat2(path, " missing `");
            push_str(&mut m, expected);
            push_str(&mut m, "`");
            Some(m)
        },
        Err(error) => {
            let mut m = concat2("cannot read ", path);
            push_str(&mut m, ": ");
            push_str(&mut m, error.as_str());
            Some(m)
        },
    }
}

/// The failure, if any, when `public_count` manifests were found.
pub open spec fn registry_failure_spec(public_count: nat) -> Option<Seq<char>> {
    if public_count == SCENARIO_COUNT {
        None
    } else {
        Some("scenario registry has "@ + decimal(SCENARIO_COUNT as nat) + " ids but "@ + decimal(public_count)
            + " public manifests exist"@)
    }
}

pub fn registry_failure(public_count: usize) -> (r: Option<String>)
    ensures
        match (r, registry_failure_spec(public_count as nat)) {
            (None, None) => true,
            (Some(a), Some(b)) => a@ == b,
            _ => false,
        },
{
    if public_count == SCENARIO_COUNT {
        None
    } else {
        let mut m = concat2("scenario registry has ", decimal_string(SCENARIO_COUNT as u64).as_str());
        push_str(&mut m, " ids but ");
        push_str(&mut m, decimal_string(public_count as u64).as_str());
        push_str(&mut m, " public manifests exist");
        Some(m)
    }
}

/// An optional failure as a list of at most one.
pub open spec fn opt_list(o: Option<Seq<char>>) -> Seq<Seq<char>> {
    match o {
        Some(m) => seq![m],
        None => Seq::empty(),
    }
}

/// The failures of the first `n` required paths.
pub open spec fn path_failures(exists: Seq<bool>, n: int) -> Seq<Seq<char>>
    decreases n,
{
    if n <= 0 {
        Seq::empty()
    } else {
        path_failures(exists, n - 1) + (if exists[n - 1] {
            Seq::empty()
        } else {
            seq![missing_path_spec(required_paths_spec()[n - 1])]
        })
    }
}

/// The failures of one scenario's manifest: whether it exists, then each
/// required field in turn.
pub open spec fn manifest_failures_of(id: Seq<char>, exists: bool, read: Result<String, String>) -> Seq<Seq<char>> {
    let path = manifest_path_spec(id);
    (if exists { Seq::empty() } else { seq![missing_path_spec(path)] })
        + opt_list(field_failure_spec(path, read, manifest_fields()[0]))
        + opt_list(field_failure_spec(path, read, manifest_fields()[1]))
        + opt_list(field_failure_spec(path, read, manifest_fields()[2]))
}

/// The failures of the first `n` scenarios' manifests.
pub open spec fn manifest_failures(exists: Seq<bool>, reads: Seq<Result<String, String>>, n: int) -> Seq<Seq<char>>
    decreases n,
{
    if n <= 0 {
        Seq::empty()
    } else {
        manifest_failures(exists, reads, n - 1) + manifest_failures_of(scenario_ids()[n - 1], exists[n - 1], reads[n - 1])
    }
}

/// The whole audit: required paths, then the manifests, then the registry
/// count.
pub open spec fn audit_spec(path_exists: Seq<bool>, manifest_exists: Seq<bool>, manifest_reads: Seq<Result<String, String>>, public_count: nat) -> Seq<Seq<char>> {
    path_failures(path_exists, REQUIRED_PATH_COUNT as int)
        + manifest_failures(manifest_exists, manifest_reads, SCENARIO_COUNT as int)
        + opt_list(registry_failure_spec(public_count))
}

/// The views of a list of strings.
pub open spec fn views(v: Seq<String>) -> Seq<Seq<char>> {
    v.map_values(|s: String| s@)
}

/// Appends an optional failure.
fn push_failure(out: &mut Vec<String>, f: Option<String>, Ghost(expect): Ghost<Option<Seq<char>>>)
    requires
        match (f, expect) {
            (None, None) => true,
            (Some(a), Some(b)) => a@ == b,
            _ => false,
        },
    ensures
        views(final(out)@) == views(old(out)@) + opt_list(expect),
{
    let ghost before = out@;
    if let Some(m) = f {
        out.push(m);
    }
    assert(views(out@) =~= views(before) + opt_list(expect));
}

/// Appends a list of failures.
fn append_all(out: &mut Vec<String>, more: Vec<String>)
    ensures
        views(final(out)@) == views(old(out)@) + views(more@),
{
    let ghost before = out@;
    let mut i: usize = 0;
    while i < more.len()
        invariant
            i <= more@.len(),
            views(out@) == views(before) + views(more@.take(i as int)),
        decreases more@.len() - i,
    {
        let ghost prev = out@;
        out.push(more[i].clone());
        assert(views(out@) =~= views(prev).push(more@[i as int]@));
        assert(views(more@.take(i + 1)) =~= views(more@.take(i as int)).push(more@[i as int]@));
        i += 1;
    }
    assert(more@.take(more@.len() as int) =~= more@);
}

/// The failures of one scenario's manifest.
fn manifest_check(id: &str, exists: bool, read: &Result<String, String>, fields: &Vec<&'static str>) -> (r: Vec<String>)
    requires
        fields@.len() == 3,
        forall|j: int| 0 <= j < fields@.len() ==> #[trigger] fields@[j]@ == manifest_fields()[j],
    ensures
        views(r@) == manifest_failures_of(id@, exists, *read),
{
    let path = manifest_path(id);
    let ghost p = manifest_path_spec(id@);
    let mut out: Vec<String> = Vec::new();
    if !exists {
        out.push(missing_path_failure(path.as_str()));
    }
    assert(views(out@) =~= (if exists { Seq::empty() } else { seq![missing_path_spec(p)] }));
    let f0 = manifest_field_failure(path.as_str(), read, fields[0]);
    push_failure(&mut out, f0, Ghost(field_failure_spec(p, *read, manifest_fields()[0])));
    let f1 = manifest_field_failure(path.as_str(), read, fields[1]);
    push_failure(&mut out, f1, Ghost(field_failure_spec(p, *read, manifest_fields()[1])));
    let f2 = manifest_field_failure(path.as_str(), read, fields[2]);
    push_failure(&mut out, f2, Ghost(field_failure_spec(p, *read, manifest_fields()[2])));
    out
}

/// The audit's failures, given whether each required path exists, whether
/// each scenario's manifest exists, what reading each manifest gave, and how
/// many `.yaml` manifests the public directory holds.
pub fn audit_failures(path_exists: &Vec<bool>, manifest_exists: &Vec<bool>, manifest_reads: &Vec<Result<String, String>>, public_count: usize) -> (r: Vec<String>)
    requires
        path_exists@.len() == REQUIRED_PATH_COUNT,
        manifest_exists@.len() == SCENARIO_COUNT,
        manifest_reads@.len() == SCENARIO_COUNT,
    ensures
        views(r@) == audit_spec(path_exists@, manifest_exists@, manifest_reads@, public_count as nat),
{
    let paths = required_paths();
    let mut out: Vec<String> = Vec::new();
    let mut i: usize = 0;
    while i < REQUIRED_PATH_COUNT
        invariant
            paths@.len() == REQUIRED_PATH_COUNT,
            forall|j: int| 0 <= j < paths@.len() ==> #[trigger] paths@[j]@ == required_paths_spec()[j],
            path_exists@.len() == REQUIRED_PATH_COUNT,
            i <= REQUIRED_PATH_COUNT,
            views(out@) == path_failures(path_exists@, i as int),
        decreases REQUIRED_PATH_COUNT - i,
    {
        let ghost before = out@;
        if !path_exists[i] {
            out.push(missing_path_failure(paths[i]));
        }
        assert(views(out@) =~= path_failures(path_exists@, i + 1)) by {
            assert(views(before) == path_failures(path_exists@, i as int));
        }
        i += 1;
    }
    let table = scenarios();
    let fields = manifest_field_list();
    let mut k: usize = 0;
    while k < SCENARIO_COUNT
        invariant
            table@.len() == SCENARIO_COUNT,
            forall|j: int| 0 <= j < table@.len() ==> (#[trigger] table@[j]).0@ == scenario_ids()[j] && table@[j].1@ == scenario_titles()[j],
            fields@.len() == 3,
            forall|j: int| 0 <= j < fields@.len() ==> #[trigger] fields@[j]@ == manifest_fields()[j],
            manifest_exists@.len() == SCENARIO_COUNT,
            manifest_reads@.len() == SCENARIO_COUNT,
            k <= SCENARIO_COUNT,
            views(out@) == path_failures(path_exists@, REQUIRED_PATH_COUNT as int)
                + manifest_failures(manifest_exists@, manifest_reads@, k as int),
        decreases SCENARIO_COUNT - k,
    {
        let ghost before = out@;
        let ghost id = scenario_ids()[k as int];
        let more = manifest_check(table[k].0, manifest_exists[k], &manifest_reads[k], &fields);
        append_all(&mut out, more);
        assert(manifest_failures(manifest_exists@, manifest_reads@, k + 1) == manifest_failures(manifest_exists@, manifest_reads@, k as int)
            + manifest_failures_of(id, manifest_exists@[k as int], manifest_reads@[k as int]));
        assert(views(out@) =~= path_failures(path_exists@, REQUIRED_PATH_COUNT as int)
            + manifest_failures(manifest_exists@, manifest_reads@, k + 1));
        k += 1;
    }
    let ghost before = out@;
    let g = registry_failure(public_count);
    push_failure(&mut out, g, Ghost(registry_failure_spec(public_count as nat)));
    out
}

/// What the audit reports: success, or the number of failures.
pub open spec fn audit_verdict_spec(failure_count: nat) -> Result<Seq<char>, Seq<char>> {
    if failure_count == 0 {
        Ok("ok: repository completeness audit"@)
    } else {
        Err(decimal(failure_count) + " audit failure(s)"@)
    }
}

pub fn audit_verdict(failures: &Vec<String>) -> (r: Result<String, String>)
    ensures
        match (r, audit_verdict_spec(failures@.len())) {
            (Ok(a), Ok(b)) => a@ == b,
            (Err(a), Err(b)) => a@ == b,
            _ => false,
        },
{
    if failures.len() == 0 {
        Ok(owned("ok: repository completeness audit"))
    } else {
        let mut m = decimal_string(failures.len() as u64);
        push_str(&mut m, " audit failure(s)");
        Err(m)
    }
}

/// A command of the lab tool.
#[derive(Debug)]
pub enum LabCommand {
    Help,
    List,
    Audit,
    Doctor,
    /// Reproduce the scenario with this id.
    Reproduce(String),
}

/// The words that ask for help.
pub open spec fn is_help_word(w: Seq<char>) -> bool {
    w == "help"@ || w == "--help"@ || w == "-h"@
}

/// The usage line of `reproduce`.
pub open spec fn reproduce_usage() -> Seq<char> {
    "usage: dvra-labctl reproduce <DVRA-ID>"@
}

/// Reads the command line (`args[0]` is the program).
pub fn parse_command(args: &Vec<String>) -> (r: Result<LabCommand, String>)
    ensures
        args@.len() < 2 || is_help_word(args@[1]@) ==> r matches Ok(LabCommand::Help),
        args@.len() >= 2 && !is_help_word(args@[1]@) ==> {
            let w = args@[1]@;
            if w == "list"@ {
                r matches Ok(LabCommand::List)
            } else if w == "audit"@ {
                r matches Ok(LabCommand::Audit)
            } else if w == "doctor"@ {
                r matches Ok(LabCommand::Doctor)
            } else if w == "reproduce"@ {
                if args@.len() == 3 {
                    r matches Ok(LabCommand::Reproduce(id)) && id@ == args@[2]@
                } else {
                    r matches Err(e) && e@ == reproduce_usage()
                }
            } else {
                r matches Err(e) && e@ == "unknown command: "@ + w
            }
        },
{
    if args.len() < 2 {
        return Ok(LabCommand::Help);
    }
    let w = args[1].as_str();
    if str_eq(w, "help") || str_eq(w, "--help") || str_eq(w, "-h") {
        Ok(LabCommand::Help)
    } else if str_eq(w, "list") {
        Ok(LabCommand::List)
    } else if str_eq(w, "audit") {
        Ok(LabCommand::Audit)
    } else if str_eq(w, "doctor") {
        Ok(LabCommand::Doctor)
    } else if str_eq(w, "reproduce") {
        if args.len() == 3 {
            Ok(LabCommand::Reproduce(args[2].clone()))
        } else {
            Err(owned("usage: dvra-labctl reproduce <DVRA-ID>"))
        }
    } else {
        Err(concat2("unknown command: ", w))
    }
}

/// How a scenario is reproduced.
#[derive(Debug)]
pub enum Reproduction {
    /// `cargo` with these arguments.
    Cargo(Vec<&'static str>),
    /// The lab compose profile's service of this name, run once.
    Compose(&'static str),
}

/// The views of a list of string slices.
pub open spec fn str_views(v: Seq<&str>) -> Seq<Seq<char>> {
    v.map_values(|s: &str| s@)
}

/// `cargo test -p {package} {filter} -- --nocapture`.
pub open spec fn cargo_test(package: Seq<char>, filter: Seq<char>) -> Seq<Seq<char>> {
    seq!["test"@, "-p"@, package, filter, "--"@, "--nocapture"@]
}

/// The recipe for an upper-cased scenario id, long (`DVRA-001`) or short
/// (`001`); `None` for an unknown id.
pub open spec fn recipe_matches(u: Seq<char>, r: Reproduction) -> Option<bool> {
    if u == "DVRA-001"@ || u == "001"@ {
        Some(r matches Reproduction::Cargo(v) && str_views(v@) == cargo_test("dvra-api"@, "dvra_001"@))
    } else if u == "DVRA-004"@ || u == "004"@ {
        Some(r matches Reproduction::Cargo(v) && str_views(v@) == cargo_test("dvra-worker-engine"@, "dvra_004"@))
    } else if u == "DVRA-006"@ || u == "006"@ {
        Some(r matches Reproduction::Cargo(v) && str_views(v@) == cargo_test("dvra-binary-parser"@, "dvra_006"@))
    } else if u == "DVRA-008"@ || u == "008"@ {
        Some(r matches Reproduction::Compose(s) && s@ == "dvra-miri-008"@)
    } else if u == "DVRA-009"@ || u == "009"@ {
        Some(r matches Reproduction::Cargo(v) && str_views(v@) == seq![
            "test"@, "-p"@, "dvra-unsafe-cache"@, "--features"@, "loom-model"@, "dvra_009"@, "--"@, "--nocapture"@,
        ])
    } else if u == "DVRA-013"@ || u == "013"@ {
        Some(r matches Reproduction::Compose(s) && s@ == "dvra-miri-013"@)
    } else if u == "DVRA-014"@ || u == "014"@ {
        Some(r matches Reproduction::Cargo(v) && str_views(v@) == cargo_test("dvra-worker-engine"@, "dvra_014"@))
    } else {
        None
    }
}

fn cargo_test_args(package: &'static str, filter: &'static str) -> (r: Vec<&'static str>)
    ensures
        str_views(r@) == cargo_test(package@, filter@),
{
    let mut v: Vec<&'static str> = Vec::new();
    v.push("test");
    v.push("-p");
    v.push(package);
    v.push(filter);
    v.push("--");
    v.push("--nocapture");
    assert(str_views(v@) =~= cargo_test(package@, filter@));
    v
}

/// Whether the upper-cased id is `long` or `short`.
fn id_is(u: &Vec<char>, long: &str, short: &str) -> (r: bool)
    ensures
        r == (u@ == long@ || u@ == short@),
{
    chars_eq(u, &chars_of(long)) || chars_eq(u, &chars_of(short))
}

/// The recipe for a scenario id, compared without regard to ASCII case.
pub fn reproduction(id: &str) -> (r: Result<Reproduction, String>)
    ensures
        match (r, recipe_matches(upper_seq(id@), Reproduction::Compose(""))) {
            (Ok(rep), Some(_)) => recipe_matches(upper_seq(id@), rep) == Some(true),
            (Err(e), None) => e@ == "unknown scenario id: "@ + id@,
            _ => false,
        },
{
    let u = upper_chars(&chars_of(id));
    if id_is(&u, "DVRA-001", "001") {
        Ok(Reproduction::Cargo(cargo_test_args("dvra-api", "dvra_001")))
    } else if id_is(&u, "DVRA-004", "004") {
        Ok(Reproduction::Cargo(cargo_test_args("dvra-worker-engine", "dvra_004")))
    } else if id_is(&u, "DVRA-006", "006") {
        Ok(Reproduction::Cargo(cargo_test_args("dvra-binary-parser", "dvra_006")))
    } else if id_is(&u, "DVRA-008", "008") {
        Ok(Reproduction::Compose("dvra-miri-008"))
    } else if id_is(&u, "DVRA-009", "009") {
        let mut v: Vec<&'static str> = Vec::new();
        v.push("test");
        v.push("-p");
        v.push("dvra-unsafe-cache");
        v.push("--features");
        v.push("loom-model");
        v.push("dvra_009");
        v.push("--");
        v.push("--nocapture");
        assert(str_views(v@) =~= seq![
            "test"@, "-p"@, "dvra-unsafe-cache"@, "--features"@, "loom-model"@, "dvra_009"@, "--"@, "--nocapture"@,
        ]);
        Ok(Reproduction::Cargo(v))
    } else if id_is(&u, "DVRA-013", "013") {
        Ok(Reproduction::Compose("dvra-miri-013"))
    } else if id_is(&u, "DVRA-014", "014") {
        Ok(Reproduction::Cargo(cargo_test_args("dvra-worker-engine", "dvra_014")))
    } else {
        Err(concat2("unknown scenario id: ", id))
    }
}

/// The three-digit number at the end of a scenario id (`004` of `DVRA-004`).
pub open spec fn scenario_number(u: Seq<char>) -> Seq<char> {
    u.subrange(u.len() - 3, u.len() as int)
}

/// The number part of a recipe's test filter or compose service, for an id
/// written long (`DVRA-NNN`) or short (`NNN`).
proof fn lemma_number_of_id(u: Seq<char>, long: Seq<char>, short: Seq<char>)
    requires
        u == long || u == short,
        short.len() == 3,
        long == "DVRA-"@ + short,
    ensures
        u.len() >= 3,
        scenario_number(u) == short,
        u == short || u == "DVRA-"@ + short,
{
    reveal_strlit("DVRA-");
    if u == long {
        assert(scenario_number(u) =~= short);
    } else {
        assert(scenario_number(u) =~= short);
    }
}

/// The recipe that answers a scenario id runs that scenario and no other: a
/// cargo recipe passes the test filter `dvra_NNN` and a compose recipe runs
/// the service `dvra-miri-NNN`, where `NNN` ends the id asked for, in its long
/// (`DVRA-NNN`) or short (`NNN`) form.
pub proof fn lemma_recipe_runs_the_scenario_asked_for(u: Seq<char>, r: Reproduction)
    requires
        recipe_matches(u, r) == Some(true),
    ensures
        u.len() >= 3,
        u == scenario_number(u) || u == "DVRA-"@ + scenario_number(u),
        r matches Reproduction::Cargo(v) ==> str_views(v@).contains("dvra_"@ + scenario_number(u)),
        r matches Reproduction::Compose(s) ==> s@ == "dvra-miri-"@ + scenario_number(u),
{
    reveal_strlit("DVRA-");
    reveal_strlit("dvra_");
    reveal_strlit("dvra-miri-");
    if u == "DVRA-001"@ || u == "001"@ {
        reveal_strlit("DVRA-001");
        reveal_strlit("001");
        reveal_strlit("dvra_001");
        assert("DVRA-001"@ =~= "DVRA-"@ + "001"@);
        lemma_number_of_id(u, "DVRA-001"@, "001"@);
        assert("dvra_001"@ =~= "dvra_"@ + "001"@);
        if let Reproduction::Cargo(v) = r {
            assert(str_views(v@)[3] == "dvra_001"@);
        }
    } else if u == "DVRA-004"@ || u == "004"@ {
        reveal_strlit("DVRA-004");
        reveal_strlit("004");
        reveal_strlit("dvra_004");
        assert("DVRA-004"@ =~= "DVRA-"@ + "004"@);
        lemma_number_of_id(u, "DVRA-004"@, "004"@);
        assert("dvra_004"@ =~= "dvra_"@ + "004"@);
        if let Reproduction::Cargo(v) = r {
            assert(str_views(v@)[3] == "dvra_004"@);
        }
    } else if u == "DVRA-006"@ || u == "006"@ {
        reveal_strlit("DVRA-006");
        reveal_strlit("006");
        reveal_strlit("dvra_006");
        assert("DVRA-006"@ =~= "DVRA-"@ + "006"@);
        lemma_number_of_id(u, "DVRA-006"@, "006"@);
        assert("dvra_006"@ =~= "dvra_"@ + "006"@);
        if let Reproduction::Cargo(v) = r {
            assert(str_views(v@)[3] == "dvra_006"@);
        }
    } else if u == "DVRA-008"@ || u == "008"@ {
        reveal_strlit("DVRA-008");
        reveal_strlit("008");
        reveal_strlit("dvra-miri-008");
        assert("DVRA-008"@ =~= "DVRA-"@ + "008"@);
        lemma_number_of_id(u, "DVRA-008"@, "008"@);
        assert("dvra-miri-008"@ =~= "dvra-miri-"@ + "008"@);
    } else if u == "DVRA-009"@ || u == "009"@ {
        reveal_strlit("DVRA-009");
        reveal_strlit("009");
        reveal_strlit("dvra_009");
        assert("DVRA-009"@ =~= "DVRA-"@ + "009"@);
        lemma_number_of_id(u, "DVRA-009"@, "009"@);
        assert("dvra_009"@ =~= "dvra_"@ + "009"@);
        if let Reproduction::Cargo(v) = r {
            assert(str_views(v@)[5] == "dvra_009"@);
        }
    } else if u == "DVRA-013"@ || u == "013"@ {
        reveal_strlit("DVRA-013");
        reveal_strlit("013");
        reveal_strlit("dvra-miri-013");
        assert("DVRA-013"@ =~= "DVRA-"@ + "013"@);
        lemma_number_of_id(u, "DVRA-013"@, "013"@);
        assert("dvra-miri-013"@ =~= "dvra-miri-"@ + "013"@);
    } else if u == "DVRA-014"@ || u == "014"@ {
        reveal_strlit("DVRA-014");
        reveal_strlit("014");
        reveal_strlit("dvra_014");
        assert("DVRA-014"@ =~= "DVRA-"@ + "014"@);
        lemma_number_of_id(u, "DVRA-014"@, "014"@);
        assert("dvra_014"@ =~= "dvra_"@ + "014"@);
        if let Reproduction::Cargo(v) = r {
            assert(str_views(v@)[3] == "dvra_014"@);
        }
    }
}

proof fn lemma_prefixed_ids_equal(n: Seq<char>, short: Seq<char>)
    requires
        n.len() == 3,
        short.len() == 3,
    ensures
        ("DVRA-"@ + n == "DVRA-"@ + short) <==> (n == short),
{
    reveal_strlit("DVRA-");
    if "DVRA-"@ + n == "DVRA-"@ + short {
        assert(n =~= ("DVRA-"@ + n).subrange(5, 8));
        assert(short =~= ("DVRA-"@ + short).subrange(5, 8));
    }
}

/// A scenario id asks for the same recipe written long (`DVRA-NNN`) as
/// written short (`NNN`).
pub proof fn lemma_long_and_short_ids_agree(n: Seq<char>, r: Reproduction)
    requires
        n.len() == 3,
    ensures
        recipe_matches("DVRA-"@ + n, r) == recipe_matches(n, r),
{
    reveal_strlit("DVRA-");
    reveal_strlit("DVRA-001");
    reveal_strlit("DVRA-004");
    reveal_strlit("DVRA-006");
    reveal_strlit("DVRA-008");
    reveal_strlit("DVRA-009");
    reveal_strlit("DVRA-013");
    reveal_strlit("DVRA-014");
    reveal_strlit("001");
    reveal_strlit("004");
    reveal_strlit("006");
    reveal_strlit("008");
    reveal_strlit("009");
    reveal_strlit("013");
    reveal_strlit("014");
    assert("DVRA-001"@ =~= "DVRA-"@ + "001"@);
    assert("DVRA-004"@ =~= "DVRA-"@ + "004"@);
    assert("DVRA-006"@ =~= "DVRA-"@ + "006"@);
    assert("DVRA-008"@ =~= "DVRA-"@ + "008"@);
    assert("DVRA-009"@ =~= "DVRA-"@ + "009"@);
    assert("DVRA-013"@ =~= "DVRA-"@ + "013"@);
    assert("DVRA-014"@ =~= "DVRA-"@ + "014"@);
    lemma_prefixed_ids_equal(n, "001"@);
    lemma_prefixed_ids_equal(n, "004"@);
    lemma_prefixed_ids_equal(n, "006"@);
    lemma_prefixed_ids_equal(n, "008"@);
    lemma_prefixed_ids_equal(n, "009"@);
    lemma_prefixed_ids_equal(n, "013"@);
    lemma_prefixed_ids_equal(n, "014"@);
}

/// Every registered scenario has a recipe, under its long id and its short
/// one alike.
pub proof fn lemma_every_scenario_has_a_recipe(i: int, r: Reproduction)
    requires
        0 <= i < scenario_ids().len(),
    ensures
        recipe_matches(scenario_ids()[i], r) is Some,
        recipe_matches(scenario_number(scenario_ids()[i]), r) is Some,
{
    let id = scenario_ids()[i];
    reveal_strlit("DVRA-001");
    reveal_strlit("DVRA-004");
    reveal_strlit("DVRA-006");
    reveal_strlit("DVRA-008");
    reveal_strlit("DVRA-009");
    reveal_strlit("DVRA-013");
    reveal_strlit("DVRA-014");
    reveal_strlit("001");
    reveal_strlit("004");
    reveal_strlit("006");
    reveal_strlit("008");
    reveal_strlit("009");
    reveal_strlit("013");
    reveal_strlit("014");
    if i == 0 {
        assert(scenario_number(id) =~= "001"@);
    } else if i == 1 {
        assert(scenario_number(id) =~= "004"@);
    } else if i == 2 {
        assert(scenario_number(id) =~= "006"@);
    } else if i == 3 {
        assert(scenario_number(id) =~= "008"@);
    } else if i == 4 {
        assert(scenario_number(id) =~= "009"@);
    } else if i == 5 {
        assert(scenario_number(id) =~= "013"@);
    } else {
        assert(scenario_number(id) =~= "014"@);
    }
}

/// The arguments of `docker` that run a compose service once.
pub open spec fn compose_run_spec(compose_path: Seq<char>, service: Seq<char>) -> Seq<Seq<char>> {
    seq!["compose"@, "-f"@, compose_path, "--profile"@, "labs"@, "run"@, "--rm"@, service]
}

pub fn compose_run_args(compose_path: &str, service: &str) -> (r: Vec<String>)
    ensures
        views(r@) == compose_run_spec(compose_path@, service@),
{
    let mut v: Vec<String> = Vec::new();
    v.push(owned("compose"));
    v.push(owned("-f"));
    v.push(owned(compose_path));
    v.push(owned("--profile"));
    v.push(owned("labs"));
    v.push(owned("run"));
    v.push(owned("--rm"));
    v.push(owned(service));
    assert(views(v@) =~= compose_run_spec(compose_path@, service@));
    v
}

/// The outcome of a finished command: success, or its exit status's text.
pub fn command_result(success: bool, status: &str) -> (r: Result<(), String>)
    ensures
        success ==> r is Ok,
        !success ==> (r matches Err(e) && e@ == "command exited with "@ + status@),
{
    if success {
        Ok(())
    } else {
        Err(concat2("command exited with ", status))
    }
}

/// One environment check of `doctor`: run `program` with `args` and wait at
/// most `timeout_secs` seconds.
#[derive(Debug)]
pub struct CommandCheck {
    pub label: String,
    pub program: String,
    pub args: Vec<String>,
    pub timeout_secs: u64,
}

/// A check by value.
pub open spec fn check_is(c: CommandCheck, label: Seq<char>, program: Seq<char>, args: Seq<Seq<char>>, timeout_secs: u64) -> bool {
    c.label@ == label && c.program@ == program && views(c.args@) == args && c.timeout_secs == timeout_secs
}

fn make_check(label: &str, program: &str, args: Vec<String>, timeout_secs: u64) -> (r: CommandCheck)
    ensures
        check_is(r, label@, program@, views(args@), timeout_secs),
{
    CommandCheck { label: owned(label), program: owned(program), args, timeout_secs }
}

fn strings1(a: &str) -> (r: Vec<String>)
    ensures
        views(r@) == seq![a@],
{
    let mut v: Vec<String> = Vec::new();
    v.push(owned(a));
    assert(views(v@) =~= seq![a@]);
    v
}

fn strings2(a: &str, b: &str) -> (r: Vec<String>)
    ensures
        views(r@) == seq![a@, b@],
{
    let mut v: Vec<String> = Vec::new();
    v.push(owned(a));
    v.push(owned(b));
    assert(views(v@) =~= seq![a@, b@]);
    v
}

/// The checks of `doctor`, in order, given the compose file's path.
pub fn doctor_checks(compose_path: &str) -> (r: Vec<CommandCheck>)
    ensures
        r@.len() == 7,
        check_is(r@[0], "cargo"@, "cargo"@, seq!["--version"@], 5),
        check_is(r@[1], "docker"@, "docker"@, seq!["--version"@], 5),
        check_is(r@[2], "docker info"@, "docker"@, seq!["info"@], 10),
        check_is(r@[3], "docker compose config"@, "docker"@,
            seq!["compose"@, "-f"@, compose_path@, "--profile"@, "labs"@, "config"@], 15),
        check_is(r@[4], "docker buildx"@, "docker"@, seq!["buildx"@, "ls"@], 10),
        check_is(r@[5], "cargo-fuzz"@, "cargo"@, seq!["fuzz"@, "--help"@], 5),
        check_is(r@[6], "cargo-miri"@, "cargo"@, seq!["miri"@, "--version"@], 5),
{
    let mut r: Vec<CommandCheck> = Vec::new();
    r.push(make_check("cargo", "cargo", strings1("--version"), 5));
    r.push(make_check("docker", "docker", strings1("--version"), 5));
    r.push(make_check("docker info", "docker", strings1("info"), 10));
    let mut compose: Vec<String> = Vec::new();
    compose.push(owned("compose"));
    compose.push(owned("-f"));
    compose.push(owned(compose_path));
    compose.push(owned("--profile"));
    compose.push(owned("labs"));
    compose.push(owned("config"));
    assert(views(compose@) =~= seq!["compose"@, "-f"@, compose_path@, "--profile"@, "labs"@, "config"@]);
    r.push(make_check("docker compose config", "docker", compose, 15));
    r.push(make_check("docker buildx", "docker", strings2("buildx", "ls"), 10));
    r.push(make_check("cargo-fuzz", "cargo", strings2("fuzz", "--help"), 5));
    r.push(make_check("cargo-miri", "cargo", strings2("miri", "--version"), 5));
    r
}

/// How an environment check ended.
#[derive(Debug)]
pub enum CheckOutcome {
    /// The program could not be started; the error's text.
    SpawnFailed(String),
    /// The program exited; whether it succeeded, and its status's text.
    Exited { success: bool, status: String },
    /// The program did not exit in time and was killed.
    TimedOut,
}

/// The line `doctor` prints for a check.
pub fn check_report(label: &str, outcome: &CheckOutcome) -> (r: String)
    ensures
        match outcome {
            CheckOutcome::SpawnFailed(e) => r@ == "missing or not ready: "@ + label@ + " ("@ + e@ + ")"@,
            CheckOutcome::Exited { success, status } => if *success {
                r@ == "ok: "@ + label@
            } else {
                r@ == "missing or not ready: "@ + label@ + " ("@ + status@ + ")"@
            },
            CheckOutcome::TimedOut => r@ == "missing or not ready: "@ + label@ + " (timed out)"@,
        },
{
    match outcome {
        CheckOutcome::SpawnFailed(e) => {
            let mut m = concat2("missing or not ready: ", label);
            push_str(&mut m, " (");
            push_str(&mut m, e.as_str());
            push_str(&mut m, ")");
            m
        },
        CheckOutcome::Exited { success, status } => if *success {
            concat2("ok: ", label)
        } else {
            let mut m = concat2("missing or not ready: ", label);
            push_str(&mut m, " (");
            push_str(&mut m, status.as_str());
            push_str(&mut m, ")");
            m
        },
        CheckOutcome::TimedOut => {
            let mut m = concat2("missing or not ready: ", label);
            push_str(&mut m, " (timed out)");
            m
        },
    }
}

/// The next step while waiting for a check's program.
#[derive(Debug, PartialEq, Eq, Structural, Clone, Copy)]
pub enum WaitStep {
    /// The program has exited: report its status.
    Finished,
    /// Sleep a little and look again.
    Sleep,
    /// The deadline has passed: kill the program.
    GiveUp,
}

/// The waiting loop's decision: the deadline is looked at first, then
/// whether the program has exited.
pub fn wait_step(before_deadline: bool, exited: bool) -> (r: WaitStep)
    ensures
        !before_deadline ==> r == WaitStep::GiveUp,
        before_deadline && exited ==> r == WaitStep::Finished,
        before_deadline && !exited ==> r == WaitStep::Sleep,
{
    if !before_deadline {
        WaitStep::GiveUp
    } else if exited {
        WaitStep::Finished
    } else {
        WaitStep::Sleep
    }
}

} // verus!
