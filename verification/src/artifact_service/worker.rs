//! The artifact worker: its command line, its guards, the parse it runs on an
//! artifact, and the processes it starts (described here, started by the
//! caller).

use vstd::prelude::*;
use crate::artifact_service::binary_parser::{
    normalize, normalize_spec, parse_fast, validate, validate_spec, ParseError,
};
use crate::artifact_service::config::PostProcessConfig;
use crate::dvr::features::file_download::{path_starts_with, path_starts_with_chars};
use crate::text::{chars_of, concat2, owned, str_eq};

verus! {

/// A process to start: program, arguments, extra environment, working
/// directory.
#[derive(Debug)]
pub struct Invocation {
    pub program: String,
    pub args: Vec<String>,
    pub env: Vec<(String, String)>,
    pub current_dir: String,
}

/// The post-processing command runs through `/bin/sh -c`, with the artifact's
/// path in `DVRA_ARTIFACT`: whatever the command says, the shell does.
pub fn run_post_process(config: &PostProcessConfig, artifact: &str, working_directory: &str) -> (r: Invocation)
    ensures
        r.program@ == "/bin/sh"@,
        r.args@.len() == 2,
        r.args@[0]@ == "-c"@,
        r.args@[1]@ == config.command@,
        r.env@.len() == 1,
        r.env@[0].0@ == "DVRA_ARTIFACT"@,
        r.env@[0].1@ == artifact@,
        r.current_dir@ == working_directory@,
{
    let mut args: Vec<String> = Vec::new();
    args.push(owned("-c"));
    args.push(config.command.clone());
    let mut env: Vec<(String, String)> = Vec::new();
    env.push((owned("DVRA_ARTIFACT"), owned(artifact)));
    Invocation { program: owned("/bin/sh"), args, env, current_dir: owned(working_directory) }
}

/// The label is one argument of the fixed program `/bin/echo`; no shell reads
/// it.
pub fn print_label_safely(untrusted_label: &str, working_directory: &str) -> (r: Invocation)
    ensures
        r.program@ == "/bin/echo"@,
        r.args@.len() == 1,
        r.args@[0]@ == untrusted_label@,
        r.env@.len() == 0,
        r.current_dir@ == working_directory@,
{
    let mut args: Vec<String> = Vec::new();
    args.push(owned(untrusted_label));
    Invocation { program: owned("/bin/echo"), args, env: Vec::new(), current_dir: owned(working_directory) }
}

/// What the worker's command line asks for.
#[derive(Debug)]
pub enum WorkerCommand {
    /// No arguments: print the usage.
    Help,
    /// `process <config.yaml> <artifact.dvra> <work-dir>`.
    Process { config_path: String, input_path: String, work_dir: String },
    /// Anything else: print the usage and fail.
    Invalid,
}

/// Reads the worker's command line (`args[0]` is the program).
pub fn parse_worker_args(args: &Vec<String>) -> (r: WorkerCommand)
    ensures
        args@.len() == 1 ==> r is Help,
        args@.len() == 5 && args@[1]@ == "process"@ ==> (r matches WorkerCommand::Process { config_path, input_path, work_dir }
            && config_path@ == args@[2]@ && input_path@ == args@[3]@ && work_dir@ == args@[4]@),
        args@.len() != 1 && !(args@.len() == 5 && args@[1]@ == "process"@) ==> r is Invalid,
{
    if args.len() == 1 {
        WorkerCommand::Help
    } else if args.len() == 5 && str_eq(args[1].as_str(), "process") {
        WorkerCommand::Process {
            config_path: args[2].clone(),
            input_path: args[3].clone(),
            work_dir: args[4].clone(),
        }
    } else {
        WorkerCommand::Invalid
    }
}

/// Process mode runs only when `DVRA_LAB_MODE` is `isolated`.
pub fn lab_mode_allows(lab_mode: Option<&str>) -> (r: bool)
    ensures
        r == (lab_mode matches Some(v) && v@ == "isolated"@),
{
    match lab_mode {
        Some(v) => str_eq(v, "isolated"),
        None => false,
    }
}

/// A canonical work directory must lie under the canonical lab root
/// (component-wise, as `Path::starts_with`); otherwise the error's text.
pub fn check_work_dir(canonical: &str, canonical_lab_root: &str) -> (r: Result<(), String>)
    ensures
        path_starts_with(canonical@, canonical_lab_root@) ==> r is Ok,
        !path_starts_with(canonical@, canonical_lab_root@) ==> (r matches Err(e)
            && e@ == "work directory must be under /tmp/dvra, got "@ + canonical@),
{
    if path_starts_with_chars(&chars_of(canonical), &chars_of(canonical_lab_root)) {
        Ok(())
    } else {
        Err(concat2("work directory must be under /tmp/dvra, got ", canonical))
    }
}

/// The bytes the worker's fast parser reads: normalized or not, as the
/// parser configuration says.
pub open spec fn worker_bytes(input: Seq<u8>, normalize_escapes: bool) -> Seq<u8> {
    if normalize_escapes {
        normalize_spec(input)
    } else {
        input
    }
}

/// The offsets validated on the raw input lie within the bytes read.
pub open spec fn worker_offsets_fit(input: Seq<u8>, normalize_escapes: bool) -> bool {
    match validate_spec(input) {
        Ok((s, l)) => s + l <= worker_bytes(input, normalize_escapes).len(),
        Err(_) => true,
    }
}

/// The worker's parse: validate the raw input, normalize it when configured,
/// and read the data field at the offsets validated on the raw input.
pub fn worker_parse(input: &[u8], normalize_escapes: bool) -> (r: Result<Vec<u8>, ParseError>)
    requires
        worker_offsets_fit(input@, normalize_escapes),
    ensures
        match validate_spec(input@) {
            Err(e) => r == Err::<Vec<u8>, ParseError>(e),
            Ok((s, l)) => r is Ok && r->Ok_0@ == worker_bytes(input@, normalize_escapes).subrange(s as int, (s + l) as int),
        },
{
    let validated = validate(input)?;
    if normalize_escapes {
        let bytes = normalize(input);
        Ok(parse_fast(&validated, bytes.as_slice()))
    } else {
        Ok(parse_fast(&validated, input))
    }
}

} // verus!
