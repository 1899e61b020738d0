//! The lab API's request decisions: the gates in front of its dangerous
//! routes, where a bundle job is extracted, and what the hook route runs.

use vstd::prelude::*;
use crate::dvr::features::file_download::{join_path, path_join};
use crate::platform::api::ApiError;
use crate::review_lab::bundle::{bundle_spec, entry_views, extract_bundle, extraction_plan, BundleEntry};
use crate::review_lab::config::{CommandRunner, DangerousLabGate, SsrfLabGate};
use crate::text::{chars_of, concat2, decimal, decimal_string, string_of};

verus! {

/// Where the files of bundle job `job_id` go under the storage root.
pub open spec fn job_destination_spec(root: Seq<char>, job_id: u64) -> Seq<char> {
    path_join(root, "job-"@ + decimal(job_id as nat))
}

pub fn job_destination(root: &str, job_id: u64) -> (r: String)
    ensures
        r@ == job_destination_spec(root@, job_id),
{
    let name = concat2("job-", decimal_string(job_id).as_str());
    let joined = join_path(&chars_of(root), &chars_of(name.as_str()));
    string_of(&joined)
}

/// The bundle route: shut unless the dangerous-lab gate is open (`403`);
/// a malformed bundle is a bad request (`400`); otherwise where each entry
/// is written.
pub fn plan_bundle_job(gate: &DangerousLabGate, root: &str, job_id: u64, body: &[u8]) -> (r: Result<Vec<BundleEntry>, ApiError>)
    ensures
        !gate.is_enabled() ==> (r matches Err(e) && e.status == 403
            && e.message@ == "dangerous command lab is disabled; use the isolated container and explicit acknowledgement"@),
        gate.is_enabled() ==> match bundle_spec(body@) {
            Ok(es) => r matches Ok(v) && entry_views(v@) == extraction_plan(es, job_destination_spec(root@, job_id)),
            Err(_) => r matches Err(e) && e.status == 400,
        },
{
    match gate.require_enabled() {
        Err(e) => return Err(ApiError::forbidden(e.message())),
        Ok(()) => {},
    }
    let destination = job_destination(root, job_id);
    match extract_bundle(body, destination.as_str()) {
        Ok(v) => Ok(v),
        Err(e) => Err(ApiError::bad_request(e.message())),
    }
}

/// The hook route: the command it runs, or `403` while hooks are switched off.
pub fn post_process_command(runner: &CommandRunner, artifact_name: &str) -> (r: Result<Vec<String>, ApiError>)
    ensures
        !runner.gate_open() ==> (r matches Err(e) && e.status == 403),
        runner.gate_open() ==> (r matches Ok(argv) && argv@.len() == 3 && argv@[0]@ == "sh"@ && argv@[1]@ == "-c"@
            && argv@[2]@ == runner.template() + " "@ + artifact_name@),
{
    match runner.hook_command(artifact_name) {
        Ok(argv) => Ok(argv),
        Err(e) => Err(ApiError::forbidden(e.message())),
    }
}

/// The fetch route is shut (`403`) unless the SSRF-lab gate is open.
pub fn fetch_route_open(gate: &SsrfLabGate) -> (r: Result<(), ApiError>)
    ensures
        gate.is_enabled() ==> r is Ok,
        !gate.is_enabled() ==> (r matches Err(e) && e.status == 403
            && e.message@ == "SSRF lab is disabled; use the isolated fake-metadata Docker profile"@),
{
    match gate.require_enabled() {
        Ok(()) => Ok(()),
        Err(e) => Err(ApiError::forbidden(e.message())),
    }
}

} // verus!
