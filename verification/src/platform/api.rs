//! The API's request decisions: who asks, and what the artifact routes
//! answer.

use vstd::prelude::*;
use crate::platform::store::{scoped_spec, unscoped_spec, Artifact, ArtifactStore};
use crate::text::{lossy_text, owned, string_of, utf8_lossy};

verus! {

/// An error answer: HTTP status and message.
#[derive(Debug, Clone)]
pub struct ApiError {
    pub status: u16,
    pub message: String,
}

impl ApiError {
    pub fn not_found(message: String) -> (r: Self)
        ensures
            r.status == 404,
            r.message@ == message@,
    {
        ApiError { status: 404, message }
    }

    pub fn bad_request(message: String) -> (r: Self)
        ensures
            r.status == 400,
            r.message@ == message@,
    {
        ApiError { status: 400, message }
    }

    pub fn forbidden(message: String) -> (r: Self)
        ensures
            r.status == 403,
            r.message@ == message@,
    {
        ApiError { status: 403, message }
    }

    pub fn bad_gateway(message: String) -> (r: Self)
        ensures
            r.status == 502,
            r.message@ == message@,
    {
        ApiError { status: 502, message }
    }
}

/// The tenant a request claims, from its `x-tenant` header (absent when the
/// header is missing or not visible ASCII): it must not be empty.
pub fn tenant_from_header(value: Option<&str>) -> (r: Result<String, ApiError>)
    ensures
        (value matches Some(v) && v@.len() > 0) ==> (r matches Ok(t) && t@ == value->0@),
        !(value matches Some(v) && v@.len() > 0) ==> (r matches Err(e) && e.status == 400
            && e.message@ == "missing x-tenant header"@),
{
    match value {
        Some(v) => if v.is_empty() {
            Err(ApiError::bad_request(owned("missing x-tenant header")))
        } else {
            Ok(owned(v))
        },
        None => Err(ApiError::bad_request(owned("missing x-tenant header"))),
    }
}

/// The answer of an artifact route, given the tenant header's check and the
/// lookup's result.
pub open spec fn artifact_answer(r: Result<Artifact, ApiError>, found: Option<Artifact>) -> bool {
    match found {
        Some(a) => r == Ok::<Artifact, ApiError>(a),
        None => r matches Err(e) && e.status == 404 && e.message@ == "artifact not found"@,
    }
}

/// The artifact route that looks artifacts up by id alone: the claimed
/// tenant is required but does not scope the lookup.
pub fn get_artifact_vulnerable(store: &ArtifactStore, tenant_header: Option<&str>, id: u64) -> (r: Result<Artifact, ApiError>)
    ensures
        !(tenant_header matches Some(v) && v@.len() > 0) ==> (r matches Err(e) && e.status == 400),
        (tenant_header matches Some(v) && v@.len() > 0) ==> artifact_answer(r, unscoped_spec(store.artifacts(), id)),
{
    let _claimed = tenant_from_header(tenant_header)?;
    match store.get_unscoped(id) {
        Some(a) => Ok(a),
        None => Err(ApiError::not_found(owned("artifact not found"))),
    }
}

/// The artifact route scoped to the claimed tenant.
pub fn get_artifact_fixed(store: &ArtifactStore, tenant_header: Option<&str>, id: u64) -> (r: Result<Artifact, ApiError>)
    ensures
        !(tenant_header matches Some(v) && v@.len() > 0) ==> (r matches Err(e) && e.status == 400),
        (tenant_header matches Some(v) && v@.len() > 0) ==> artifact_answer(r, scoped_spec(store.artifacts(), tenant_header->0@, id)),
{
    let tenant = tenant_from_header(tenant_header)?;
    match store.get_scoped(tenant.as_str(), id) {
        Some(a) => Ok(a),
        None => Err(ApiError::not_found(owned("artifact not found"))),
    }
}

/// The scoped route never answers with another tenant's artifact.
pub proof fn lemma_fixed_route_stays_in_tenant(m: Map<u64, Artifact>, tenant: Seq<char>, id: u64, r: Result<Artifact, ApiError>)
    requires
        artifact_answer(r, scoped_spec(m, tenant, id)),
    ensures
        r matches Ok(a) ==> a.tenant@ == tenant,
{
}

/// What a finished command reports: its exit code (`-1` when it has none,
/// as when a signal ended it) and its output read as UTF-8.
#[derive(Debug, Clone)]
pub struct CommandResult {
    pub status: i32,
    pub stdout: String,
    pub stderr: String,
}

pub fn command_result(code: Option<i32>, stdout: &[u8], stderr: &[u8]) -> (r: CommandResult)
    ensures
        r.status == match code {
            Some(c) => c as int,
            None => -1,
        },
        r.stdout@ == utf8_lossy(stdout@),
        r.stderr@ == utf8_lossy(stderr@),
{
    let status = match code {
        Some(c) => c,
        None => -1,
    };
    let out = lossy_text(stdout);
    let err = lossy_text(stderr);
    CommandResult { status, stdout: string_of(&out), stderr: string_of(&err) }
}

} // verus!
