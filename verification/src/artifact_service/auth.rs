//! Minimal multi-tenant authorization primitives.

use vstd::prelude::*;
use crate::text::{chars_of, owned, trim, trim_chars};

verus! {

/// An authenticated caller, identified by its tenant.
#[derive(Clone, Debug, Eq, PartialEq)]
pub struct Actor {
    tenant_id: String,
}

impl Actor {
    /// The actor's tenant id.
    pub closed spec fn tenant(&self) -> Seq<char> {
        self.tenant_id@
    }

    /// The actor was authenticated: its tenant id is not blank.
    pub closed spec fn wf(&self) -> bool {
        trim(self.tenant_id@).len() > 0
    }

    /// An actor for a tenant id that is not blank (empty or only whitespace).
    pub fn authenticated(tenant_id: &str) -> (r: Option<Self>)
        ensures
            trim(tenant_id@).len() == 0 ==> r is None,
            trim(tenant_id@).len() > 0 ==> r is Some && r->0.tenant() == tenant_id@ && r->0.wf(),
    {
        let t = trim_chars(&chars_of(tenant_id));
        if t.len() == 0 {
            None
        } else {
            Some(Actor { tenant_id: owned(tenant_id) })
        }
    }

    pub fn tenant_id(&self) -> (r: &str)
        ensures
            r@ == self.tenant(),
    {
        self.tenant_id.as_str()
    }
}

/// The tenant a project belongs to.
#[derive(Clone, Debug, Eq, PartialEq)]
pub struct ProjectScope {
    tenant_id: String,
}

impl ProjectScope {
    /// The project's tenant id.
    pub closed spec fn tenant(&self) -> Seq<char> {
        self.tenant_id@
    }

    pub fn new(tenant_id: &str) -> (r: Self)
        ensures
            r.tenant() == tenant_id@,
    {
        ProjectScope { tenant_id: owned(tenant_id) }
    }

    pub fn tenant_id(&self) -> (r: &str)
        ensures
            r@ == self.tenant(),
    {
        self.tenant_id.as_str()
    }
}

/// Authorization used by the artifact endpoint: any actor with a tenant id
/// may read, whatever project it asks for.
pub fn can_read_project(actor: &Actor, _project: &ProjectScope) -> (r: bool)
    ensures
        r == (actor.tenant().len() > 0),
{
    !actor.tenant_id().is_empty()
}

/// Reference policy: an actor may read only its own tenant's projects.
pub fn can_read_project_strict(actor: &Actor, project: &ProjectScope) -> (r: bool)
    ensures
        r == (actor.tenant() == project.tenant()),
{
    crate::text::str_eq(actor.tenant_id(), project.tenant_id())
}

/// Every authenticated actor passes the endpoint's policy for every project,
/// so the policy grants at least whatever the reference policy grants.
pub proof fn lemma_policy_admits_every_authenticated_actor(actor: Actor, project: ProjectScope)
    requires
        actor.wf(),
    ensures
        actor.tenant().len() > 0,
        actor.tenant() == project.tenant() ==> actor.tenant().len() > 0,
{
    lemma_trim_shorter(actor.tenant());
}

/// Trimming never lengthens a string.
pub proof fn lemma_trim_shorter(s: Seq<char>)
    ensures
        trim(s).len() <= s.len(),
{
    crate::text::lemma_trim_start_shorter(s);
    crate::text::lemma_trim_end_shorter(crate::text::trim_start(s));
}

} // verus!
