//! The artifact API's state and its artifact lookup
//! (`GET /api/projects/{project_id}/artifacts/{artifact_id}`, header `x-tenant-id`).

use vstd::prelude::*;
use crate::artifact_service::auth::{can_read_project, Actor, ProjectScope};
use crate::text::{owned, str_eq, trim};

verus! {

#[derive(Clone, Debug)]
pub struct Artifact {
    pub id: String,
    pub project_id: String,
    pub label: String,
    pub body: String,
}

impl Artifact {
    /// A field-by-field copy.
    pub fn copy(&self) -> (r: Artifact)
        ensures
            r == *self,
    {
        Artifact {
            id: self.id.clone(),
            project_id: self.project_id.clone(),
            label: self.label.clone(),
            body: self.body.clone(),
        }
    }
}

#[derive(Clone, Debug)]
pub struct Project {
    pub id: String,
    pub tenant_id: String,
    pub artifacts: Vec<Artifact>,
}

/// The projects the API serves.
#[derive(Clone, Debug)]
pub struct AppState {
    projects: Vec<Project>,
}

/// The answer to an artifact request.
#[derive(Debug)]
pub enum ArtifactLookup {
    /// No tenant identity (`401`).
    Unauthorized,
    /// No such project (`404`).
    ProjectNotFound,
    /// The policy refuses the actor (`403`).
    Forbidden,
    /// No such artifact in the project (`404`).
    ArtifactNotFound,
    /// The artifact (`200`).
    Found(Artifact),
}

/// An artifact record by value.
pub open spec fn artifact_is(a: Artifact, id: Seq<char>, project: Seq<char>, label: Seq<char>, body: Seq<char>) -> bool {
    a.id@ == id && a.project_id@ == project && a.label@ == label && a.body@ == body
}

/// The first project with the given id.
pub open spec fn find_project(ps: Seq<Project>, id: Seq<char>) -> Option<Project>
    decreases ps.len(),
{
    if ps.len() == 0 {
        None
    } else if ps[0].id@ == id {
        Some(ps[0])
    } else {
        find_project(ps.drop_first(), id)
    }
}

/// The first artifact with the given id.
pub open spec fn find_artifact(arts: Seq<Artifact>, id: Seq<char>) -> Option<Artifact>
    decreases arts.len(),
{
    if arts.len() == 0 {
        None
    } else if arts[0].id@ == id {
        Some(arts[0])
    } else {
        find_artifact(arts.drop_first(), id)
    }
}

/// The answer the API owes to a request with the given tenant header.
pub open spec fn lookup_spec(ps: Seq<Project>, tenant: Option<Seq<char>>, project_id: Seq<char>, artifact_id: Seq<char>) -> ArtifactLookup {
    match tenant {
        None => ArtifactLookup::Unauthorized,
        Some(t) => if trim(t).len() == 0 {
            ArtifactLookup::Unauthorized
        } else {
            match find_project(ps, project_id) {
                None => ArtifactLookup::ProjectNotFound,
                Some(p) => if !(t.len() > 0) {
                    ArtifactLookup::Forbidden
                } else {
                    match find_artifact(p.artifacts@, artifact_id) {
                        None => ArtifactLookup::ArtifactNotFound,
                        Some(a) => ArtifactLookup::Found(a),
                    }
                },
            }
        },
    }
}

impl Default for AppState {
    /// No projects.
    fn default() -> (r: Self)
        ensures
            r.projects_spec().len() == 0,
            r.wf(),
    {
        AppState { projects: Vec::new() }
    }
}

impl AppState {
    /// The projects, in order.
    pub closed spec fn projects_spec(&self) -> Seq<Project> {
        self.projects@
    }

    /// Project ids are distinct, and artifact ids are distinct within each
    /// project: each id names one project, or one artifact of its project.
    pub open spec fn wf(&self) -> bool {
        let ps = self.projects_spec();
        &&& forall|i: int, j: int| 0 <= i < j < ps.len() ==> (#[trigger] ps[i]).id@ != (#[trigger] ps[j]).id@
        &&& forall|i: int, k: int, l: int|
            0 <= i < ps.len() && 0 <= k < l < ps[i].artifacts@.len() ==> (#[trigger] ps[i].artifacts@[k]).id@
                != (#[trigger] ps[i].artifacts@[l]).id@
    }

    /// The seeded content: `red-proj` of `tenant-red` with `release-plan`,
    /// and `blue-proj` of `tenant-blue` with `sample`.
    pub open spec fn is_seeded(&self) -> bool {
        let ps = self.projects_spec();
        &&& ps.len() == 2
        &&& ps[0].id@ == "red-proj"@
        &&& ps[0].tenant_id@ == "tenant-red"@
        &&& ps[0].artifacts@.len() == 1
        &&& artifact_is(ps[0].artifacts@[0], "release-plan"@, "red-proj"@, "red team release plan"@,
            "internal artifact visible through DVRA-001"@)
        &&& ps[1].id@ == "blue-proj"@
        &&& ps[1].tenant_id@ == "tenant-blue"@
        &&& ps[1].artifacts@.len() == 1
        &&& artifact_is(ps[1].artifacts@[0], "sample"@, "blue-proj"@, "blue sample"@,
            "ordinary tenant-owned artifact"@)
    }

    pub fn seeded() -> (r: Self)
        ensures
            r.is_seeded(),
            r.wf(),
    {
        let mut red: Vec<Artifact> = Vec::new();
        red.push(Artifact {
            id: owned("release-plan"),
            project_id: owned("red-proj"),
            label: owned("red team release plan"),
            body: owned("internal artifact visible through DVRA-001"),
        });
        let mut blue: Vec<Artifact> = Vec::new();
        blue.push(Artifact {
            id: owned("sample"),
            project_id: owned("blue-proj"),
            label: owned("blue sample"),
            body: owned("ordinary tenant-owned artifact"),
        });
        let mut projects: Vec<Project> = Vec::new();
        projects.push(Project { id: owned("red-proj"), tenant_id: owned("tenant-red"), artifacts: red });
        projects.push(Project { id: owned("blue-proj"), tenant_id: owned("tenant-blue"), artifacts: blue });
        proof {
            reveal_strlit("red-proj");
            reveal_strlit("blue-proj");
        }
        assert("red-proj"@.len() != "blue-proj"@.len());
        AppState { projects }
    }

    /// Authenticates the tenant header, finds the project, applies the read
    /// policy and finds the artifact.
    pub fn get_artifact(&self, tenant_header: Option<&str>, project_id: &str, artifact_id: &str) -> (r: ArtifactLookup)
        ensures
            match (r, lookup_spec(self.projects_spec(), match tenant_header { Some(t) => Some(t@), None => None }, project_id@, artifact_id@)) {
                (ArtifactLookup::Unauthorized, ArtifactLookup::Unauthorized) => true,
                (ArtifactLookup::ProjectNotFound, ArtifactLookup::ProjectNotFound) => true,
                (ArtifactLookup::Forbidden, ArtifactLookup::Forbidden) => true,
                (ArtifactLookup::ArtifactNotFound, ArtifactLookup::ArtifactNotFound) => true,
                (ArtifactLookup::Found(a), ArtifactLookup::Found(b)) => a == b,
                _ => false,
            },
    {
        let actor = match tenant_header {
            Some(t) => match Actor::authenticated(t) {
                Some(a) => a,
                None => return ArtifactLookup::Unauthorized,
            },
            None => return ArtifactLookup::Unauthorized,
        };
        let mut i: usize = 0;
        assert(self.projects@.skip(0) =~= self.projects@);
        while i < self.projects.len()
            invariant
                i <= self.projects@.len(),
                find_project(self.projects@, project_id@) == find_project(self.projects@.skip(i as int), project_id@),
            ensures
                i <= self.projects@.len(),
                find_project(self.projects@, project_id@) == find_project(self.projects@.skip(i as int), project_id@),
                i < self.projects@.len() ==> self.projects@[i as int].id@ == project_id@,
            decreases self.projects@.len() - i,
        {
            if str_eq(self.projects[i].id.as_str(), project_id) {
                break;
            }
            assert(self.projects@.skip(i as int).drop_first() =~= self.projects@.skip(i + 1));
            i += 1;
        }
        if i == self.projects.len() {
            return ArtifactLookup::ProjectNotFound;
        }
        let project = &self.projects[i];
        assert(self.projects@.skip(i as int)[0] == self.projects@[i as int]);
        assert(find_project(self.projects_spec(), project_id@) == Some(self.projects@[i as int]));
        proof {
            if let Some(t) = tenant_header {
                crate::artifact_service::auth::lemma_trim_shorter(t@);
            }
        }
        let scope = ProjectScope::new(project.tenant_id.as_str());
        if !can_read_project(&actor, &scope) {
            return ArtifactLookup::Forbidden;
        }
        let ghost header = match tenant_header { Some(t) => Some(t@), None => None };
        assert(lookup_spec(self.projects_spec(), header, project_id@, artifact_id@) == match find_artifact(project.artifacts@, artifact_id@) {
            None => ArtifactLookup::ArtifactNotFound,
            Some(a) => ArtifactLookup::Found(a),
        });
        let mut k: usize = 0;
        assert(project.artifacts@.skip(0) =~= project.artifacts@);
        while k < project.artifacts.len()
            invariant
                k <= project.artifacts@.len(),
                find_artifact(project.artifacts@, artifact_id@) == find_artifact(project.artifacts@.skip(k as int), artifact_id@),
                header == match tenant_header { Some(t) => Some(t@), None => None },
                lookup_spec(self.projects_spec(), header, project_id@, artifact_id@) == match find_artifact(project.artifacts@, artifact_id@) {
                    None => ArtifactLookup::ArtifactNotFound,
                    Some(a) => ArtifactLookup::Found(a),
                },
            decreases project.artifacts@.len() - k,
        {
            if str_eq(project.artifacts[k].id.as_str(), artifact_id) {
                assert(project.artifacts@.skip(k as int)[0] == project.artifacts@[k as int]);
                return ArtifactLookup::Found(project.artifacts[k].copy());
            }
            assert(project.artifacts@.skip(k as int).drop_first() =~= project.artifacts@.skip(k + 1));
            k += 1;
        }
        ArtifactLookup::ArtifactNotFound
    }
}

/// The endpoint never refuses an authenticated tenant: any non-blank tenant
/// header reaches every project's artifacts, whoever owns the project.
pub proof fn lemma_lookup_never_forbids(ps: Seq<Project>, tenant: Option<Seq<char>>, project_id: Seq<char>, artifact_id: Seq<char>)
    ensures
        !(lookup_spec(ps, tenant, project_id, artifact_id) is Forbidden),
{
    if let Some(t) = tenant {
        crate::artifact_service::auth::lemma_trim_shorter(t);
    }
}

/// Every project in the list is found by its id, the last one too: the
/// lookup answers `Some` exactly when some project carries the id, and then
/// it answers the first project that does.
#[verifier::spinoff_prover]
#[verifier::rlimit(30)]
pub proof fn lemma_find_project_finds_every_project(ps: Seq<Project>, id: Seq<char>)
    ensures
        find_project(ps, id) is Some <==> exists|i: int| 0 <= i < ps.len() && (#[trigger] ps[i]).id@ == id,
        forall|i: int|
            0 <= i < ps.len() && (#[trigger] ps[i]).id@ == id && (forall|j: int| 0 <= j < i ==> ps[j].id@ != id)
                ==> find_project(ps, id) == Some(ps[i]),
    decreases ps.len(),
{
    if ps.len() > 0 {
        let rest = ps.drop_first();
        lemma_find_project_finds_every_project(rest, id);
        if ps[0].id@ != id {
            assert forall|i: int| 0 <= i < ps.len() && (#[trigger] ps[i]).id@ == id implies
                exists|j: int| 0 <= j < rest.len() && (#[trigger] rest[j]).id@ == id by {
                assert(rest[i - 1] == ps[i]);
            }
            assert forall|j: int| 0 <= j < rest.len() && (#[trigger] rest[j]).id@ == id implies
                exists|i: int| 0 <= i < ps.len() && (#[trigger] ps[i]).id@ == id by {
                assert(ps[j + 1] == rest[j]);
            }
            assert forall|i: int|
                0 <= i < ps.len() && (#[trigger] ps[i]).id@ == id && (forall|j: int| 0 <= j < i ==> ps[j].id@ != id)
                    implies find_project(ps, id) == Some(ps[i]) by {
                assert(i > 0);
                assert(rest[i - 1] == ps[i]);
                assert forall|j: int| 0 <= j < i - 1 implies rest[j].id@ != id by {
                    assert(rest[j] == ps[j + 1]);
                }
            }
        } else {
            assert forall|i: int|
                0 <= i < ps.len() && (#[trigger] ps[i]).id@ == id && (forall|j: int| 0 <= j < i ==> ps[j].id@ != id)
                    implies find_project(ps, id) == Some(ps[i]) by {
                if i > 0 {
                    assert(ps[0].id@ != id);
                }
            }
        }
    }
}

/// Every artifact of a project is found by its id, the last one too: the
/// lookup answers `Some` exactly when some artifact carries the id, and then
/// it answers the first artifact that does.
#[verifier::spinoff_prover]
#[verifier::rlimit(30)]
pub proof fn lemma_find_artifact_finds_every_artifact(arts: Seq<Artifact>, id: Seq<char>)
    ensures
        find_artifact(arts, id) is Some <==> exists|i: int| 0 <= i < arts.len() && (#[trigger] arts[i]).id@ == id,
        forall|i: int|
            0 <= i < arts.len() && (#[trigger] arts[i]).id@ == id && (forall|j: int| 0 <= j < i ==> arts[j].id@ != id)
                ==> find_artifact(arts, id) == Some(arts[i]),
    decreases arts.len(),
{
    if arts.len() > 0 {
        let rest = arts.drop_first();
        lemma_find_artifact_finds_every_artifact(rest, id);
        if arts[0].id@ != id {
            assert forall|i: int| 0 <= i < arts.len() && (#[trigger] arts[i]).id@ == id implies
                exists|j: int| 0 <= j < rest.len() && (#[trigger] rest[j]).id@ == id by {
                assert(rest[i - 1] == arts[i]);
            }
            assert forall|j: int| 0 <= j < rest.len() && (#[trigger] rest[j]).id@ == id implies
                exists|i: int| 0 <= i < arts.len() && (#[trigger] arts[i]).id@ == id by {
                assert(arts[j + 1] == rest[j]);
            }
            assert forall|i: int|
                0 <= i < arts.len() && (#[trigger] arts[i]).id@ == id && (forall|j: int| 0 <= j < i ==> arts[j].id@ != id)
                    implies find_artifact(arts, id) == Some(arts[i]) by {
                assert(i > 0);
                assert(rest[i - 1] == arts[i]);
                assert forall|j: int| 0 <= j < i - 1 implies rest[j].id@ != id by {
                    assert(rest[j] == arts[j + 1]);
                }
            }
        } else {
            assert forall|i: int|
                0 <= i < arts.len() && (#[trigger] arts[i]).id@ == id && (forall|j: int| 0 <= j < i ==> arts[j].id@ != id)
                    implies find_artifact(arts, id) == Some(arts[i]) by {
                if i > 0 {
                    assert(arts[0].id@ != id);
                }
            }
        }
    }
}

/// In a well-formed state, a tenant with a non-blank header who asks for any
/// stored artifact by its project's id and its own id is answered with that
/// artifact, wherever the project and the artifact stand in their lists.
pub proof fn lemma_lookup_finds_stored_artifact(state: AppState, tenant: Seq<char>, i: int, k: int)
    requires
        state.wf(),
        trim(tenant).len() > 0,
        0 <= i < state.projects_spec().len(),
        0 <= k < state.projects_spec()[i].artifacts@.len(),
    ensures
        lookup_spec(state.projects_spec(), Some(tenant), state.projects_spec()[i].id@,
            state.projects_spec()[i].artifacts@[k].id@) == ArtifactLookup::Found(state.projects_spec()[i].artifacts@[k]),
{
    let ps = state.projects_spec();
    let p = ps[i];
    let a = p.artifacts@[k];
    crate::artifact_service::auth::lemma_trim_shorter(tenant);
    lemma_find_project_finds_every_project(ps, p.id@);
    assert forall|j: int| 0 <= j < i implies ps[j].id@ != p.id@ by {
        assert(ps[j].id@ != ps[i].id@);
    }
    lemma_find_artifact_finds_every_artifact(p.artifacts@, a.id@);
    assert forall|j: int| 0 <= j < k implies p.artifacts@[j].id@ != a.id@ by {
        assert(ps[i].artifacts@[j].id@ != ps[i].artifacts@[k].id@);
    }
}

} // verus!
