//! Artifacts and the store that serves them by id.

use vstd::prelude::*;
use std::collections::HashMap;
use crate::text::{owned, str_eq};

verus! {

broadcast use vstd::std_specs::hash::group_hash_axioms;

#[derive(Debug, Clone, PartialEq, Eq)]
pub struct Artifact {
    pub id: u64,
    pub tenant: String,
    pub name: String,
    pub classification: String,
}

impl Artifact {
    /// A field-by-field copy.
    pub fn copy(&self) -> (r: Artifact)
        ensures
            r == *self,
    {
        Artifact {
            id: self.id,
            tenant: self.tenant.clone(),
            name: self.name.clone(),
            classification: self.classification.clone(),
        }
    }
}

/// An artifact record by value.
pub open spec fn artifact_is(a: Artifact, id: u64, tenant: Seq<char>, name: Seq<char>, classification: Seq<char>) -> bool {
    a.id == id && a.tenant@ == tenant && a.name@ == name && a.classification@ == classification
}

/// What an unscoped lookup of `id` gives.
pub open spec fn unscoped_spec(m: Map<u64, Artifact>, id: u64) -> Option<Artifact> {
    if m.contains_key(id) {
        Some(m[id])
    } else {
        None
    }
}

/// What a lookup of `id` scoped to `tenant` gives.
pub open spec fn scoped_spec(m: Map<u64, Artifact>, tenant: Seq<char>, id: u64) -> Option<Artifact> {
    if m.contains_key(id) && m[id].tenant@ == tenant {
        Some(m[id])
    } else {
        None
    }
}

/// The artifacts, by id.
#[derive(Debug, Clone)]
pub struct ArtifactStore {
    artifacts: HashMap<u64, Artifact>,
}

impl Default for ArtifactStore {
    fn default() -> (r: Self)
        ensures
            r.artifacts() == Map::<u64, Artifact>::empty(),
    {
        ArtifactStore { artifacts: HashMap::new() }
    }
}

impl ArtifactStore {
    /// The store's contents.
    pub closed spec fn artifacts(&self) -> Map<u64, Artifact> {
        self.artifacts@
    }

    /// Artifact 1 of tenant `blue` and artifact 2 of tenant `red`.
    pub fn seeded() -> (r: Self)
        ensures
            r.artifacts().dom() == set![1u64, 2u64],
            artifact_is(r.artifacts()[1], 1, "blue"@, "public-release.tar"@, "internal"@),
            artifact_is(r.artifacts()[2], 2, "red"@, "acquisition-plan.zip"@, "restricted"@),
    {
        let mut artifacts: HashMap<u64, Artifact> = HashMap::new();
        artifacts.insert(1, Artifact {
            id: 1,
            tenant: owned("blue"),
            name: owned("public-release.tar"),
            classification: owned("internal"),
        });
        artifacts.insert(2, Artifact {
            id: 2,
            tenant: owned("red"),
            name: owned("acquisition-plan.zip"),
            classification: owned("restricted"),
        });
        assert(artifacts@.dom() =~= set![1u64, 2u64]);
        ArtifactStore { artifacts }
    }

    /// The artifact with this id, whoever owns it.
    pub fn get_unscoped(&self, id: u64) -> (r: Option<Artifact>)
        ensures
            r == unscoped_spec(self.artifacts(), id),
    {
        match self.artifacts.get(&id) {
            Some(a) => Some(a.copy()),
            None => None,
        }
    }

    /// The artifact with this id, only when `tenant` owns it.
    pub fn get_scoped(&self, tenant: &str, id: u64) -> (r: Option<Artifact>)
        ensures
            r == scoped_spec(self.artifacts(), tenant@, id),
    {
        match self.artifacts.get(&id) {
            Some(a) => if str_eq(a.tenant.as_str(), tenant) {
                Some(a.copy())
            } else {
                None
            },
            None => None,
        }
    }
}

/// A scoped lookup gives only the asking tenant's artifacts, and gives them
/// as the unscoped lookup does.
pub proof fn lemma_scoped_refines_unscoped(m: Map<u64, Artifact>, tenant: Seq<char>, id: u64)
    ensures
        scoped_spec(m, tenant, id) matches Some(a) ==> a.tenant@ == tenant && unscoped_spec(m, id) == Some(a),
        unscoped_spec(m, id) matches Some(a) ==> (a.tenant@ == tenant ==> scoped_spec(m, tenant, id) == Some(a)),
{
}

} // verus!
