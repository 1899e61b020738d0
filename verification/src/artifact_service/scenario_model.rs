//! Shared vocabulary for separating a local defect from application risk.

use vstd::prelude::*;

verus! {

/// Independent facts that make up an assessment.
#[derive(Clone, Copy, Debug, Eq, PartialEq, Structural)]
pub struct Truth {
    pub defect: bool,
    pub built: bool,
    pub reachable: bool,
    pub attacker_controlled: bool,
    pub impactful: bool,
}

impl Truth {
    /// A finding is exploitable only when every independent condition holds.
    pub fn exploitable(self) -> (r: bool)
        ensures
            r == (self.defect && self.built && self.reachable && self.attacker_controlled
                && self.impactful),
    {
        self.defect && self.built && self.reachable && self.attacker_controlled && self.impactful
    }
}

/// Tool versions that produced an assessment.
#[derive(Clone, Debug, Eq, PartialEq)]
pub struct ToolMatrix<'a> {
    pub rustc: &'a str,
    pub clippy: &'a str,
    pub miri: Option<&'a str>,
    pub cargo_fuzz: Option<&'a str>,
    pub loom: Option<&'a str>,
}

} // verus!
