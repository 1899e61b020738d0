use vstd::prelude::*;

pub mod text;
pub mod dvr;
pub mod review_lab;
pub mod platform;
pub mod artifact_service;

verus! {

} // verus!
