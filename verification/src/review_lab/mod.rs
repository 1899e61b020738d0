//! An application lab: training bundles and their extraction, configuration
//! and its safety gates, the fetch service's error vocabulary, and a
//! replace-in-place cell.

pub mod bundle;
pub mod config;
pub mod cache;
pub mod api;
