//! A multi-tenant artifact-processing service: tenant authorization, the
//! artifact envelope parsers, worker configuration, the API's artifact
//! lookup, lab tooling data, and the assessment vocabulary.

pub mod api;
pub mod auth;
pub mod binary_parser;
pub mod config;
pub mod labctl;
pub mod scenario_model;
pub mod unsafe_cache;
pub mod worker;
