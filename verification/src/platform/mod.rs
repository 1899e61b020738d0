//! An application platform: the tenant-aware artifact store, the egress
//! policy of the fetch service, replace-in-place cells, and the API's
//! request decisions.

pub mod store;
pub mod fetch;
pub mod cache;
pub mod api;
