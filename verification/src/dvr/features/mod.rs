//! Feature handlers. Each takes the application and a request and answers
//! with a response; several have a `fixed_*` counterpart.

pub mod auth;
pub mod collect;
pub mod concurrency;
pub mod dedup;
pub mod documents;
pub mod file_download;
pub mod framing;
pub mod header_parse;
pub mod hooks;
pub mod native;
pub mod nested;
pub mod profile;
pub mod proxy;
pub mod records;
pub mod upload;
pub mod user_search;
pub mod validation;
