//! Collects repository metadata from a code-hosting search API, keeps one
//! record per source identifier, and serves the records page by page.
pub mod models;
pub mod collector;
pub mod store;
pub mod handlers;
