//! Reddit ingestion: subreddit names, sources and their forms, feed entries
//! and the posts they become, runners.
pub mod names;
pub mod sources;
pub mod fetch;
pub mod intel_kind;
pub mod runners;
pub mod hook;
