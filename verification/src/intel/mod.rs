//! Intel ingest: configuration, content filtering, title/summary/event
//! post-processing, geocoding requests, preferences and the kind registry.
pub mod config;
pub mod embed;
pub mod filter;
pub mod generate;
pub mod geocode;
pub mod ingest;
pub mod kind;
pub mod schema;

pub mod preferences;
pub mod hook;
