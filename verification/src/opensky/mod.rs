//! OpenSky connector: OAuth client credentials and their token cache,
//! preferences, and the poll pass limits.
pub mod client;
pub mod config;
pub mod preferences;
pub mod hook;
