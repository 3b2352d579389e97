//! Verified core of the Seer OSINT plugins.
pub mod text;
pub mod llm_json;
pub mod intel;
pub mod urlenc;
pub mod reddit;
pub mod opensky;
pub mod fleet;
pub mod node_socket;
pub mod plugins;
