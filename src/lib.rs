//! Administration logic for a registry of Discourse forums: base URL and slug
//! normalisation, site identity and emoji resolution over loosely shaped JSON,
//! import classification, and registry reconciliation.

pub mod text;
pub mod utils;
pub mod config;
pub mod json;
pub mod emoji;
pub mod client;
pub mod paths;
pub mod import;
pub mod tidy;
pub mod commands;
