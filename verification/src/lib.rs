//! Resolution of game version manifests and the verified decisions behind
//! fetching what a resolved manifest requires.

pub mod text;
pub mod url;
pub mod argument;
pub mod artifact;
pub mod assets;
pub mod bootstrap;
pub mod checksum;
pub mod date;
pub mod download;
pub mod launch;
pub mod library;
pub mod manifest;
pub mod model;
pub mod options;
pub mod progress;
pub mod resolve;
pub mod rule;
pub mod version;
pub mod version_manager;
