//! Installs and updates command-line applications from release archives or
//! user-supplied commands, and replaces its own executable on self-update.
//!
//! The decisions are verified here; processes, network and filesystem work
//! are performed by the caller, which hands results back as plain values.

pub mod app;
pub mod error;
pub mod github;
pub mod install;
pub mod platform;
pub mod resolve;
pub mod template;
pub mod text;
pub mod version;
