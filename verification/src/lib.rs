//! Supervision and self-update core: semantic-version comparison, the
//! version-record reader, the installer-script integrity gate, the
//! process runner's transcript, the health-check launcher and the update
//! orchestrator, each as verified logic driven by a thin I/O shell.

pub mod api;
pub mod errors;
pub mod health;
pub mod orchestrator;
pub mod record;
pub mod script;
pub mod transcript;
pub mod uninstall;
pub mod version;
