//! Decision logic for preparing a pull request from a dirty working copy
//! inside a disposable secondary checkout.
//!
//! The library never touches the repository itself. Each stateful part (the
//! capture of uncommitted state, the workspace session, the reconciliation
//! of the original checkout) names one [`command::Command`] at a time and is
//! told how it ended; its caller performs the commands.
pub mod branches;
pub mod command;
pub mod forge;
pub mod json;
pub mod patch_cache;
pub mod reconcile;
pub mod reply;
pub mod repo;
pub mod snapshot;
pub mod tabs;
pub mod text;
pub mod workspace;
