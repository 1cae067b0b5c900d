//! The verified core of the GQY web front end: the rules that decide what the
//! daemon serves, accepts, redacts and schedules, separated from the HTTP,
//! IPC and file-system plumbing around them.

// Foundations: text, paths, bytes, headers and the error type.
pub mod api;
pub mod bytes;
pub mod headers;
pub mod path;
pub mod text;

// Static assets and uploaded images.
pub mod asset_cleanup;
pub mod assets;
pub mod dev_assets;
pub mod embedded;
pub mod index_versioning;
pub mod persona_assets;
pub mod themes;

// Accounts, sessions and the payloads the WebUI reads.
pub mod accounts;
pub mod bootstrap;
pub mod dto;
pub mod session_cmds;
pub mod sessions;
pub mod today;
pub mod turn_assets;

// Runs, turns and what happens around them.
pub mod actor;
pub mod event_data;
pub mod event_stream;
pub mod goal;
pub mod ipc;
pub mod job_wake;
pub mod runs;
pub mod turns;

// Personas, configuration and sandboxes.
pub mod config_checks;
pub mod context_panel;
pub mod dashboards;
pub mod extensions;
pub mod persona;
pub mod providers;
pub mod rebuild;
pub mod sandbox_scope;
pub mod scope_dirs;
pub mod secrets;
