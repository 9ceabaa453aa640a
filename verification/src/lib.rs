//! crest: the verified core of a modular status bar for Windows.
//!
//! - [`config`]      — the configuration and its KDL reader
//! - [`module`]      — the module trait, registry, runtime and built-in modules
//! - [`wiri_ipc`]    — the window manager's events and the state they build
//! - [`aurora_ipc`]  — the wallpaper shown on each monitor
//! - [`control_ipc`] — requests on the bar's control pipe
//! - [`bar`]         — bar geometry
pub mod aurora_ipc;
pub mod bar;
pub mod config;
pub mod control_ipc;
pub mod module;
pub mod text;
pub mod wiri_ipc;
