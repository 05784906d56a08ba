//! Host side of a debugger front-end's plugin system.
//!
//! The crate keeps track of plugin types and of the instances created from
//! them, survives a shared module being unloaded and loaded again, and moves
//! events between the plugins of a session through a pair of alternating
//! buffers, one tick at a time.

pub mod seq_facts;
pub mod read_write;
pub mod plugin_io;
pub mod plugin;
pub mod plugins;
pub mod backend_plugin;
pub mod view_plugins;
pub mod session;
pub mod imgui_sys;
