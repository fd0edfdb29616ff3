//! A host/guest bridge for sandboxed plugin modules that exchange typed,
//! structured values through the plugin's linear memory.

pub mod allocator;
pub mod buddy;
pub mod engine;
pub mod error;
pub mod guest;
pub mod host;
pub mod persist;
pub mod plugin;
pub mod translate;
pub mod wire;
