//! Buffers of the plugin's own.

pub mod debug;
