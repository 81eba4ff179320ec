//! The window plugin.
pub mod win;
