//! The read-side projection surface: server configuration and adapter
//! state.
pub mod config;
pub mod state;
pub mod handlers;
