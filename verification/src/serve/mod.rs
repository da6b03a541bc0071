//! The generic in-memory read-serve surface: presentation options,
//! cached pages, and the request-resolution decisions.
pub mod config;
pub mod state;
pub mod runtime;
