//! Verified core of the cherry-pit web and work-queue adapters.

pub mod text;
pub mod path;
pub mod http;
pub mod serve;
pub mod validation;
pub mod projection;
pub mod content;
pub mod wq;
pub mod ws;
pub mod cache;
pub mod trace;
pub mod correlation;
pub mod enum_check;
pub mod aliases;
