//! Keeping upstream prompt caches alive by repeating requests.

pub mod body;
pub mod key;
pub mod runtime;
pub mod session;
pub mod view;
