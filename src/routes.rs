//! The handlers behind the fixed routes.

pub mod echo;
pub mod hello;
pub mod time;
