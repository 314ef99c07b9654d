//! The agent: what it answers a client's requests with.

pub mod builtin;
pub mod changelog;
pub mod configure;
pub mod dispatch;
pub mod lifecycle;
pub mod opening;
pub mod prompting;
pub mod replay;
pub mod requests;
pub mod titles;
