//! A session: the turns it runs and what it tells its client.

pub mod drive;
pub mod endings;
pub mod extension;
pub mod facts;
pub mod failure;
pub mod laws;
pub mod manager;
pub mod order;
pub mod pump;
pub mod telling;
