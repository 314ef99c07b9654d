//! Pure mappings between pi's payloads and what the client is shown.

pub mod bash;
pub mod blocks;
pub mod messages;
pub mod prompt;
pub mod tools;
