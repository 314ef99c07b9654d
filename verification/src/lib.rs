//! Adapter between an Agent Client Protocol client and the pi coding agent.

pub mod agent;
pub mod auth;
pub mod commands;
pub mod config;
pub mod error;
pub mod frames;
pub mod glob;
pub mod json;
pub mod mcp;
pub mod mock;
pub mod path;
pub mod pi;
pub mod protocol;
pub mod render;
pub mod session;
pub mod session_store;
pub mod settings;
pub mod startup;
pub mod table;
pub mod text;
pub mod time;
pub mod translate;
pub mod v2;
