//! Keeps the MCP server configuration of several coding agents in step
//! with one universal file, `.agents/mcp.json`: reads and checks that
//! file, renders each agent's own configuration from it, and holds the
//! decisions of the daemon that watches it.

pub mod cli;
pub mod config;
pub mod daemon;
pub mod detect;
pub mod host;
pub mod json;
pub mod keyed;
pub mod project;
pub mod renderers;
pub mod report;
pub mod service;
pub mod text;
