//! The MCP server: what its tools do, and how it is registered with an agent.

pub mod install;
pub mod server;
