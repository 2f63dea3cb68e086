//! The decisions and texts behind the command-line tools and the MCP server.

pub mod mcp;
pub mod serve;
pub mod sessions;
pub mod status;
pub mod wait;
