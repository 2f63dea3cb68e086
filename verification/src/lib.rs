//! Discovery, client tracking and auto-connect policy for a Roblox
//! filesystem-sync server that AI agents can drive.
//!
//! A running server is not a connected one. This library decides what an
//! agent is told about that: which sessions run on this machine and which one
//! a filter picks, which Studio clients are attached and subscribed, how
//! strong a place's claim must be before it connects unattended, and what the
//! command-line tools and the MCP server answer.

pub mod auto_connect;
pub mod cli;
pub mod client_registry;
pub mod session_registry;
pub mod text;

pub use auto_connect::{derive_project_id, AutoConnectPolicy};
pub use client_registry::{ClientHandshake, ClientId, ClientInfo, ClientRegistry};
pub use session_registry::{SessionBeacon, SessionId};
