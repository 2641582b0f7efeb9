//! Real-time fan-out and authorization core of a chat backend: broadcast
//! topics per channel, the registry that owns them, the permission oracle,
//! identity resolution, and the decisions of the HTTP handlers.
pub mod auth;
pub mod chat;
pub mod http;
pub mod permissions;
pub mod registry;
pub mod servers;
pub mod topic;
