//! Core of a browser-extension bridge: the rules and state machines behind
//! its JSON-RPC surface and its sandboxed JavaScript guests.

pub mod text;
pub mod keyed;
pub mod inject;
pub mod guest_scripts;
pub mod pump;
pub mod rpc;
pub mod sandbox;
pub mod registry;
pub mod tools;
pub mod host;
pub mod frame;
pub mod config;
pub mod llm;
pub mod messages;
pub mod fetch;
