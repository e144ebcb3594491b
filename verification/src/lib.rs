//! A3 platform: addressable agents that exchange messages.
//!
//! The verified core: agent addresses and their text and JSON forms,
//! manifests and their validation, tool definitions, the arguments of
//! the message-sending tool, the prompts given to a model and the loop
//! that drives an agent.

pub mod address;
pub mod agent;
pub mod error;
pub mod expansion;
pub mod headers;
pub mod json;
pub mod manifest;
pub mod message;
pub mod runtime;
pub mod send_tool;
pub mod string_map;
pub mod text;
pub mod tools;
