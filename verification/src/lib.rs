//! Core of a desktop AI-chat client: the turn orchestrator and the pieces it
//! drives — prompt building, model-stream decoding, permission gating and
//! tool dispatch — with the conversation data model they share.

pub mod json;
pub mod model;
pub mod permissions;
pub mod settings;
pub mod textfmt;
pub mod session;
pub mod prompt;
pub mod decode;
pub mod dispatch;
pub mod orchestrator;
pub mod summarize;
pub mod security;
pub mod processor;
pub mod mcp;
