//! Session runtime for a line-oriented chat client: input classification,
//! session state with token accounting, history persistence with a numeric
//! session-ID scheme, and the fold that accumulates streamed reply events.
pub mod agent_tools;
pub mod anthropic;
pub mod chat;
pub mod codec;
pub mod commands;
pub mod config;
pub mod input;
pub mod message;
pub mod runner;
pub mod stream;
pub mod text;
