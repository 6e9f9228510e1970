//! A terminal chat client for a local language-model agent, and the line
//! protocol it speaks with the agent server.

pub mod protocol;
pub mod text;
pub mod session;
pub mod app;
pub mod stream;
pub mod ui;
pub mod agent;
pub mod wire;
