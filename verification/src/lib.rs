//! Verified core of a small command-line assistant.
pub mod text;
pub mod profile;
pub mod cli;
pub mod query;
pub mod commit;
pub mod config;
pub mod llm;
pub mod session;
pub mod clipboard;
