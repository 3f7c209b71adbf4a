//! Command-generation pipeline: turns a natural-language task description
//! into a shell command suggestion with an explanation, alternatives, a
//! confidence classification, and a safety filter that blocks dangerous
//! commands before they reach the caller.
//!
//! The pipeline itself is pure: callers supply an environment snapshot
//! ([`generator::EnvSnapshot`]) and perform the remote chat-completion call;
//! the library decides what to send, how to retry, and how to interpret what
//! came back.

pub mod classify;
pub mod config;
pub mod errors;
pub mod generator;
pub mod options;
pub mod parse;
pub mod request;
pub mod retry;
pub mod safety;
pub mod shell;
pub mod text;
