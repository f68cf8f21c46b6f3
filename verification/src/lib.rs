//! The verified core of a chat-room agent: command execution with a
//! single-flight result cache, and the supervision of one chat session.

pub mod backoff;
pub mod cache;
pub mod command;
pub mod config;
pub mod error;
pub mod irc;
pub mod irc_string;
pub mod links;
pub mod omdb;
pub mod page;
pub mod reply;
pub mod text;
pub mod twitter;
pub mod wolfram;
pub mod youtube;
