//! The verified core of a terminal client for chat models.

pub mod agent;
pub mod claim;
pub mod client;
pub mod commands;
pub mod config;
pub mod conversation;
pub mod crypto;
pub mod error_log;
pub mod interactive_chat;
pub mod offsets;
pub mod session;
pub mod session_loop;
pub mod store;
pub mod terminal_ui;
pub mod text;
pub mod tools;
pub mod tui;
pub mod ui;
pub mod wrap;
