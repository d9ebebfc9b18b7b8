//! webcat: the decisions of a modal terminal web browser.
//!
//! The library holds what the browser decides and computes: how terminal bytes
//! become keys and clicks, what each key does in each mode, which escapes draw a
//! frame, what the observability buffers keep. Sockets, the terminal, the page
//! and the clock are on the other side of it.

pub mod app;
pub mod browser;
pub mod cli;
pub mod config;
pub mod encoding;
pub mod error;
pub mod geometry;
pub mod input;
pub mod json;
pub mod laws;
pub mod mcp;
pub mod observability;
pub mod renderer;
pub mod session;
pub mod terminal;
pub mod text;
pub mod ui;
pub mod utf8;
pub mod zoom;
