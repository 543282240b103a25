//! A coding assistant for the terminal, as far as it computes: the
//! streaming protocol pipeline, the agent turn state machine, the
//! permission and hook engine, the built-in tools, sessions and settings,
//! and the line editor and markdown renderer, with machine-checked
//! contracts. Whatever touches the machine (files, processes, the network,
//! the clock, the terminal) is the caller's part: the library says what to
//! do and what the outcome means.

pub mod agent;
pub mod buffer;
pub mod command;
pub mod compact;
pub mod completion;
pub mod config;
pub mod context;
pub mod conversation;
pub mod display;
pub mod editor;
pub mod error;
pub mod highlight;
pub mod history;
pub mod inline;
pub mod json;
pub mod markdown;
pub mod mcp;
pub mod mcp_config;
pub mod message;
pub mod permissions;
pub mod registry;
pub mod renderer;
pub mod repl;
pub mod retry;
pub mod session;
pub mod session_file;
pub mod settings;
pub mod spinner;
pub mod sse;
pub mod sse_render;
pub mod store;
pub mod stream;
pub mod style;
pub mod table;
pub mod text;
pub mod tool;
pub mod tools;
pub mod util;
pub mod wire;
pub mod worktree;
