//! Verified core logic of the Zap terminal's embedded-webview and dsh integration.

pub mod agent_providers;
pub mod bridge;
pub mod browser_pane;
pub mod cat_file;
pub mod cef_input;
pub mod cef_lifecycle;
pub mod cef_update;
pub mod diff_layout;
pub mod diff_state;
pub mod dsh_context;
pub mod dsh_env;
pub mod dsh_logs;
pub mod dsh_pane;
pub mod dsh_update;
pub mod editor_state;
pub mod harness;
pub mod json;
pub mod lines;
pub mod loopback;
pub mod notebook_embedding;
pub mod omp_commands;
pub mod pane_view;
pub mod pid_record;
pub mod runtime;
pub mod select;
pub mod slash_command;
pub mod text;
pub mod webview;

pub use text::{from_chars, to_chars};
