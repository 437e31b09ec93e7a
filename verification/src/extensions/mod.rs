//! The status bar extensions: what services say of themselves, and how much of
//! a subscription is used.

pub mod claude;
pub mod claude_fetch;
pub mod claude_view;
pub mod codex_fetch;
pub mod codex_status;
pub mod codex_usage;
pub mod codex_view;
pub mod numbers;
pub mod poll;
pub mod popover;
pub mod ui_helpers;
