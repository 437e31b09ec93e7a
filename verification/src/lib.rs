//! The verified core of okena, a terminal workspace for developers.

pub mod calendar;
pub mod client;
mod clock;
pub mod extensions;
pub mod files;
pub mod git;
pub mod http;
pub mod json;
pub mod math;
pub mod path;
pub mod process;
pub mod profiles;
pub mod send_payload;
pub mod text;
pub mod text_map;
pub mod updater;
