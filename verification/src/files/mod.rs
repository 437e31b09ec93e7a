//! The file viewer: its tabs, its history, its file tree, and what it loads.

pub mod formats;
pub mod frame;
pub mod history;
pub mod loading;
pub mod tab;
pub mod tabs;
pub mod tree;
pub mod upkeep;
pub mod view;
pub mod viewer;
