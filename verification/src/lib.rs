//! Project launcher logic for Zellij sessions: configuration handling,
//! session planning, picker state and screen layout.

pub mod text;
pub mod paths;
pub mod config;
pub mod zellij;
pub mod git_info;
pub mod app;
pub mod ui;
