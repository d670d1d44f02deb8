//! Decision logic of an interactive developer-environment bootstrapper:
//! the tool catalogue, the installer state machine driven by the terminal
//! front end, the install scheduler, and the text processing it relies on.

pub mod tool;
pub mod text;
pub mod ansi;
pub mod wrap;
pub mod layout;
pub mod keys;
pub mod state;
pub mod session;
pub mod app;
pub mod install;
pub mod scheduler;
pub mod github;
pub mod detect;
pub mod postgres;
pub mod installer;
pub mod config;
pub mod view;
