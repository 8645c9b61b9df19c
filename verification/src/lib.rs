//! Verified core of the Android computer-use harness.
pub mod actions;
pub mod adb;
pub mod args;
pub mod commands;
pub mod config;
pub mod artifact;
pub mod deadline;
pub mod device;
pub mod dialog;
pub mod discovery;
pub mod dumpsys;
pub mod error;
pub mod polling;
pub mod scenario;
pub mod semantic;
pub mod session;
pub mod target;
pub mod text;
pub mod tool_surface;
pub mod touch;
pub mod ui;
pub mod verification;
pub mod window_views;
pub mod xml;
