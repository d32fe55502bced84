//! Capturing the last command and its output from a terminal.

pub mod ansi;
pub mod backend;
pub mod capture;
pub mod cli;
pub mod clipboard;
pub mod config;
pub mod doctor;
pub mod failure;
pub mod gather;
pub mod hints;
pub mod json;
pub mod render;
pub mod session;
pub mod state;
pub mod text;
