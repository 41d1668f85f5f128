//! Persistent named scratchpads for the Herdr terminal workspace manager.
pub mod text;
pub mod text_map;
pub mod json;
pub mod config;
pub mod registry;
pub mod herdr;
pub mod cli;
pub mod scratchpad;
pub mod output;
pub mod laws;
