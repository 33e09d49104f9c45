//! Verified core of `ditto`, a dotfile manager: path handling, configuration
//! model, backup locations and the decision logic of every command.

pub mod backup;
pub mod config;
pub mod error;
pub mod hooks;
pub mod cli;
pub mod laws;
pub mod ops;
pub mod paths;
pub mod text_diff;
pub mod toml_doc;
