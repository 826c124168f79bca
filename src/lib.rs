pub mod entry;
pub mod error;
pub mod writer;
pub mod walker;
pub mod config;
pub mod cli;
