//! An in-memory key-value store with a line-oriented text protocol.
//!
//! A request line is split into words, parsed into a typed command, run
//! against the store, and answered with one line of text.
pub mod text;
pub mod number;
pub mod store;
pub mod parser;
pub mod parser_utils;
pub mod commands;
pub mod executer;
