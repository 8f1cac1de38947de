//! Core of a small interactive shell: a tokenizer for one command line, a
//! search-path resolver, the builtin commands and the executor's decisions.
//! Everything here is pure: the caller performs the file system and process
//! work and hands the results back.

pub mod tokenizer;
pub mod text;
pub mod resolver;
pub mod builtins;
pub mod executor;
