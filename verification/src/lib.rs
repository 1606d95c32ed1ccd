//! A small interactive command interpreter, as a library: the quote-aware
//! tokenizer, the parser that turns a token sequence into a command tree,
//! and the planner that lays a command tree out as the steps to run it.
//!
//! Everything here is free of I/O. The environment a line is read in (the
//! home directory, the search path, which candidate paths are regular files)
//! is handed in as plain data, and what has to happen to the outside world is
//! handed back as plain data.

pub mod commands;
pub mod completion;
pub mod engine;
pub mod engine_laws;
pub mod parser;
pub mod parser_laws;
pub mod text;
pub mod tokenizer;
pub mod tokenizer_laws;
