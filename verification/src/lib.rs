//! Core of an interactive command-language interpreter: the shell-grammar
//! parser, the incremental parse driver that classifies failures as
//! "needs more input" versus fatal, and the model of the job-control
//! coordinator that keeps the shell in charge of its terminal.

pub mod ast;
pub mod driver;
pub mod expand;
pub mod jobs;
pub mod laws;
pub mod parse;
pub mod render;
pub mod token;
