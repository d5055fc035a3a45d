//! A line-oriented shell command harness: the command formatter, the output
//! sanitizer and the session manager that drives one interactive shell.

mod text;
pub mod quote;
pub mod sanitize;
pub mod protocol;
pub mod session;
