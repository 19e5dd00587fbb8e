//! A small interactive shell, split into a verified core and an
//! unverified host. The core turns one line of input into a structured
//! command — a builtin invocation or an external pipeline with an
//! optional output redirect — and decides how that command is carried
//! out: which usage errors to report, which operating-system pipes to
//! create, how each stage's standard input and output are wired, and in
//! which order handles are handed off and closed. The host performs the
//! process spawning and the file access.

pub mod builtin_cmd;
pub mod exec;
pub mod lexer;
pub mod parser;
pub mod words;
