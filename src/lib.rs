//! Core of a small interactive shell: the command-line lexer, the
//! redirection resolver and the decisions of the built-in commands.
pub mod builtins;
pub mod command;
pub mod lexer;
pub mod redirect;
