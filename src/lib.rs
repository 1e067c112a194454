//! The command engine of an interactive shell: a parser from a line of text
//! to a tree of command nodes, the decisions that running such a tree takes
//! (forking, pipes, conditionals, loops, case arms, variable scopes), and the
//! state of the line editor that reads the text.

pub mod command;
pub mod editor;
pub mod exec;
pub mod feeder;
pub mod glob;
pub mod shell_core;
pub mod width;
