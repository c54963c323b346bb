//! A small in-memory key-value store, the one-shot commands that act on it
//! and an interactive shell that takes them line by line.
//!
//! - [`store`]: the store itself, a finite mapping from keys to values.
//! - [`text`]: comparing strings, splitting lines into words, joining words.
//! - [`cli`]: the commands of the command line.
//! - [`dispatch`]: what a command does to the store and what is printed for it.
//! - [`repl`]: the shell, as a function from the store and a line to a reply.
//! - [`laws`]: what holds of all of these, proved.
//!
//! Nothing in this crate reads input or prints: the functions take strings
//! and return the lines to print.

pub mod cli;
pub mod dispatch;
pub mod laws;
pub mod repl;
pub mod store;
pub mod text;

pub use store::{KvError, KvResult, KvStore};
