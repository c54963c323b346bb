//! The commands that the program takes from its command line.

use crate::text::Text;
use vstd::prelude::*;

verus! {

/// One command, as the user gave it.
#[derive(Debug, PartialEq, Eq)]
pub enum Command {
    /// Store a value under a key.
    Put { key: String, value: String },
    /// Look up the value under a key.
    Get { key: String },
    /// Remove the entry under a key.
    Delete { key: String },
    /// Show every entry.
    List,
    /// Start the interactive shell.
    Repl,
}

/// The parsed command line.
#[derive(Debug, PartialEq, Eq)]
pub struct Cli {
    pub command: Command,
}

/// A command as contracts see it: what it asks for, with keys and values as
/// sequences of characters.
pub enum Operation {
    Put { key: Text, value: Text },
    Get { key: Text },
    Delete { key: Text },
    List,
    EnterShell,
}

impl View for Command {
    type V = Operation;

    open spec fn view(&self) -> Operation {
        match self {
            Command::Put { key, value } => Operation::Put { key: key@, value: value@ },
            Command::Get { key } => Operation::Get { key: key@ },
            Command::Delete { key } => Operation::Delete { key: key@ },
            Command::List => Operation::List,
            Command::Repl => Operation::EnterShell,
        }
    }
}

impl View for Cli {
    type V = Operation;

    open spec fn view(&self) -> Operation {
        self.command@
    }
}

} // verus!
