//! The interactive shell, one line at a time.
//!
//! The shell has a single state, waiting for a line. [`step`] takes the next
//! line, applies it to the store and returns what to print and whether the
//! session is over; reading lines and printing is left to the caller.

use crate::cli::{Command, Operation};
use crate::dispatch::{answer, apply, execute, leaves_store, Answer};
use crate::store::{KvStore, Model};
use crate::text::{join_spaced, join_words, lines, same_text, split_words, texts, words, Text};
use vstd::prelude::*;
use vstd::slice::slice_subrange;

verus! {

/// The subcommands that take arguments.
#[derive(Debug, Clone, Copy, PartialEq, Eq)]
pub enum Verb {
    Put,
    Get,
    Delete,
}

/// What a line asks of the shell, as contracts see it.
pub enum Request {
    /// The line holds no word.
    Blank,
    /// A command for the store.
    Run(Operation),
    /// Show the help text.
    Help,
    /// End the session.
    Quit,
    /// The subcommand lacks an argument.
    Incomplete(Verb),
    /// The first word is no subcommand.
    Unknown(Text),
}

/// What a line asks of the shell.
#[derive(Debug, PartialEq, Eq)]
pub enum ShellCommand {
    Blank,
    Run(Command),
    Help,
    Quit,
    Incomplete(Verb),
    Unknown(String),
}

impl View for ShellCommand {
    type V = Request;

    open spec fn view(&self) -> Request {
        match self {
            ShellCommand::Blank => Request::Blank,
            ShellCommand::Run(command) => Request::Run(command@),
            ShellCommand::Help => Request::Help,
            ShellCommand::Quit => Request::Quit,
            ShellCommand::Incomplete(verb) => Request::Incomplete(*verb),
            ShellCommand::Unknown(word) => Request::Unknown(word@),
        }
    }
}

/// The request that `line` makes. The first word names the subcommand,
/// exactly and in lower case; `set` takes the second word as the key and the
/// remaining words, joined by single spaces, as the value.
pub open spec fn parse(line: Text) -> Request {
    let w = words(line);
    if w.len() == 0 {
        Request::Blank
    } else if w[0] == "set"@ {
        if w.len() < 3 {
            Request::Incomplete(Verb::Put)
        } else {
            Request::Run(Operation::Put { key: w[1], value: join_spaced(w.skip(2)) })
        }
    } else if w[0] == "get"@ {
        if w.len() < 2 {
            Request::Incomplete(Verb::Get)
        } else {
            Request::Run(Operation::Get { key: w[1] })
        }
    } else if w[0] == "delete"@ || w[0] == "del"@ {
        if w.len() < 2 {
            Request::Incomplete(Verb::Delete)
        } else {
            Request::Run(Operation::Delete { key: w[1] })
        }
    } else if w[0] == "list"@ {
        Request::Run(Operation::List)
    } else if w[0] == "help"@ {
        Request::Help
    } else if w[0] == "quit"@ || w[0] == "exit"@ {
        Request::Quit
    } else {
        Request::Unknown(w[0])
    }
}

/// Reads a line as a request to the shell.
pub fn parse_line(line: &str) -> (command: ShellCommand)
    ensures
        command@ == parse(line@),
{
    let found = split_words(line);
    if found.len() == 0 {
        return ShellCommand::Blank;
    }
    let ghost w = words(line@);
    let name = found[0];
    assert(name@ == w[0]);
    if same_text(name, "set") {
        if found.len() < 3 {
            ShellCommand::Incomplete(Verb::Put)
        } else {
            let rest = slice_subrange(found.as_slice(), 2, found.len());
            assert(texts(rest@) =~= w.skip(2));
            assert(found[1]@ == w[1]);
            ShellCommand::Run(Command::Put { key: found[1].to_owned(), value: join_words(rest) })
        }
    } else if same_text(name, "get") {
        if found.len() < 2 {
            ShellCommand::Incomplete(Verb::Get)
        } else {
            assert(found[1]@ == w[1]);
            ShellCommand::Run(Command::Get { key: found[1].to_owned() })
        }
    } else if same_text(name, "delete") || same_text(name, "del") {
        if found.len() < 2 {
            ShellCommand::Incomplete(Verb::Delete)
        } else {
            assert(found[1]@ == w[1]);
            ShellCommand::Run(Command::Delete { key: found[1].to_owned() })
        }
    } else if same_text(name, "list") {
        ShellCommand::Run(Command::List)
    } else if same_text(name, "help") {
        ShellCommand::Help
    } else if same_text(name, "quit") || same_text(name, "exit") {
        ShellCommand::Quit
    } else {
        ShellCommand::Unknown(name.to_owned())
    }
}

/// The hint shown where a subcommand lacks an argument.
pub open spec fn usage_line(verb: Verb) -> Text {
    match verb {
        Verb::Put => "Usage: set <key> <value>"@,
        Verb::Get => "Usage: get <key>"@,
        Verb::Delete => "Usage: delete <key>"@,
    }
}

/// The line shown for a first word that is no subcommand.
pub open spec fn unknown_line(word: Text) -> Text {
    "Unknown command: "@ + word + ". Type 'help' for available commands."@
}

/// The help text, line by line.
pub open spec fn help_lines() -> Seq<Text> {
    seq![
        "Available commands:"@,
        "  set <key> <value>  - Set a key-value pair"@,
        "  get <key>          - Get a value by key"@,
        "  delete <key>       - Delete a key-value pair"@,
        "  list               - List all key-value pairs"@,
        "  help               - Show this help message"@,
        "  quit/exit          - Exit the REPL"@,
    ]
}

/// The lines that the shell prints for `request` on a store that holds `m`
/// and lists its entries as `listing`.
pub open spec fn reply_lines(m: Model, listing: Seq<(Text, Text)>, request: Request) -> Seq<Text> {
    match request {
        Request::Blank => Seq::empty(),
        Request::Run(op) => answer(m, listing, op),
        Request::Help => help_lines(),
        Request::Quit => seq!["Bye."@],
        Request::Incomplete(verb) => seq![usage_line(verb)],
        Request::Unknown(word) => seq![unknown_line(word)],
    }
}

/// The mapping after the shell has served `request` on a store that held `m`.
pub open spec fn next_model(m: Model, request: Request) -> Model {
    match request {
        Request::Run(op) => apply(m, op),
        _ => m,
    }
}

/// Whether serving `request` is sure to leave a store that holds `m` exactly
/// as it is.
pub open spec fn keeps_store(m: Model, request: Request) -> bool {
    match request {
        Request::Run(op) => leaves_store(m, op),
        _ => true,
    }
}

/// What the shell answers to one line.
#[derive(Debug)]
pub struct Reply {
    /// The lines to print, in order.
    pub lines: Vec<String>,
    /// Whether the session ends with this line.
    pub quit: bool,
}

/// The line printed when the shell starts.
pub fn banner() -> (line: String)
    ensures
        line@ == "Entering kvs REPL. Type 'help' for commands or 'quit' to exit."@,
{
    "Entering kvs REPL. Type 'help' for commands or 'quit' to exit.".to_owned()
}

/// The help text, line by line.
pub fn help() -> (shown: Vec<String>)
    ensures
        lines(shown@) == help_lines(),
{
    let mut shown: Vec<String> = Vec::new();
    shown.push("Available commands:".to_owned());
    shown.push("  set <key> <value>  - Set a key-value pair".to_owned());
    shown.push("  get <key>          - Get a value by key".to_owned());
    shown.push("  delete <key>       - Delete a key-value pair".to_owned());
    shown.push("  list               - List all key-value pairs".to_owned());
    shown.push("  help               - Show this help message".to_owned());
    shown.push("  quit/exit          - Exit the REPL".to_owned());
    assert(lines(shown@) =~= help_lines());
    shown
}

/// The hint for a subcommand that lacks an argument.
pub fn usage(verb: Verb) -> (line: String)
    ensures
        line@ == usage_line(verb),
{
    match verb {
        Verb::Put => "Usage: set <key> <value>".to_owned(),
        Verb::Get => "Usage: get <key>".to_owned(),
        Verb::Delete => "Usage: delete <key>".to_owned(),
    }
}

/// Serves a request that has been read from a line.
pub fn serve(store: &mut KvStore, command: &ShellCommand) -> (reply: Reply)
    ensures
        final(store)@ == next_model(old(store)@, command@),
        keeps_store(old(store)@, command@) ==> *final(store) == *old(store),
        lines(reply.lines@) == reply_lines(old(store)@, old(store).listing(), command@),
        reply.quit == (command@ is Quit),
{
    let mut shown: Vec<String> = Vec::new();
    let mut quit = false;
    match command {
        ShellCommand::Blank => {},
        ShellCommand::Run(inner) => {
            match execute(store, inner) {
                Answer::Lines(given) => {
                    shown = given;
                },
                Answer::EnterShell => {},
            }
        },
        ShellCommand::Help => {
            shown = help();
        },
        ShellCommand::Quit => {
            shown.push("Bye.".to_owned());
            quit = true;
        },
        ShellCommand::Incomplete(verb) => {
            shown.push(usage(*verb));
        },
        ShellCommand::Unknown(word) => {
            let mut line = "Unknown command: ".to_owned();
            line.append(word.as_str());
            line.append(". Type 'help' for available commands.");
            shown.push(line);
        },
    }
    assert(lines(shown@) =~= reply_lines(old(store)@, old(store).listing(), command@));
    Reply { lines: shown, quit }
}

/// Serves one line of input: reads it as a request, applies it to the store,
/// and returns what to print and whether the session is over.
pub fn step(store: &mut KvStore, line: &str) -> (reply: Reply)
    ensures
        final(store)@ == next_model(old(store)@, parse(line@)),
        keeps_store(old(store)@, parse(line@)) ==> *final(store) == *old(store),
        lines(reply.lines@) == reply_lines(old(store)@, old(store).listing(), parse(line@)),
        reply.quit == (parse(line@) is Quit),
{
    let command = parse_line(line);
    serve(store, &command)
}

} // verus!
