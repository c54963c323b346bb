//! What a command does to the store and what the program prints for it.

use crate::cli::{Command, Operation};
use crate::store::{deletion, lookup, pairs_view, text_of, KvError, KvResult, KvStore, Model};
use crate::text::{lines, Text};
use vstd::prelude::*;

verus! {

/// The mapping after `op` has been applied to `m`.
pub open spec fn apply(m: Model, op: Operation) -> Model {
    match op {
        Operation::Put { key, value } => m.insert(key, value),
        Operation::Delete { key } => m.remove(key),
        _ => m,
    }
}

/// The line for a key that the store does not hold.
pub open spec fn not_found_line(key: Text) -> Text {
    "Key not found: "@ + key
}

/// The line for one entry of a listing.
pub open spec fn entry_line(key: Text, value: Text) -> Text {
    key + " = "@ + value
}

/// The line for what a lookup found: the value, or `(nil)`.
pub open spec fn get_line(found: Option<Text>) -> Text {
    match found {
        Some(value) => value,
        None => "(nil)"@,
    }
}

/// The line for what a deletion came to: `Deleted`, or that the key was not
/// found.
pub open spec fn delete_line(outcome: Result<Model, Text>) -> Text {
    match outcome {
        Ok(_) => "Deleted"@,
        Err(missing) => not_found_line(missing),
    }
}

/// The lines for a listing: one per entry in the listing's order, or
/// `(empty)` alone where there is no entry.
pub open spec fn list_lines(listing: Seq<(Text, Text)>) -> Seq<Text> {
    if listing.len() == 0 {
        seq!["(empty)"@]
    } else {
        Seq::new(listing.len(), |i: int| entry_line(listing[i].0, listing[i].1))
    }
}

/// The lines that the program prints for `op` on a store that holds `m` and
/// lists its entries as `listing`.
pub open spec fn answer(m: Model, listing: Seq<(Text, Text)>, op: Operation) -> Seq<Text> {
    match op {
        Operation::Put { key, value } => seq!["OK"@],
        Operation::Get { key } => seq![get_line(lookup(m, key))],
        Operation::Delete { key } => seq![delete_line(deletion(m, key))],
        Operation::List => list_lines(listing),
        Operation::EnterShell => Seq::empty(),
    }
}

impl KvError {
    /// The text shown to the user for this error.
    pub fn message(&self) -> (text: String)
        ensures
            text@ == not_found_line(self.key()),
    {
        match self {
            KvError::KeyNotFound(key) => {
                let mut text = "Key not found: ".to_owned();
                text.append(key.as_str());
                text
            },
        }
    }
}

/// The line for the outcome of a lookup.
pub fn render_get(value: Option<&str>) -> (line: String)
    ensures
        line@ == get_line(text_of(value)),
{
    match value {
        Some(v) => v.to_owned(),
        None => "(nil)".to_owned(),
    }
}

/// The line for the outcome of a deletion.
pub fn render_delete(outcome: &KvResult<()>) -> (line: String)
    ensures
        line@ == match outcome {
            Ok(_) => "Deleted"@,
            Err(e) => not_found_line(e.key()),
        },
{
    match outcome {
        Ok(_) => "Deleted".to_owned(),
        Err(e) => e.message(),
    }
}

/// The lines for a listing of the store's entries.
pub fn render_list(pairs: &[(&str, &str)]) -> (shown: Vec<String>)
    ensures
        lines(shown@) == list_lines(pairs_view(pairs@)),
{
    let mut shown: Vec<String> = Vec::new();
    if pairs.len() == 0 {
        shown.push("(empty)".to_owned());
        assert(lines(shown@) =~= seq!["(empty)"@]);
        return shown;
    }
    let mut i: usize = 0;
    while i < pairs.len()
        invariant
            i <= pairs@.len(),
            shown@.len() == i,
            forall|j: int|
                0 <= j < i ==> (#[trigger] shown@[j])@ == entry_line(pairs@[j].0@, pairs@[j].1@),
        decreases pairs@.len() - i,
    {
        let mut line = pairs[i].0.to_owned();
        line.append(" = ");
        line.append(pairs[i].1);
        shown.push(line);
        i += 1;
    }
    assert(lines(shown@) =~= list_lines(pairs_view(pairs@)));
    shown
}

/// Whether `op` is sure to leave a store that holds `m` exactly as it is.
pub open spec fn leaves_store(m: Model, op: Operation) -> bool {
    match op {
        Operation::Put { key, value } => false,
        Operation::Delete { key } => !m.contains_key(key),
        _ => true,
    }
}

/// What the program does for a command: print lines, or hand the store to
/// the interactive shell.
#[derive(Debug)]
pub enum Answer {
    Lines(Vec<String>),
    EnterShell,
}

/// Applies `command` to `store` and says what to print for it.
pub fn execute(store: &mut KvStore, command: &Command) -> (outcome: Answer)
    ensures
        final(store)@ == apply(old(store)@, command@),
        leaves_store(old(store)@, command@) ==> *final(store) == *old(store),
        match outcome {
            Answer::Lines(shown) => command@ !is EnterShell && lines(shown@) == answer(
                old(store)@,
                old(store).listing(),
                command@,
            ),
            Answer::EnterShell => command@ is EnterShell,
        },
{
    let mut shown: Vec<String> = Vec::new();
    match command {
        Command::Put { key, value } => {
            store.set(key.as_str(), value.as_str());
            shown.push("OK".to_owned());
        },
        Command::Get { key } => {
            shown.push(render_get(store.get(key.as_str())));
        },
        Command::Delete { key } => {
            let outcome = store.delete(key.as_str());
            shown.push(render_delete(&outcome));
        },
        Command::List => {
            let pairs = store.iter();
            shown = render_list(pairs.as_slice());
        },
        Command::Repl => {
            return Answer::EnterShell;
        },
    }
    assert(lines(shown@) =~= answer(old(store)@, old(store).listing(), command@));
    Answer::Lines(shown)
}

} // verus!
