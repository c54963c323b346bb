use cli_kvs::cli::Command;
use cli_kvs::repl::{banner, help, parse_line, serve, step, usage, ShellCommand, Verb};
use cli_kvs::store::KvStore;

fn snapshot(store: &KvStore) -> Vec<(String, String)> {
    store.iter().into_iter().map(|(k, v)| (k.to_string(), v.to_string())).collect()
}

#[test]
fn set_takes_the_rest_of_the_line_as_value() {
    assert_eq!(
        parse_line("set  alpha   beta gamma"),
        ShellCommand::Run(Command::Put { key: "alpha".to_string(), value: "beta gamma".to_string() })
    );
    let mut store = KvStore::new();
    let reply = step(&mut store, "set  alpha   beta gamma");
    assert_eq!(reply.lines, vec!["OK"]);
    assert!(!reply.quit);
    assert_eq!(store.get("alpha"), Some("beta gamma"));
    assert_eq!(store.len(), 1);
}

#[test]
fn value_spacing_is_normalised() {
    let mut store = KvStore::new();
    step(&mut store, "\tset k   a\t\tb \n c  ");
    assert_eq!(store.get("k"), Some("a b c"));
}

#[test]
fn empty_line_prints_nothing_and_changes_nothing() {
    let mut store = KvStore::new();
    store.set("a", "1");
    store.set("b", "2");
    let before = snapshot(&store);
    for line in ["", " ", "   \t  ", "\r\n"] {
        let reply = step(&mut store, line);
        assert!(reply.lines.is_empty());
        assert!(!reply.quit);
        assert_eq!(snapshot(&store), before);
        assert_eq!(parse_line(line), ShellCommand::Blank);
    }
}

#[test]
fn del_of_a_key_never_set_says_not_found() {
    let mut store = KvStore::new();
    let reply = step(&mut store, "del missing");
    assert_eq!(reply.lines, vec!["Key not found: missing"]);
    assert!(!reply.quit);
    assert!(store.is_empty());
}

#[test]
fn two_sets_then_list_show_both_entries() {
    let mut store = KvStore::new();
    assert_eq!(step(&mut store, "set a 1").lines, vec!["OK"]);
    assert_eq!(step(&mut store, "set b 2").lines, vec!["OK"]);
    let mut lines = step(&mut store, "list").lines;
    assert_eq!(lines.len(), 2);
    lines.sort();
    assert_eq!(lines, vec!["a = 1", "b = 2"]);
}

#[test]
fn delete_then_get_on_a_fresh_store() {
    let mut store = KvStore::new();
    assert_eq!(step(&mut store, "delete a").lines, vec!["Key not found: a"]);
    assert_eq!(step(&mut store, "get a").lines, vec!["(nil)"]);
}

#[test]
fn get_prints_the_value() {
    let mut store = KvStore::new();
    step(&mut store, "set name Ada Lovelace");
    assert_eq!(step(&mut store, "get name").lines, vec!["Ada Lovelace"]);
    assert_eq!(step(&mut store, "get name and more words").lines, vec!["Ada Lovelace"]);
}

#[test]
fn delete_and_del_are_the_same() {
    let mut store = KvStore::new();
    step(&mut store, "set a 1");
    step(&mut store, "set b 2");
    assert_eq!(step(&mut store, "delete a").lines, vec!["Deleted"]);
    assert_eq!(step(&mut store, "del b").lines, vec!["Deleted"]);
    assert!(store.is_empty());
    assert_eq!(
        parse_line("del k extra"),
        ShellCommand::Run(Command::Delete { key: "k".to_string() })
    );
    assert_eq!(parse_line("delete k"), parse_line("del k"));
}

#[test]
fn list_of_an_empty_store_says_empty() {
    let mut store = KvStore::new();
    assert_eq!(step(&mut store, "list").lines, vec!["(empty)"]);
    assert_eq!(step(&mut store, "  list  ignored").lines, vec!["(empty)"]);
}

#[test]
fn missing_arguments_give_a_usage_hint() {
    let mut store = KvStore::new();
    store.set("k", "v");
    let before = snapshot(&store);
    assert_eq!(step(&mut store, "set").lines, vec!["Usage: set <key> <value>"]);
    assert_eq!(step(&mut store, "set k").lines, vec!["Usage: set <key> <value>"]);
    assert_eq!(step(&mut store, "get").lines, vec!["Usage: get <key>"]);
    assert_eq!(step(&mut store, "delete").lines, vec!["Usage: delete <key>"]);
    assert_eq!(step(&mut store, "del").lines, vec!["Usage: delete <key>"]);
    assert_eq!(snapshot(&store), before);
    assert_eq!(parse_line("set k"), ShellCommand::Incomplete(Verb::Put));
    assert_eq!(parse_line("get"), ShellCommand::Incomplete(Verb::Get));
    assert_eq!(parse_line("del"), ShellCommand::Incomplete(Verb::Delete));
}

#[test]
fn usage_hints_name_the_subcommand() {
    assert_eq!(usage(Verb::Put), "Usage: set <key> <value>");
    assert_eq!(usage(Verb::Get), "Usage: get <key>");
    assert_eq!(usage(Verb::Delete), "Usage: delete <key>");
}

#[test]
fn help_lists_every_subcommand() {
    let expected = vec![
        "Available commands:",
        "  set <key> <value>  - Set a key-value pair",
        "  get <key>          - Get a value by key",
        "  delete <key>       - Delete a key-value pair",
        "  list               - List all key-value pairs",
        "  help               - Show this help message",
        "  quit/exit          - Exit the REPL",
    ];
    assert_eq!(help(), expected);
    let mut store = KvStore::new();
    let reply = step(&mut store, "help");
    assert_eq!(reply.lines, expected);
    assert!(!reply.quit);
}

#[test]
fn quit_and_exit_end_the_session() {
    let mut store = KvStore::new();
    store.set("k", "v");
    for line in ["quit", "exit", "  quit now", "exit\n"] {
        let reply = step(&mut store, line);
        assert_eq!(reply.lines, vec!["Bye."]);
        assert!(reply.quit);
    }
    assert_eq!(store.get("k"), Some("v"));
}

#[test]
fn only_quit_and_exit_end_the_session() {
    let mut store = KvStore::new();
    for line in ["", "set a 1", "get a", "list", "help", "del a", "bogus", "set", "Quit", "q"] {
        assert!(!step(&mut store, line).quit);
    }
}

#[test]
fn unknown_words_are_reported() {
    let mut store = KvStore::new();
    assert_eq!(
        step(&mut store, "frobnicate now").lines,
        vec!["Unknown command: frobnicate. Type 'help' for available commands."]
    );
    assert_eq!(parse_line("frobnicate now"), ShellCommand::Unknown("frobnicate".to_string()));
    assert!(store.is_empty());
}

#[test]
fn subcommand_names_are_case_sensitive() {
    let mut store = KvStore::new();
    assert_eq!(
        step(&mut store, "SET a 1").lines,
        vec!["Unknown command: SET. Type 'help' for available commands."]
    );
    assert_eq!(
        step(&mut store, "Get a").lines,
        vec!["Unknown command: Get. Type 'help' for available commands."]
    );
    assert_eq!(
        step(&mut store, "repl").lines,
        vec!["Unknown command: repl. Type 'help' for available commands."]
    );
    assert_eq!(
        step(&mut store, "sett a 1").lines,
        vec!["Unknown command: sett. Type 'help' for available commands."]
    );
    assert!(store.is_empty());
}

#[test]
fn serve_answers_a_parsed_request() {
    let mut store = KvStore::new();
    let put = ShellCommand::Run(Command::Put { key: "k".to_string(), value: "v".to_string() });
    assert_eq!(serve(&mut store, &put).lines, vec!["OK"]);
    let reply = serve(&mut store, &ShellCommand::Run(Command::Repl));
    assert!(reply.lines.is_empty());
    assert!(!reply.quit);
    assert_eq!(store.get("k"), Some("v"));
    assert!(serve(&mut store, &ShellCommand::Quit).quit);
    assert!(serve(&mut store, &ShellCommand::Blank).lines.is_empty());
}

#[test]
fn banner_is_one_line() {
    assert_eq!(banner(), "Entering kvs REPL. Type 'help' for commands or 'quit' to exit.");
}

#[test]
fn a_session_keeps_its_store_between_lines() {
    let mut store = KvStore::new();
    let script = [
        ("set lang rust", vec!["OK"], false),
        ("set lang  verified   rust", vec!["OK"], false),
        ("get lang", vec!["verified rust"], false),
        ("", vec![], false),
        ("del lang", vec!["Deleted"], false),
        ("get lang", vec!["(nil)"], false),
        ("list", vec!["(empty)"], false),
        ("exit", vec!["Bye."], true),
    ];
    for (line, lines, quit) in script {
        let reply = step(&mut store, line);
        assert_eq!(reply.lines, lines);
        assert_eq!(reply.quit, quit);
    }
}
