use yacli::listing::{list_lines, HINT};
use yacli::router::{forward_args, resolve, Action, RouteError, TopLevelParsed, ABORT_STATUS};
use yacli::table::{CommandSpec, RouteTable, TableError};
use yacli::text::{first_line, run};

const TOP: &str = "  Usage: tool <command> [<args>...]\n       tool --list\n";

fn two_commands() -> RouteTable {
    let entries = vec![
        CommandSpec::new(Some("build"), "Builds the project.\nUsage: build [--release]"),
        CommandSpec::new(Some("test"), "Runs tests.\nUsage: test [<name>]"),
    ];
    RouteTable::new(entries).unwrap()
}

fn parsed(table: &RouteTable, command: Option<&str>, args: &[&str], help: bool, list: bool) -> TopLevelParsed {
    let args: Vec<String> = args.iter().map(|a| a.to_string()).collect();
    TopLevelParsed::new(table, command, args, help, list, false).unwrap()
}

fn strings(v: &[&str]) -> Vec<String> {
    v.iter().map(|a| a.to_string()).collect()
}

#[test]
fn list_shows_every_command_in_order() {
    let table = two_commands();
    let p = parsed(&table, None, &[], false, true);
    let action = resolve(&p, &table, TOP);
    assert_eq!(action.exit_status(), Some(ABORT_STATUS));
    assert_ne!(ABORT_STATUS, 0);
    match action {
        Action::List { lines } => {
            let dashes = "-".repeat(7 + 3 + "Builds the project.".len());
            assert_eq!(
                lines,
                strings(&[
                    "Command | Help",
                    dashes.as_str(),
                    "build   | Builds the project.",
                    "test    | Runs tests.",
                    "",
                    HINT,
                ])
            );
        }
        _ => panic!("expected the listing"),
    }
}

#[test]
fn help_on_a_command_shows_its_trimmed_usage() {
    let entries = vec![
        CommandSpec::new(Some("build"), "\n  Builds the project.\nUsage: build [--release]\n\n"),
        CommandSpec::new(Some("test"), "Runs tests.\nUsage: test [<name>]"),
    ];
    let table = RouteTable::new(entries).unwrap();
    let p = parsed(&table, Some("build"), &[], true, false);
    let action = resolve(&p, &table, TOP);
    assert_eq!(action.exit_status(), None);
    match action {
        Action::CommandHelp { index, text } => {
            assert_eq!(index, 0);
            assert_eq!(text, "Builds the project.\nUsage: build [--release]");
        }
        _ => panic!("expected the command's help"),
    }
}

#[test]
fn dispatch_puts_the_name_first() {
    let table = two_commands();
    let p = parsed(&table, Some("build"), &["--release"], false, false);
    let action = resolve(&p, &table, TOP);
    assert_eq!(action.exit_status(), None);
    match action {
        Action::Dispatch { index, args } => {
            assert_eq!(index, 0);
            assert_eq!(args, strings(&["build", "--release"]));
            assert_eq!(table.get(index).usage, "Builds the project.\nUsage: build [--release]");
        }
        _ => panic!("expected a dispatch"),
    }
}

#[test]
fn no_flags_and_no_command_show_the_usage_as_is() {
    let table = two_commands();
    let p = parsed(&table, None, &[], false, false);
    let action = resolve(&p, &table, TOP);
    assert_eq!(action.exit_status(), None);
    match action {
        Action::TopUsage { text } => assert_eq!(text, TOP),
        _ => panic!("expected the usage"),
    }
}

#[test]
fn empty_table_lists_no_rows() {
    let table = RouteTable::new(Vec::new()).unwrap();
    let p = parsed(&table, None, &[], false, true);
    match resolve(&p, &table, TOP) {
        Action::List { lines } => {
            assert_eq!(lines.len(), 4);
            assert_eq!(lines[0], "Command | Help");
            assert_eq!(lines[1], "-".repeat(10));
            assert_eq!(lines[2], "");
            assert_eq!(lines[3], HINT);
        }
        _ => panic!("expected the listing"),
    }
}

#[test]
fn help_without_a_command_shows_the_trimmed_usage_and_aborts() {
    let table = two_commands();
    let p = parsed(&table, None, &[], true, true);
    let action = resolve(&p, &table, TOP);
    assert_eq!(action.exit_status(), Some(ABORT_STATUS));
    match action {
        Action::TopHelp { text } => {
            assert_eq!(text, "Usage: tool <command> [<args>...]\n       tool --list");
        }
        _ => panic!("expected the tool's help"),
    }
}

#[test]
fn help_wins_over_list() {
    let table = two_commands();
    let p = parsed(&table, Some("test"), &[], true, true);
    match resolve(&p, &table, TOP) {
        Action::CommandHelp { index, text } => {
            assert_eq!(index, 1);
            assert_eq!(text, "Runs tests.\nUsage: test [<name>]");
        }
        _ => panic!("expected the command's help"),
    }
}

#[test]
fn list_wins_over_a_selected_command() {
    let table = two_commands();
    let p = parsed(&table, Some("test"), &["x"], false, true);
    assert!(matches!(resolve(&p, &table, TOP), Action::List { .. }));
}

#[test]
fn unnamed_command_gets_arguments_unchanged() {
    let spec = CommandSpec::new(None, "Does things.");
    let args = strings(&["-v", "file"]);
    assert_eq!(forward_args(&spec, &args), strings(&["-v", "file"]));
    let named = CommandSpec::new(Some("go"), "Goes.");
    assert_eq!(forward_args(&named, &args), strings(&["go", "-v", "file"]));
}

#[test]
fn duplicate_names_are_refused() {
    let entries = vec![
        CommandSpec::new(Some("a"), "A."),
        CommandSpec::new(None, "B."),
        CommandSpec::new(None, "C."),
        CommandSpec::new(Some("a"), "D."),
    ];
    assert_eq!(
        RouteTable::new(entries).err(),
        Some(TableError::DuplicateName { first: 0, second: 3 })
    );
}

#[test]
fn unnamed_entries_may_repeat() {
    let entries = vec![CommandSpec::new(None, "B."), CommandSpec::new(None, "C.")];
    let table = RouteTable::new(entries).unwrap();
    assert_eq!(table.len(), 2);
    assert_eq!(table.find("B."), None);
}

#[test]
fn unknown_command_is_refused() {
    let table = two_commands();
    let r = TopLevelParsed::new(&table, Some("deploy"), Vec::new(), false, false, false);
    assert_eq!(r.err(), Some(RouteError::UnknownCommand { token: "deploy".to_string() }));
    let ok = TopLevelParsed::new(&table, Some("test"), Vec::new(), false, false, true).unwrap();
    assert_eq!(ok.selected, Some(1));
    assert!(ok.verbose);
}

#[test]
fn long_names_widen_the_name_column() {
    let entries = vec![
        CommandSpec::new(Some("initialize"), "  Sets things up.  \nmore"),
        CommandSpec::new(Some("run"), "Runs.\r\nUsage: run"),
    ];
    let table = RouteTable::new(entries).unwrap();
    let lines = list_lines(&table);
    assert_eq!(lines[0], "Command    | Help");
    assert_eq!(lines[1], "-".repeat(10 + 3 + "Sets things up.  ".len()));
    assert_eq!(lines[2], "initialize | Sets things up.  ");
    assert_eq!(lines[3], "run        | Runs.");
}

#[test]
fn first_line_stops_at_the_line_feed() {
    assert_eq!(first_line("one\ntwo"), "one");
    assert_eq!(first_line("one\r\ntwo"), "one");
    assert_eq!(first_line("one\r"), "one\r");
    assert_eq!(first_line(""), "");
    assert_eq!(first_line("\nrest"), "");
}

#[test]
fn run_repeats_a_character() {
    assert_eq!(run("-", 4), "----");
    assert_eq!(run("-", 0), "");
}
