use notes::cli_format::CliFormat;
use notes::command_handler::directory_block;
use notes::command_handler::done_message;
use notes::command_handler::find_matches;
use notes::command_handler::help_report;
use notes::command_handler::not_found;
use notes::command_handler::note_file;
use notes::command_handler::search_report;
use notes::command_handler::Command;
use notes::command_handler::CommandHandler;
use notes::console_output::ConsoleOutput;
use notes::default_error::DefaultError;
use notes::note::Note;
use notes::pattern::Needle;
use notes::repository::Repository;
use notes::repository::RepositoryDir;
use notes::search_match::SearchMatch;
use notes::usage::usage;
use std::cell::RefCell;

fn test_notes() -> Vec<Note> {
    vec![
        Note::from(0, "0.md".into(), "# Note 0 title \n\n Note 0 content".to_string()).unwrap(),
        Note::from(1, "0.md".into(), "# Note 1 title \n\n Note 1 content".to_string()).unwrap(),
        Note::from(2, "0.md".into(), "# Note 2 title \n\n Note 2 content".to_string()).unwrap(),
    ]
}

fn test_note_tree() -> Vec<RepositoryDir> {
    vec![RepositoryDir {
        path: "/path/to/dir".to_string(),
        name: "to/dir".to_string(),
        level: 2,
        notes: test_notes(),
    }]
}

/// A repository that answers from fixed values and records what it is asked.
struct FakeRepository {
    found: Option<Note>,
    calls: RefCell<Vec<String>>,
}

impl FakeRepository {
    fn new(found: Option<Note>) -> Self {
        FakeRepository { found, calls: RefCell::new(vec![]) }
    }

    fn record(&self, call: String) {
        self.calls.borrow_mut().push(call);
    }

    fn calls(&self) -> Vec<String> {
        self.calls.borrow().clone()
    }
}

impl Repository for FakeRepository {
    fn init(&self) -> Result<ConsoleOutput, DefaultError> {
        panic!("unexpected init")
    }
    fn new_note(&self, id: usize, path: &str) -> Result<Note, DefaultError> {
        self.record(format!("new_note {} {}", id, path));
        Ok(test_notes()[0].clone())
    }
    fn edit_note(&self, note: &Note) -> Result<ConsoleOutput, DefaultError> {
        self.record(format!("edit_note {}", note.id()));
        Ok(ConsoleOutput::empty())
    }
    fn find_note_by_id(&self, id: usize) -> Option<Note> {
        self.record(format!("find_note_by_id {}", id));
        self.found.clone()
    }
    fn load_repository_tree(&self) -> Vec<RepositoryDir> {
        self.record("load_repository_tree".to_string());
        test_note_tree()
    }
    fn load_notes(&self) -> Vec<Note> {
        self.record("load_notes".to_string());
        test_notes()
    }
    fn delete_note(&self, note: &Note) -> Result<ConsoleOutput, DefaultError> {
        self.record(format!("delete_note {}", note.id()));
        Ok(ConsoleOutput::empty())
    }
    fn push_repo(&self) -> Result<ConsoleOutput, DefaultError> {
        self.record("push_repo".to_string());
        Ok(ConsoleOutput::from_stdout("pushed"))
    }
    fn pull_repo(&self) -> Result<ConsoleOutput, DefaultError> {
        self.record("pull_repo".to_string());
        Ok(ConsoleOutput::from_stdout("pulled"))
    }
}

/// A renderer that gives titles back and records what it is asked to render.
struct FakeFormat {
    calls: RefCell<Vec<String>>,
}

impl FakeFormat {
    fn new() -> Self {
        FakeFormat { calls: RefCell::new(vec![]) }
    }

    fn calls(&self) -> Vec<String> {
        self.calls.borrow().clone()
    }
}

impl CliFormat for FakeFormat {
    fn search_match(&self, search_m: &SearchMatch) -> String {
        self.calls.borrow_mut().push(format!("search_match {}", search_m.id));
        search_m.title.clone()
    }
    fn note_list_item(&self, note: &Note) -> String {
        self.calls.borrow_mut().push(format!("note_list_item {}", note.id()));
        note.title().clone()
    }
    fn match_score(&self, score: usize) -> String {
        panic!("unexpected score {}", score)
    }
    fn note_id(&self, id: usize) -> String {
        panic!("unexpected id {}", id)
    }
    fn note_title(&self, title: &str) -> String {
        panic!("unexpected title {}", title)
    }
    fn note_directory(&self, name: &str) -> String {
        self.calls.borrow_mut().push(format!("note_directory {}", name));
        name.to_string()
    }
}

#[test]
fn new_note_should_add_suffix() {
    let path = "new/note".to_string();
    let repo_mock = FakeRepository::new(None);
    let fmt_mock = FakeFormat::new();
    let handler = CommandHandler::new(&repo_mock, &fmt_mock);

    let res = handler.apply_command(Command::New { path });
    assert!(res.is_ok());
    assert_eq!(repo_mock.calls(), vec!["load_notes", "new_note 4 new/note.md", "edit_note 0"]);
    assert_eq!(res.unwrap().stdout, "\nNote '0.md' created\n");
    assert!(fmt_mock.calls().is_empty());
}

#[test]
fn search_notes_should_find_nothing() {
    let repo_mock = FakeRepository::new(None);
    let fmt_mock = FakeFormat::new();
    let handler = CommandHandler::new(&repo_mock, &fmt_mock);

    let res = handler.apply_command(Command::Search { needle: "abcdef".to_string() });
    assert!(res.is_ok());
    assert_eq!(repo_mock.calls(), vec!["load_notes"]);
    assert!(fmt_mock.calls().is_empty());
    assert_eq!(res.unwrap().stdout, "0 results found for 'abcdef'\n");
}

#[test]
fn search_notes_should_find_note() {
    let repo_mock = FakeRepository::new(None);
    let fmt_mock = FakeFormat::new();
    let handler = CommandHandler::new(&repo_mock, &fmt_mock);

    let res = handler.apply_command(Command::Search { needle: "2".to_string() });
    assert!(res.is_ok());
    assert_eq!(repo_mock.calls(), vec!["load_notes"]);
    assert_eq!(fmt_mock.calls(), vec!["search_match 2"]);
    let out = res.unwrap();
    assert_eq!(out.stdout, "# Note 2 title \n\n1 results found for '2'\n");
    assert_eq!(out.stderr, "");
}

#[test]
fn list_notes() {
    let repo_mock = FakeRepository::new(None);
    let fmt_mock = FakeFormat::new();
    let handler = CommandHandler::new(&repo_mock, &fmt_mock);
    let res = handler.apply_command(Command::List);
    assert!(res.is_ok());
    assert_eq!(repo_mock.calls(), vec!["load_repository_tree"]);
    assert_eq!(
        fmt_mock.calls(),
        vec!["note_directory to/dir", "note_list_item 0", "note_list_item 1", "note_list_item 2"]
    );
    assert_eq!(
        res.unwrap().stdout,
        "    to/dir\n    # Note 0 title \n    # Note 1 title \n    # Note 2 title \n\n"
    );
}

#[test]
fn command_handler_edit_note() {
    let note = test_notes()[1].clone();
    let note_id = note.id();
    let repo_mock = FakeRepository::new(Some(note));
    let fmt_mock = FakeFormat::new();

    let handler = CommandHandler::new(&repo_mock, &fmt_mock);
    let res = handler.apply_command(Command::Edit { id: note_id });
    assert!(res.is_ok());
    assert_eq!(repo_mock.calls(), vec!["find_note_by_id 1", "edit_note 1"]);
    assert_eq!(res.unwrap().stdout, "\nNote '0.md' edited\n");
}

#[test]
fn edit_note_should_find_nothing() {
    let repo_mock = FakeRepository::new(None);
    let note_id = 5;
    let fmt_mock = FakeFormat::new();

    let handler = CommandHandler::new(&repo_mock, &fmt_mock);
    let res = handler.apply_command(Command::Edit { id: note_id });
    assert_eq!(res.unwrap_err().message, "Note with id 5 not found.");
    assert_eq!(repo_mock.calls(), vec!["find_note_by_id 5"]);
}

#[test]
fn delete_note() {
    let note = test_notes()[1].clone();
    let note_id = note.id();
    let repo_mock = FakeRepository::new(Some(note));
    let fmt_mock = FakeFormat::new();

    let handler = CommandHandler::new(&repo_mock, &fmt_mock);
    let res = handler.apply_command(Command::Delete { id: note_id });
    assert!(res.is_ok());
    assert_eq!(repo_mock.calls(), vec!["find_note_by_id 1", "delete_note 1"]);
    assert_eq!(res.unwrap().stdout, "\nNote '0.md' deleted\n");
}

#[test]
fn delete_note_should_find_nothing() {
    let repo_mock = FakeRepository::new(None);
    let note_id = 5;
    let fmt_mock = FakeFormat::new();

    let handler = CommandHandler::new(&repo_mock, &fmt_mock);
    let res = handler.apply_command(Command::Delete { id: note_id });
    assert_eq!(res.unwrap_err().message, "Note with id 5 not found.");
    assert_eq!(repo_mock.calls(), vec!["find_note_by_id 5"]);
}

#[test]
fn push_repo() {
    let repo_mock = FakeRepository::new(None);
    let fmt_mock = FakeFormat::new();

    let handler = CommandHandler::new(&repo_mock, &fmt_mock);
    let res = handler.apply_command(Command::Push);
    assert!(res.is_ok());
    assert_eq!(repo_mock.calls(), vec!["push_repo"]);
    let out = res.unwrap().stdout;
    assert!(out.contains("Clean all the brains !"));
    assert!(out.ends_with("\npushed"));
}

#[test]
fn pull_repo() {
    let repo_mock = FakeRepository::new(None);
    let fmt_mock = FakeFormat::new();

    let handler = CommandHandler::new(&repo_mock, &fmt_mock);
    let res = handler.apply_command(Command::Pull);
    assert!(res.is_ok());
    assert_eq!(repo_mock.calls(), vec!["pull_repo"]);
    assert!(res.unwrap().stdout.ends_with("\npulled"));
}

#[test]
fn help_shows_banner_and_usage() {
    colored::control::set_override(false);
    let repo_mock = FakeRepository::new(None);
    let fmt_mock = FakeFormat::new();
    let res = CommandHandler::new(&repo_mock, &fmt_mock).apply_command(Command::Help).unwrap();
    assert_eq!(res.stderr, "");
    assert!(res.stdout.contains("Clean all the brains !"));
    assert!(res.stdout.contains("Usage:"));
    assert!(res.stdout.ends_with(&format!("{}\n", usage())));
    assert!(repo_mock.calls().is_empty());
}

#[test]
fn search_fails_where_the_needle_does_not_compile() {
    let repo_mock = FakeRepository::new(None);
    let fmt_mock = FakeFormat::new();
    let res = CommandHandler::new(&repo_mock, &fmt_mock).apply_command(Command::Search { needle: "(".to_string() });
    assert!(res.is_err());
    let expected = regex::RegexBuilder::new("(()").case_insensitive(true).build().unwrap_err().to_string();
    assert_eq!(res.unwrap_err().message, expected);
    assert!(fmt_mock.calls().is_empty());
}

#[test]
fn find_matches_ranks_by_score_and_keeps_the_order_of_equals() {
    let contents = ["# a\nx", "# x\nx\nx", "# b\nx", "# none", "# x", "# c\n\nx\n"];
    let notes: Vec<Note> = contents
        .iter()
        .enumerate()
        .map(|(i, c)| Note::from(i + 1, format!("/{}.md", i + 1), c.to_string()).unwrap())
        .collect();
    let found = find_matches(&notes, &Needle::new("x").unwrap());
    let ranked: Vec<(usize, usize)> = found.iter().map(|m| (m.id, m.score)).collect();
    assert_eq!(ranked, vec![(2, 6), (5, 4), (1, 1), (3, 1), (6, 1)]);
    for m in &found {
        for line in &m.matched_lines {
            assert_eq!(line.display_number, line.line_number + 1);
        }
    }
    assert!(find_matches(&vec![], &Needle::new("x").unwrap()).is_empty());
}

#[test]
fn reports_and_messages_are_exact() {
    assert_eq!(note_file("a".to_string()), "a.md");
    assert_eq!(note_file("a.md".to_string()), "a.md");
    assert_eq!(note_file("".to_string()), ".md");
    assert_eq!(note_file("a.MD".to_string()), "a.MD.md");
    assert_eq!(done_message("/r/a.md", "created"), "\nNote '/r/a.md' created\n");
    let error = not_found(999);
    assert_eq!(error.message, "Note with id 999 not found.");
    assert!(error.backtrace.is_none());
    assert_eq!(search_report(&vec![], "n"), "0 results found for 'n'\n");
    assert_eq!(
        search_report(&vec!["first".to_string(), "second".to_string()], "ab"),
        "first\n\nsecond\n\n2 results found for 'ab'\n"
    );
    assert_eq!(directory_block(0, "H", &vec![]), "H\n\n");
    assert_eq!(directory_block(1, "H", &vec!["a".to_string(), "b".to_string()]), "  H\n  a\n  b\n\n");
    assert_eq!(help_report("B"), format!("B\n{}\n", usage()));
    assert!(usage().starts_with("\nUsage:\n"));
    assert!(usage().ends_with("Version: 0.1.0\n\n"));
}
