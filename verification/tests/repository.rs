use notes::config::join_path;
use notes::config::Config;
use notes::default_error::DefaultError;
use notes::console_output::ConsoleOutput;
use notes::git::Git;
use notes::note::Note;
use notes::repository::already_exists;
use notes::repository::base_name;
use notes::repository::build_tree;
use notes::repository::collect_notes;
use notes::repository::count_components;
use notes::repository::delete_message;
use notes::repository::edit_command;
use notes::repository::is_ignored;
use notes::repository::parse_notes;
use notes::repository::relative;
use notes::repository::select_directories;
use notes::repository::select_note_files;
use notes::repository::sort_paths;
use notes::repository::chars_precede;
use notes::repository::update_message;
use notes::repository::DirListing;
use notes::repository::NoteFile;
use notes::repository::RepositoryImpl;
use notes::repository::WalkEntry;
use notes::shell::CommandOutput;
use notes::shell::Shell;
use std::cell::RefCell;

fn ignored() -> Vec<String> {
    vec![".git".to_string(), ".idea".to_string()]
}

fn entry(path: &str, is_dir: bool) -> WalkEntry {
    WalkEntry { path: path.to_string(), is_dir }
}

fn file(path: &str, content: Option<&str>) -> NoteFile {
    NoteFile { path: path.to_string(), content: content.map(|c| c.to_string()) }
}

fn listing(path: &str, names: &[&str]) -> DirListing {
    DirListing {
        path: path.to_string(),
        files: names.iter().map(|n| file(&format!("{}/{}", path, n), Some(&format!("# {}/{}\n", path, n)))).collect(),
    }
}

fn sample_listings() -> Vec<DirListing> {
    vec![
        listing("/r", &[".template.md", "a.md", "b.md"]),
        listing("/r/a", &["aa.md", "ab.md"]),
        listing("/r/a/a", &["aaa.md", "aab.md"]),
        listing("/r/b", &["bb.md"]),
    ]
}

#[test]
pub fn load_repository_tree() {
    let tree = build_tree("/r", &sample_listings());
    let mut seen: Vec<String> = Vec::new();
    for dir in &tree {
        seen.push(dir.path.strip_prefix("/r").unwrap().trim_start_matches('/').to_string());
        for note in &dir.notes {
            seen.push(note.path().strip_prefix("/r/").unwrap().to_string());
        }
    }
    assert_eq!(
        seen,
        vec![
            "", // This is the repository root
            ".template.md",
            "a.md",
            "b.md",
            "a",
            "a/aa.md",
            "a/ab.md",
            "a/a",
            "a/a/aaa.md",
            "a/a/aab.md",
            "b",
            "b/bb.md"
        ]
    );
}

#[test]
pub fn load_notes() {
    let tree = build_tree("/r", &sample_listings());
    let notes = collect_notes(&tree);
    let paths: Vec<&str> = notes.iter().map(|note| note.path().strip_prefix("/r/").unwrap()).collect();
    assert_eq!(
        paths,
        vec![".template.md", "a.md", "b.md", "a/aa.md", "a/ab.md", "a/a/aaa.md", "a/a/aab.md", "b/bb.md"]
    );
    let ids: Vec<usize> = notes.iter().map(|note| note.id()).collect();
    assert_eq!(ids, vec![1, 2, 3, 4, 5, 6, 7, 8]);
}

#[test]
pub fn find_note_by_id() {
    let tree = build_tree("/r", &sample_listings());
    let notes: Vec<Note> = tree.into_iter().flat_map(|dir| dir.notes).collect();
    let result = notes::repository::find_note_by_id(&notes, 2);
    assert!(result.is_some());
    assert_eq!(result.unwrap().title(), "# /r/a.md");
    assert_eq!(notes::repository::find_note_by_id(&notes, 8).unwrap().id(), 8);
    assert!(notes::repository::find_note_by_id(&notes, 0).is_none());
    assert!(notes::repository::find_note_by_id(&notes, 9).is_none());
    assert!(notes::repository::find_note_by_id(&notes, 999).is_none());
    assert!(notes::repository::find_note_by_id(&notes, usize::MAX).is_none());
}

#[test]
pub fn tree_gives_names_and_levels() {
    let tree = build_tree("/r", &sample_listings());
    let names: Vec<&str> = tree.iter().map(|dir| dir.name.as_str()).collect();
    assert_eq!(names, vec!["/r", "a", "a/a", "b"]);
    let levels: Vec<usize> = tree.iter().map(|dir| dir.level).collect();
    assert_eq!(levels, vec![0, 1, 2, 1]);
}

#[test]
pub fn files_that_are_no_notes_get_no_identifier() {
    let listings = vec![DirListing {
        path: "/r".to_string(),
        files: vec![
            file("/r/a.md", Some("# a")),
            file("/r/unreadable.md", None),
            file("/r/empty.md", Some("\n\n")),
            file("/r/z.md", Some("\n# z\nbody")),
        ],
    }];
    let tree = build_tree("/r", &listings);
    assert_eq!(tree.len(), 1);
    let found: Vec<(usize, &str)> = tree[0].notes.iter().map(|n| (n.id(), n.path().as_str())).collect();
    assert_eq!(found, vec![(1, "/r/a.md"), (2, "/r/z.md")]);
    assert_eq!(tree[0].notes[1].title(), "# z");
}

#[test]
pub fn identifiers_do_not_depend_on_what_notes_say() {
    let first = build_tree("/r", &sample_listings());
    let mut changed = sample_listings();
    changed[1].files[0].content = Some("# another title\nwith a body".to_string());
    let second = build_tree("/r", &changed);
    let pairs = |tree: &Vec<notes::repository::RepositoryDir>| -> Vec<(usize, String)> {
        tree.iter().flat_map(|d| d.notes.iter().map(|n| (n.id(), n.path().clone()))).collect()
    };
    assert_eq!(pairs(&first), pairs(&second));
    assert_eq!(pairs(&first), pairs(&build_tree("/r", &sample_listings())));
}

#[test]
pub fn parse_notes_numbers_from_the_counter() {
    let files = vec![file("/r/a.md", Some("# a")), file("/r/b.md", None), file("/r/c.md", Some("c"))];
    let notes = parse_notes(&files, 10);
    let ids: Vec<usize> = notes.iter().map(|n| n.id()).collect();
    assert_eq!(ids, vec![11, 12]);
    assert!(parse_notes(&vec![], 3).is_empty());
}

#[test]
pub fn ignored_paths_hold_an_ignored_text() {
    assert!(is_ignored("/r/.git", &ignored()));
    assert!(is_ignored("/r/.git/objects/x.md", &ignored()));
    assert!(is_ignored("/r/a/.idea/w.md", &ignored()));
    assert!(is_ignored("/r/x.github/w.md", &ignored()));
    assert!(!is_ignored("/r/git/w.md", &ignored()));
    assert!(!is_ignored("/r/a.md", &vec![]));
}

#[test]
pub fn directories_are_kept_in_walk_order() {
    let entries = vec![
        entry("/r", true),
        entry("/r/.git", true),
        entry("/r/.git/hooks", true),
        entry("/r/a", true),
        entry("/r/a.md", false),
        entry("/r/a/.idea", true),
        entry("/r/a/a", true),
        entry("/r/b", true),
    ];
    assert_eq!(select_directories(&entries, &ignored()), vec!["/r", "/r/a", "/r/a/a", "/r/b"]);
    assert!(select_directories(&vec![], &ignored()).is_empty());
}

#[test]
pub fn note_files_end_in_md_and_are_not_ignored() {
    let paths: Vec<String> =
        ["/r", "/r/.template.md", "/r/a.md", "/r/a.txt", "/r/.git.md", "/r/b.MD", "/r/c.md", "/r/md"]
            .iter()
            .map(|p| p.to_string())
            .collect();
    assert_eq!(select_note_files(&paths, &ignored()), vec!["/r/.template.md", "/r/a.md", "/r/c.md"]);
}

#[test]
pub fn relative_paths_and_components() {
    assert_eq!(relative("/r", "/r"), "");
    assert_eq!(relative("/r", "/r/a/b"), "a/b");
    assert_eq!(relative("/r/", "/r/a"), "a");
    assert_eq!(relative("/r", "/r//a"), "a");
    assert_eq!(relative("", "a/b"), "a/b");
    assert_eq!(count_components(""), 0);
    assert_eq!(count_components("/"), 0);
    assert_eq!(count_components("a"), 1);
    assert_eq!(count_components("a/b"), 2);
    assert_eq!(count_components("/a//b/"), 2);
    assert_eq!(count_components("a/b/c.md"), 3);
}

#[test]
pub fn names_messages_and_commands() {
    assert_eq!(base_name("/tmp/fake-note.md"), "fake-note.md");
    assert_eq!(base_name("note.md"), "note.md");
    assert_eq!(base_name("/tmp/dir/"), "");
    assert_eq!(base_name(""), "");
    assert_eq!(edit_command("/r/a.md"), "$EDITOR /r/a.md");
    assert_eq!(update_message("/r/a/note.md"), "Update note note.md");
    assert_eq!(delete_message("/r/a/note.md"), "Delete note note.md");
    let error = already_exists("/r/a.md");
    assert_eq!(error.message, "Already exists: /r/a.md");
    assert!(error.backtrace.is_none());
    assert_eq!(join_path("/r", "a.md"), "/r/a.md");
    assert_eq!(join_path("/r/", "a.md"), "/r/a.md");
    assert_eq!(join_path("", "a.md"), "a.md");
    assert_eq!(Config::from_path(&"/r".to_string()).template_path, "/r/.template.md");
    assert_eq!(Config::from_path(&"/r".to_string()).storage_directory, "/r");
}

/// A shell that records the commands it is given and lets them succeed.
struct RecordingShell {
    interactive: RefCell<Vec<String>>,
}

impl Shell for RecordingShell {
    fn execute(&self, c: &str, _: &str) -> Result<CommandOutput, DefaultError> {
        panic!("unexpected command: {}", c)
    }
    fn execute_in_repo(&self, c: &str) -> Result<CommandOutput, DefaultError> {
        panic!("unexpected command: {}", c)
    }
    fn execute_interactive(&self, c: &str, _: &str) -> Result<CommandOutput, DefaultError> {
        panic!("unexpected command: {}", c)
    }
    fn execute_interactive_in_repo(&self, c: &str) -> Result<CommandOutput, DefaultError> {
        self.interactive.borrow_mut().push(c.to_string());
        Ok(CommandOutput::default())
    }
}

/// Version control that records what it is asked to commit.
struct RecordingGit {
    changed: bool,
    asked: RefCell<usize>,
    commits: RefCell<Vec<(String, String)>>,
}

impl Git for RecordingGit {
    fn init(&self) -> Result<ConsoleOutput, DefaultError> {
        panic!("unexpected init")
    }
    fn commit(&self, note: &Note, message: &str) -> Result<ConsoleOutput, DefaultError> {
        self.commits.borrow_mut().push((note.path().clone(), message.to_string()));
        Ok(ConsoleOutput::from_stdout("committed"))
    }
    fn has_changed(&self, _: &Note) -> bool {
        *self.asked.borrow_mut() += 1;
        self.changed
    }
    fn push(&self) -> Result<ConsoleOutput, DefaultError> {
        Ok(ConsoleOutput::from_stdout("pushed"))
    }
    fn pull(&self) -> Result<ConsoleOutput, DefaultError> {
        Err(DefaultError::new("cannot pull".to_string()))
    }
}

fn fake_note() -> Note {
    Note::from(0, "/tmp/fake-note.md".to_string(), "Fake note".to_string()).unwrap()
}

fn tmp_config() -> Config {
    Config { storage_directory: "/tmp".into(), template_path: "/tmp".into() }
}

#[test]
pub fn repository_edit_note() {
    let fake_note = fake_note();
    let config = tmp_config();
    let shell = RecordingShell { interactive: RefCell::new(vec![]) };
    let git = RecordingGit { changed: true, asked: RefCell::new(0), commits: RefCell::new(vec![]) };
    let repository = RepositoryImpl::new(&config, &shell, &git);

    let result = repository.edit_note(&fake_note);
    assert!(result.is_ok());
    assert_eq!(result.unwrap().stdout, "committed");
    assert_eq!(*shell.interactive.borrow(), vec!["$EDITOR /tmp/fake-note.md".to_string()]);
    assert_eq!(*git.asked.borrow(), 1);
    assert_eq!(
        *git.commits.borrow(),
        vec![("/tmp/fake-note.md".to_string(), "Update note fake-note.md".to_string())]
    );
}

#[test]
pub fn edit_note_should_not_commit() {
    let fake_note = fake_note();
    let config = tmp_config();
    let shell = RecordingShell { interactive: RefCell::new(vec![]) };
    let git = RecordingGit { changed: false, asked: RefCell::new(0), commits: RefCell::new(vec![]) };
    let repository = RepositoryImpl::new(&config, &shell, &git);

    let result = repository.edit_note(&fake_note);
    assert!(result.is_ok());
    assert_eq!(result.unwrap().stdout, "");
    assert_eq!(*shell.interactive.borrow(), vec!["$EDITOR /tmp/fake-note.md".to_string()]);
    assert_eq!(*git.asked.borrow(), 1);
    assert!(git.commits.borrow().is_empty());
}

#[test]
pub fn repository_impl_selects_and_delegates() {
    let config = Config::from_path(&"/r".to_string());
    let shell = RecordingShell { interactive: RefCell::new(vec![]) };
    let git = RecordingGit { changed: false, asked: RefCell::new(0), commits: RefCell::new(vec![]) };
    let repository = RepositoryImpl::new(&config, &shell, &git);
    let entries = vec![entry("/r", true), entry("/r/.git", true), entry("/r/.idea", true), entry("/r/a", true)];
    assert_eq!(repository.directories(&entries), vec!["/r", "/r/a"]);
    let paths = vec!["/r/a.md".to_string(), "/r/.idea/b.md".to_string(), "/r/c".to_string()];
    assert_eq!(repository.note_files(&paths), vec!["/r/a.md"]);
    assert_eq!(repository.tree(&sample_listings()).len(), 4);
    assert_eq!(repository.note_path("new/note.md"), "/r/new/note.md");
    assert_eq!(repository.push_repo().unwrap().stdout, "pushed");
    assert_eq!(repository.pull_repo().unwrap_err().message, "cannot pull");
    let removed = Note::from(4, "/r/a/gone.md".to_string(), "# gone".to_string()).unwrap();
    assert!(repository.record_removal(&removed).is_ok());
    assert_eq!(*git.commits.borrow(), vec![("/r/a/gone.md".to_string(), "Delete note gone.md".to_string())]);
}

fn texts(paths: &[&str]) -> Vec<String> {
    paths.iter().map(|p| p.to_string()).collect()
}

#[test]
pub fn paths_are_put_in_byte_order() {
    assert_eq!(sort_paths(texts(&["/r/a/c", "/r/a-b", "/r/a", "/r"])), vec!["/r", "/r/a", "/r/a-b", "/r/a/c"]);
    assert!(sort_paths(vec![]).is_empty());
    let mixed = ["b", "", "a/b", "a", "a.md", "a-b", "\u{e9}", "z", "a", "B", "a/", "\u{1f680}", "\u{ffff}"];
    let mut expected = texts(&mixed);
    expected.sort();
    assert_eq!(sort_paths(texts(&mixed)), expected);
    let mut by_bytes = texts(&mixed);
    by_bytes.sort_by(|a, b| a.as_bytes().cmp(b.as_bytes()));
    assert_eq!(sort_paths(texts(&mixed)), by_bytes);
}

#[test]
pub fn a_path_stands_before_the_longer_and_the_greater() {
    let chars = |text: &str| text.chars().collect::<Vec<char>>();
    assert!(chars_precede(&chars("a"), &chars("a/b")));
    assert!(chars_precede(&chars("a-b"), &chars("a/c")));
    assert!(chars_precede(&chars(""), &chars("a")));
    assert!(!chars_precede(&chars("a"), &chars("a")));
    assert!(!chars_precede(&chars("b"), &chars("a/b")));
    assert!(!chars_precede(&chars(""), &chars("")));
}

#[test]
pub fn directories_come_in_byte_order_whatever_the_walk() {
    let config = Config::from_path(&"/r".to_string());
    let shell = RecordingShell { interactive: RefCell::new(vec![]) };
    let git = RecordingGit { changed: false, asked: RefCell::new(0), commits: RefCell::new(vec![]) };
    let repository = RepositoryImpl::new(&config, &shell, &git);
    let walked = vec![
        entry("/r", true),
        entry("/r/a", true),
        entry("/r/a/c", true),
        entry("/r/.git", true),
        entry("/r/a-b", true),
        entry("/r/a.md", false),
    ];
    assert_eq!(repository.directories(&walked), vec!["/r", "/r/a", "/r/a-b", "/r/a/c"]);
    let children = texts(&["/r/b.md", "/r/a.md", "/r/.idea.md", "/r/a-b.md", "/r/c.txt"]);
    assert_eq!(repository.note_files(&children), vec!["/r/a-b.md", "/r/a.md", "/r/b.md"]);
}
