use notes::cli_format::entry;
use notes::cli_format::header;
use notes::cli_format::id_tag;
use notes::cli_format::layout;
use notes::cli_format::line_tag;
use notes::cli_format::list_item;
use notes::cli_format::numbered;
use notes::cli_format::score_tag;
use notes::cli_format::CliFormat;
use notes::cli_format::CliFormatImpl;
use notes::cli_format::StyledLine;
use notes::note::Note;
use notes::search_match::MatchedLine;
use notes::search_match::SearchMatch;

/// Held by every test of this file while it runs: colours are switched on
/// and off for the whole process.
static COLOURS: std::sync::Mutex<()> = std::sync::Mutex::new(());

fn colours(on: bool) -> std::sync::MutexGuard<'static, ()> {
    let guard = COLOURS.lock().unwrap_or_else(|poisoned| poisoned.into_inner());
    colored::control::set_override(on);
    guard
}

#[test]
pub fn search_match_no_previous_no_next() {
    let _colours = colours(false);
    let search_m = SearchMatch {
        id: 0,
        score: 4,
        path: "/tmp/note-1.txt".into(),
        title: "# What a note !".to_string(),
        matched_lines: vec![
            MatchedLine {
                display_number: 3,
                line_number: 2,
                content: "A very interesting one".to_string(),
                matched: "".to_string(),
                previous: None,
                next: None,
            },
            MatchedLine {
                display_number: 4,
                line_number: 3,
                content: "With very interesting things inside".to_string(),
                matched: "".to_string(),
                previous: None,
                next: None,
            },
        ],
    };

    let fmt = CliFormatImpl::new();
    let actual = fmt.search_match(&search_m);
    let expected = "@0 # What a note ! (Score: 4) \n3. A very interesting one\n4. With very interesting things inside".to_string();

    assert_eq!(actual, expected);
}

#[test]
pub fn search_match_previous_no_next() {
    let _colours = colours(false);
    let search_m = SearchMatch {
        id: 0,
        score: 4,
        path: "/tmp/note-1.txt".into(),
        title: "# What a note !".to_string(),
        matched_lines: vec![
            MatchedLine {
                display_number: 3,
                line_number: 2,
                content: "A very interesting one".to_string(),
                matched: "".to_string(),
                previous: Some("Previous line 1".to_string()),
                next: None,
            },
            MatchedLine {
                display_number: 4,
                line_number: 3,
                content: "With very interesting things inside".to_string(),
                matched: "".to_string(),
                previous: Some("Previous line 2".to_string()),
                next: None,
            },
        ],
    };

    let fmt = CliFormatImpl::new();
    let actual = fmt.search_match(&search_m);
    let expected =
        "@0 # What a note ! (Score: 4) \n2. Previous line 1\n3. A very interesting one\n\n3. Previous line 2\n4. With very interesting things inside"
            .to_string();

    assert_eq!(actual, expected);
}

#[test]
pub fn search_match_no_previous_next() {
    let _colours = colours(false);
    let search_m = SearchMatch {
        id: 0,
        score: 4,
        path: "/tmp/note-1.txt".into(),
        title: "# What a note !".to_string(),
        matched_lines: vec![
            MatchedLine {
                display_number: 3,
                line_number: 2,
                content: "A very interesting one".to_string(),
                matched: "".to_string(),
                previous: None,
                next: Some("Next line 1".to_string()),
            },
            MatchedLine {
                display_number: 4,
                line_number: 3,
                content: "With very interesting things inside".to_string(),
                matched: "".to_string(),
                previous: None,
                next: Some("Next line 2".to_string()),
            },
        ],
    };

    let fmt = CliFormatImpl::new();
    let actual = fmt.search_match(&search_m);
    let expected =
        "@0 # What a note ! (Score: 4) \n3. A very interesting one\n4. Next line 1\n\n4. With very interesting things inside\n5. Next line 2".to_string();

    assert_eq!(actual, expected);
}

#[test]
pub fn search_match_previous_next() {
    let _colours = colours(false);
    let search_m = SearchMatch {
        id: 0,
        score: 4,
        path: "/tmp/note-1.txt".into(),
        title: "# What a note !".to_string(),
        matched_lines: vec![
            MatchedLine {
                display_number: 3,
                line_number: 2,
                content: "A very interesting one".to_string(),
                matched: "".to_string(),
                previous: Some("Previous line 1".to_string()),
                next: Some("Next line 1".to_string()),
            },
            MatchedLine {
                display_number: 4,
                line_number: 3,
                content: "With very interesting things inside".to_string(),
                matched: "".to_string(),
                previous: Some("Previous line 2".to_string()),
                next: Some("Next line 2".to_string()),
            },
        ],
    };

    let fmt = CliFormatImpl::new();
    let actual = fmt.search_match(&search_m);
    let expected = "@0 # What a note ! (Score: 4) \n2. Previous line 1\n3. A very interesting one\n4. Next line 1\n\n3. Previous line 2\n4. With very interesting things inside\n5. Next line 2".to_string();

    assert_eq!(actual, expected);
}

#[test]
pub fn search_match_without_lines_says_the_note_is_empty() {
    let _colours = colours(false);
    let search_m = SearchMatch {
        id: 12,
        score: 4,
        path: "/n.md".to_string(),
        title: "# T".to_string(),
        matched_lines: vec![],
    };
    let actual = CliFormatImpl::new().search_match(&search_m);
    assert_eq!(actual, "@12 # T (Score: 4) \n... This note is empty ...");
}

#[test]
pub fn tags_and_list_entries() {
    let _colours = colours(false);
    let fmt = CliFormatImpl::default();
    assert_eq!(fmt.note_id(42), "@42");
    assert_eq!(fmt.match_score(107), "(Score: 107)");
    assert_eq!(fmt.note_title("# Title"), "# Title");
    assert_eq!(fmt.note_directory("a/b"), " \u{1f5c1}  a/b");
    let note = Note::from(3, "/n.md".to_string(), "# Some title\nbody".to_string()).unwrap();
    assert_eq!(fmt.note_list_item(&note), " @3 - # Some title");
}

#[test]
pub fn plain_tags_are_exact() {
    assert_eq!(id_tag(0), "@0");
    assert_eq!(id_tag(usize::MAX), format!("@{}", usize::MAX));
    assert_eq!(score_tag(5), "(Score: 5)");
    assert_eq!(line_tag(10), "10.");
    assert_eq!(line_tag(u128::MAX), format!("{}.", u128::MAX));
    assert_eq!(numbered("3.", "text"), "3. text");
    assert_eq!(header("@1", "# T", "(Score: 2)"), "@1 # T (Score: 2) \n");
    assert_eq!(list_item("@1", "# T"), " @1 - # T");
}

fn styled(previous: Option<&str>, line: &str, next: Option<&str>) -> StyledLine {
    StyledLine {
        previous: previous.map(|text| text.to_string()),
        line: line.to_string(),
        next: next.map(|text| text.to_string()),
    }
}

#[test]
pub fn entry_ends_with_a_line_feed_only_with_a_neighbour_and_a_successor() {
    assert_eq!(entry(&styled(None, "l", None), false), "l");
    assert_eq!(entry(&styled(None, "l", None), true), "l");
    assert_eq!(entry(&styled(Some("p"), "l", None), false), "p\nl\n");
    assert_eq!(entry(&styled(Some("p"), "l", None), true), "p\nl");
    assert_eq!(entry(&styled(None, "l", Some("n")), false), "l\nn\n");
    assert_eq!(entry(&styled(None, "l", Some("n")), true), "l\nn");
    assert_eq!(entry(&styled(Some("p"), "l", Some("n")), false), "p\nl\nn\n");
    assert_eq!(entry(&styled(Some("p"), "l", Some("n")), true), "p\nl\nn");
}

#[test]
pub fn layout_joins_entries_by_line_feeds() {
    let lines = vec![styled(Some("p1"), "l1", None), styled(None, "l2", None), styled(None, "l3", Some("n3"))];
    assert_eq!(layout("I", "T", "S", &lines), "I T S \np1\nl1\n\nl2\nl3\nn3");
    assert_eq!(layout("I", "T", "S", &vec![]), "I T S \n... This note is empty ...");
}

#[test]
pub fn every_occurrence_of_the_captured_text_is_styled() {
    let _colours = colours(true);
    let search_m = SearchMatch {
        id: 1,
        score: 1,
        path: "/n.md".to_string(),
        title: "T".to_string(),
        matched_lines: vec![MatchedLine {
            display_number: 2,
            line_number: 1,
            content: "ab ab".to_string(),
            matched: "ab".to_string(),
            previous: None,
            next: None,
        }],
    };
    let actual = CliFormatImpl::new().search_match(&search_m);
    colored::control::set_override(false);
    let yellow = "\u{1b}[33mab\u{1b}[0m";
    assert!(actual.ends_with(&format!(" {} {}", yellow, yellow)));
    assert!(actual.starts_with("\u{1b}[32m@1\u{1b}[0m \u{1b}[36mT\u{1b}[0m \u{1b}[2m(Score: 1)\u{1b}[0m \n"));
}

/// A text between the escape codes of a style, the style started again
/// behind every reset inside the text.
fn between_codes(text: &str, code: &str) -> String {
    let start = format!("\u{1b}[{}m", code);
    let reset = "\u{1b}[0m";
    format!("{}{}{}", start, notes::text::replace(text, reset, &format!("{}{}", reset, start)), reset)
}

#[test]
pub fn styled_texts_are_plain_or_stand_between_escape_codes() {
    let fmt = CliFormatImpl::new();
    let titles = ["t", "", "a\u{1b}[0mb\u{1b}[0m", "\u{1b}[0m", "\u{1b}[0", "# Title"];
    let _colours = colours(true);
    for title in titles {
        assert_eq!(fmt.note_title(title), between_codes(title, "36"));
    }
    assert_eq!(fmt.note_id(7), between_codes("@7", "32"));
    assert_eq!(fmt.match_score(3), between_codes("(Score: 3)", "2"));
    assert_eq!(notes::banners::Banners::big(), between_codes(notes::banners::BANNER, "32"));
    assert_eq!(notes::banners::Banners::small(), between_codes(notes::banners::SMALL_BANNER, "32"));
    let note = Note::from(3, "/n.md".to_string(), "# T\nbody".to_string()).unwrap();
    assert_eq!(
        fmt.note_list_item(&note),
        format!(" {} - {}", between_codes("@3", "32"), between_codes("# T", "36"))
    );
    colored::control::set_override(false);
    for title in titles {
        assert_eq!(fmt.note_title(title), title);
    }
    assert_eq!(notes::banners::Banners::big(), notes::banners::BANNER);
}

#[test]
pub fn a_coloured_match_styles_numbers_neighbours_and_captures() {
    let _colours = colours(true);
    let search_m = SearchMatch {
        id: 2,
        score: 5,
        path: "/n.md".to_string(),
        title: "# Rsync".to_string(),
        matched_lines: vec![MatchedLine {
            display_number: 4,
            line_number: 3,
            content: "About Rsync and rsync".to_string(),
            matched: "Rsync".to_string(),
            previous: Some("before".to_string()),
            next: Some("after".to_string()),
        }],
    };
    let actual = CliFormatImpl::new().search_match(&search_m);
    colored::control::set_override(false);
    let expected = format!(
        "{} {} {} \n{} {}\n{} About {} and rsync\n{} {}",
        between_codes("@2", "32"),
        between_codes("# Rsync", "36"),
        between_codes("(Score: 5)", "2"),
        between_codes("3.", "2"),
        between_codes("before", "2"),
        between_codes("4.", "2"),
        between_codes("Rsync", "33"),
        between_codes("5.", "2"),
        between_codes("after", "2"),
    );
    assert_eq!(actual, expected);
}
