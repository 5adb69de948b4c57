use notes::note::Note;
use notes::pattern::LineProbe;
use notes::pattern::Needle;
use notes::search_match::MatchedLine;
use notes::search_match::SearchMatch;

const SAMPLE_NOTE_1: &str = "\

# SSH

A note about SSH

";

const SAMPLE_NOTE_2: &str = "\

# Rsync

A very interesting note
About Rsync
With very interesting things inside

";

const SAMPLE_NOTE_3: &str = "\

# What a note !

A very interesting one
With very interesting things inside

";

fn needle(text: &str) -> Needle {
    Needle::new(text).unwrap()
}

#[test]
pub fn from() -> () {
    let note = Note::from(0, "/tmp/note-1.txt".into(), SAMPLE_NOTE_1.to_string()).unwrap();
    assert_eq!(note.id(), 0);
    assert_eq!(note.title(), "# SSH");
    assert_eq!(note.body().len(), 1);
    assert_eq!(note.body()[0], "A note about SSH");
    assert_eq!(note.path(), "/tmp/note-1.txt");
}

#[test]
pub fn match_score() -> () {
    let note = Note::from(0, "/tmp/note-1.txt".into(), SAMPLE_NOTE_1.to_string()).unwrap();
    let needle_regex = needle("ssh");
    assert_eq!(note.match_score(&needle_regex), 5);
}

#[test]
pub fn match_score_should_score_0() -> () {
    let note = Note::from(0, "/tmp/note-1.txt".into(), SAMPLE_NOTE_1.to_string()).unwrap();
    let needle_regex = needle("something-else");
    assert_eq!(note.match_score(&needle_regex), 0);
}

#[test]
pub fn search_match() -> () {
    let note = Note::from(0, "/tmp/note-1.txt".into(), SAMPLE_NOTE_2.to_string()).unwrap();
    let needle_regex = needle("rsync");
    let actual = note.search_match(&needle_regex);
    let expected = SearchMatch {
        id: 0,
        score: 5,
        path: "/tmp/note-1.txt".into(),
        title: "# Rsync".into(),
        matched_lines: vec![MatchedLine {
            display_number: 4,
            line_number: 3,
            content: "About Rsync".into(),
            matched: "Rsync".into(),
            previous: Some("A very interesting note".into()),
            next: Some("With very interesting things inside".into()),
        }],
    };
    assert_eq!(actual, expected);
}

#[test]
pub fn search_match_only_title() -> () {
    let note = Note::from(0, "/tmp/note-1.txt".into(), SAMPLE_NOTE_3.to_string()).unwrap();
    let needle_regex = needle("note");
    let actual = note.search_match(&needle_regex);
    let expected = SearchMatch {
        id: 0,
        score: 4,
        path: "/tmp/note-1.txt".into(),
        title: "# What a note !".into(),
        matched_lines: vec![
            MatchedLine {
                display_number: 3,
                line_number: 2,
                content: "A very interesting one".into(),
                matched: "".to_string(),
                previous: None,
                next: None,
            },
            MatchedLine {
                display_number: 4,
                line_number: 3,
                content: "With very interesting things inside".into(),
                matched: "".to_string(),
                previous: None,
                next: None,
            },
        ],
    };
    assert_eq!(actual, expected);
}

#[test]
pub fn from_fails_without_a_non_empty_line() {
    for content in ["", "\n", "\n\n\n"] {
        let error = Note::from(3, "/tmp/empty.md".to_string(), content.to_string()).unwrap_err();
        assert_eq!(error.message, "Not enough lines");
        assert!(error.backtrace.is_none());
    }
}

#[test]
pub fn from_keeps_every_raw_line() {
    let note = Note::from(7, "/n.md".to_string(), "\n\n# T\n\nb1\n\nb2\n".to_string()).unwrap();
    assert_eq!(note.id(), 7);
    assert_eq!(note.title(), "# T");
    assert_eq!(note.raw(), &vec!["", "", "# T", "", "b1", "", "b2", ""]);
    assert_eq!(note.body(), &vec!["b1", "b2"]);
}

#[test]
pub fn content_gives_the_text_back() {
    for content in ["# T", "# T\n", "\n# T\n\nbody\n\n", "a\nb\nc", "\u{e9}t\u{e9}\n\u{1f5c1}\n"] {
        let note = Note::from(1, "/n.md".to_string(), content.to_string()).unwrap();
        assert_eq!(note.content(), content);
    }
}

#[test]
pub fn carriage_returns_stay_in_the_lines() {
    let note = Note::from(1, "/n.md".to_string(), "# T\r\nbody\r\n".to_string()).unwrap();
    assert_eq!(note.title(), "# T\r");
    assert_eq!(note.raw(), &vec!["# T\r", "body\r", ""]);
    assert_eq!(note.content(), "# T\r\nbody\r\n");
}

fn probe(captured: Option<&str>, has_word: bool) -> LineProbe {
    LineProbe { captured: captured.map(|text| text.to_string()), has_word }
}

#[test]
pub fn score_with_counts_title_and_non_empty_lines() {
    let note = Note::from(1, "/n.md".to_string(), "\n# T\n\none\n\ntwo\nthree".to_string()).unwrap();
    // raw: "", "# T", "", "one", "", "two", "three"
    let probes = vec![
        probe(Some(""), false),
        probe(Some("T"), true),
        probe(Some(""), false),
        probe(Some("o"), true),
        probe(None, false),
        probe(None, true),
        probe(Some("t"), true),
    ];
    assert_eq!(note.score_with(&probes), 6);
    let body_only = vec![
        probe(None, false),
        probe(None, true),
        probe(None, false),
        probe(None, true),
        probe(None, false),
        probe(Some("two"), true),
        probe(None, true),
    ];
    assert_eq!(note.score_with(&body_only), 1);
}

#[test]
pub fn search_match_with_reports_neighbours_with_words_only() {
    let note = Note::from(9, "/n.md".to_string(), "# T\n---\nhit\n\nlast hit".to_string()).unwrap();
    let probes = vec![
        probe(None, true),
        probe(None, false),
        probe(Some("hit"), true),
        probe(None, false),
        probe(Some("hit"), true),
    ];
    let found = note.search_match_with(&probes);
    assert_eq!(found.id, 9);
    assert_eq!(found.score, 2);
    assert_eq!(found.path, "/n.md");
    assert_eq!(found.title, "# T");
    assert_eq!(
        found.matched_lines,
        vec![
            MatchedLine {
                display_number: 3,
                line_number: 2,
                content: "hit".to_string(),
                matched: "hit".to_string(),
                previous: None,
                next: None,
            },
            MatchedLine {
                display_number: 5,
                line_number: 4,
                content: "last hit".to_string(),
                matched: "hit".to_string(),
                previous: None,
                next: None,
            },
        ]
    );
}

#[test]
pub fn previous_is_absent_for_the_second_raw_line() {
    let note = Note::from(1, "/n.md".to_string(), "# T\nhit\nafter".to_string()).unwrap();
    let probes = vec![probe(None, true), probe(Some("hit"), true), probe(None, true)];
    let found = note.search_match_with(&probes);
    assert_eq!(found.matched_lines.len(), 1);
    assert_eq!(found.matched_lines[0].previous, None);
    assert_eq!(found.matched_lines[0].next, Some("after".to_string()));
}

#[test]
pub fn title_only_match_shows_at_most_six_following_lines() {
    let note = Note::from(1, "/n.md".to_string(), "# T\n1\n2\n\n4\n5\n6\n7\n8".to_string()).unwrap();
    let mut probes = vec![probe(Some("T"), true)];
    for has_word in [true, true, false, true, true, true, true, true] {
        probes.push(probe(None, has_word));
    }
    let found = note.search_match_with(&probes);
    assert_eq!(found.score, 4);
    let numbers: Vec<usize> = found.matched_lines.iter().map(|line| line.line_number).collect();
    assert_eq!(numbers, vec![1, 2, 4, 5, 6]);
    for line in &found.matched_lines {
        assert_eq!(line.display_number, line.line_number + 1);
        assert_eq!(line.matched, "");
        assert_eq!(line.previous, None);
        assert_eq!(line.next, None);
    }
}

#[test]
pub fn title_as_last_line_gives_no_lines() {
    let note = Note::from(1, "/n.md".to_string(), "\n\n# T".to_string()).unwrap();
    let found = note.search_match(&needle("t"));
    assert_eq!(found.score, 4);
    assert!(found.matched_lines.is_empty());
}

#[test]
pub fn no_match_gives_score_zero_and_no_lines() {
    let note = Note::from(1, "/n.md".to_string(), SAMPLE_NOTE_2.to_string()).unwrap();
    let found = note.search_match(&needle("absent"));
    assert_eq!(found.score, 0);
    assert!(found.matched_lines.is_empty());
}

#[test]
pub fn needle_is_a_case_insensitive_regular_expression() {
    let note = Note::from(1, "/n.md".to_string(), "# T\nFoo123\nbar".to_string()).unwrap();
    let found = note.search_match(&needle("fo+[0-9]+"));
    assert_eq!(found.score, 1);
    assert_eq!(found.matched_lines.len(), 1);
    assert_eq!(found.matched_lines[0].matched, "Foo123");
    assert_eq!(found.matched_lines[0].next, Some("bar".to_string()));
}

#[test]
pub fn needle_rejects_what_does_not_compile() {
    assert!(Needle::new("(unclosed").is_err());
    assert!(Needle::new("closed)").is_err());
    assert!(Needle::new("fine").is_ok());
    for needle in ["(unclosed", "closed)", "[a", "a{2,1}", "\\"] {
        let expected = regex::RegexBuilder::new(&format!("({})", needle))
            .case_insensitive(true)
            .build()
            .unwrap_err()
            .to_string();
        let error = Needle::new(needle).err().expect("a refusal");
        assert_eq!(error.message, expected);
        assert!(error.backtrace.is_none());
    }
}

#[test]
pub fn probe_reports_capture_and_word_characters() {
    let n = needle("b+");
    let hit = n.probe("aBBc");
    assert_eq!(hit.captured, Some("BB".to_string()));
    assert!(hit.has_word);
    let miss = n.probe("--- !");
    assert_eq!(miss.captured, None);
    assert!(!miss.has_word);
    let alternative = needle("x)|(y").probe("y");
    assert_eq!(alternative.captured, Some("".to_string()));
}

#[test]
pub fn an_empty_line_that_matches_keeps_the_context_away() {
    let note = Note::from(1, "/n.md".to_string(), "# note\n\nbody".to_string()).unwrap();
    let found = note.search_match(&needle("^$|note"));
    assert_eq!(found.score, 4);
    assert_eq!(found.matched_lines.len(), 1);
    assert_eq!(found.matched_lines[0].line_number, 1);
    assert_eq!(found.matched_lines[0].content, "");
    assert_eq!(found.matched_lines[0].matched, "");
    assert_eq!(found.matched_lines[0].next, Some("body".to_string()));
}

#[test]
pub fn clone_gives_an_equal_note() {
    let note = Note::from(5, "/n.md".to_string(), "\n# T\n\nb\n".to_string()).unwrap();
    let copy = note.clone();
    assert_eq!(copy, note);
    assert_eq!(copy.content(), "\n# T\n\nb\n");
}
