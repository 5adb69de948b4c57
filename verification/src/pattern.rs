//! Search patterns: the user's needle compiled to a regular expression.
//!
//! The regular expression engine is not verified. What it reports is named by
//! the three functions without a body below; everything built on top of the
//! engine is stated over those names.

use crate::default_error::DefaultError;
use crate::text::option_view;
use crate::text::push_char;
use regex::Regex;
use regex::RegexBuilder;
use vstd::prelude::*;
use vstd::string::*;

verus! {

#[verifier::external_type_specification]
#[verifier::external_body]
pub struct ExRegex(regex::Regex);

/// Why `source` does not compile to a case-insensitive regular expression,
/// within the engine's default size limits as this build counts them: the
/// text of the engine's error, or `None` where `source` compiles.
pub uninterp spec fn pattern_refusal(source: Seq<char>) -> Option<Seq<char>>;

/// Whether `source` compiles to a case-insensitive regular expression.
pub open spec fn pattern_compiles(source: Seq<char>) -> bool {
    pattern_refusal(source) is None
}

/// Whether the case-insensitive regular expression `source` matches somewhere in `line`.
pub uninterp spec fn pattern_matches(source: Seq<char>, line: Seq<char>) -> bool;

/// What the case-insensitive regular expression `source` captures at its first
/// match in `line`: `None` without a match, else the text of the group with
/// the given number, or `None` inside where there is no such group or it took
/// no part in the match.
pub uninterp spec fn pattern_capture(source: Seq<char>, line: Seq<char>, group: nat) -> Option<
    Option<Seq<char>>,
>;

/// A compiled case-insensitive regular expression together with its source.
///
/// Values are made by [`compile`] alone, which is what ties `regex` to `source`.
pub struct Pattern {
    source: String,
    regex: Regex,
}

impl Pattern {
    /// The text the pattern was compiled from.
    pub closed spec fn source(&self) -> Seq<char> {
        self.source@
    }
}

/// `RegexBuilder::new(source).case_insensitive(true).build()`: compiles `source`,
/// or gives the `Display` text of the engine's error. Both depend on `source`
/// alone.
#[verifier::external_body]
fn compile(source: &str) -> (compiled: Result<Pattern, String>)
    ensures
        match compiled {
            Ok(pattern) => pattern_refusal(source@) is None && pattern.source() == source@,
            Err(message) => pattern_refusal(source@) == Some(message@),
        },
{
    match RegexBuilder::new(source).case_insensitive(true).build() {
        Ok(regex) => Ok(Pattern { source: source.to_string(), regex }),
        Err(error) => Err(error.to_string()),
    }
}

/// `Regex::is_match`: whether the pattern matches anywhere in `line`.
#[verifier::external_body]
fn is_match(pattern: &Pattern, line: &str) -> (found: bool)
    ensures
        found == pattern_matches(pattern.source(), line@),
{
    pattern.regex.is_match(line)
}

/// `Regex::captures` followed by `Captures::get`: the text of the group with
/// the given number at the first match in `line`.
#[verifier::external_body]
fn capture(pattern: &Pattern, line: &str, group: usize) -> (found: Option<Option<String>>)
    ensures
        match found {
            Some(text) => pattern_capture(pattern.source(), line@, group as nat) == Some(
                option_view(text),
            ),
            None => pattern_capture(pattern.source(), line@, group as nat) is None,
        },
{
    pattern.regex.captures(line).map(|groups| groups.get(group).map(|m| m.as_str().to_string()))
}

/// The number of the group that a needle is wrapped in.
pub const NEEDLE_GROUP: usize = 1;

/// The regular expression for a needle: the needle as one capture group.
pub open spec fn needle_source(needle: Seq<char>) -> Seq<char> {
    seq!['('] + needle + seq![')']
}

/// The regular expression for a word character.
pub open spec fn word_source() -> Seq<char> {
    seq!['\\', 'w']
}

/// Why a needle cannot be searched for: the engine's message for the needle
/// as one capture group, else that for the pattern of a word character;
/// `None` where both compile.
pub open spec fn needle_refusal(needle: Seq<char>) -> Option<Seq<char>> {
    match pattern_refusal(needle_source(needle)) {
        Some(message) => Some(message),
        None => pattern_refusal(word_source()),
    }
}

/// What a needle finds in a line: `None` where it does not match, else the
/// text its group captured, empty where the group took no part.
pub open spec fn needle_capture(needle: Seq<char>, line: Seq<char>) -> Option<Seq<char>> {
    match pattern_capture(needle_source(needle), line, NEEDLE_GROUP as nat) {
        Some(Some(text)) => Some(text),
        Some(None) => Some(Seq::<char>::empty()),
        None => None,
    }
}

/// Whether a line holds at least one word character.
pub open spec fn has_word(line: Seq<char>) -> bool {
    pattern_matches(word_source(), line)
}

/// What the engine reports of one line.
pub struct LineProbe {
    /// The text the needle captured, where it matches the line.
    pub captured: Option<String>,
    /// Whether the line holds a word character.
    pub has_word: bool,
}

pub struct LineProbeView {
    pub captured: Option<Seq<char>>,
    pub has_word: bool,
}

impl View for LineProbe {
    type V = LineProbeView;

    open spec fn view(&self) -> LineProbeView {
        LineProbeView { captured: option_view(self.captured), has_word: self.has_word }
    }
}

/// What the engine reports of `line` for `needle`.
pub open spec fn probe_of(needle: Seq<char>, line: Seq<char>) -> LineProbeView {
    LineProbeView { captured: needle_capture(needle, line), has_word: has_word(line) }
}

/// A needle ready for searching.
pub struct Needle {
    text: String,
    pattern: Pattern,
    word: Pattern,
}

impl View for Needle {
    type V = Seq<char>;

    closed spec fn view(&self) -> Seq<char> {
        self.text@
    }
}

impl Needle {
    #[verifier::type_invariant]
    spec fn well_formed(&self) -> bool {
        &&& self.pattern.source() == needle_source(self.text@)
        &&& self.word.source() == word_source()
    }

    /// Compiles `needle`, wrapped in one capture group, and the word pattern.
    /// Fails exactly where one of the two does not compile, with the
    /// engine's message for the first that does not.
    pub fn new(needle: &str) -> (compiled: Result<Needle, DefaultError>)
        ensures
            match compiled {
                Ok(n) => needle_refusal(needle@) is None && n@ == needle@,
                Err(error) => needle_refusal(needle@) == Some(error.message@)
                    && error.backtrace is None,
            },
    {
        let mut source = String::new();
        push_char(&mut source, '(');
        source.append(needle);
        push_char(&mut source, ')');
        let mut word_text = String::new();
        push_char(&mut word_text, '\\');
        push_char(&mut word_text, 'w');
        proof {
            assert(source@ =~= needle_source(needle@));
            assert(word_text@ =~= word_source());
        }
        match compile(source.as_str()) {
            Ok(pattern) => match compile(word_text.as_str()) {
                Ok(word) => Ok(Needle { text: needle.to_string(), pattern, word }),
                Err(message) => Err(DefaultError::new(message)),
            },
            Err(message) => Err(DefaultError::new(message)),
        }
    }

    /// Asks the engine about one line.
    pub fn probe(&self, line: &str) -> (probe: LineProbe)
        ensures
            probe@ == probe_of(self@, line@),
    {
        proof {
            use_type_invariant(self);
        }
        let captured = match capture(&self.pattern, line, NEEDLE_GROUP) {
            Some(Some(text)) => Some(text),
            Some(None) => Some(String::new()),
            None => None,
        };
        LineProbe { captured, has_word: is_match(&self.word, line) }
    }
}

} // verus!
