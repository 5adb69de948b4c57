//! How search results and list entries are laid out for the terminal.
//!
//! Nothing is stated of a styled text, since the colours depend on the
//! environment; the layout around the styled texts is exact.

use crate::note::Note;
use crate::search_match::MatchedLine;
use crate::search_match::MatchedLineView;
use crate::search_match::SearchMatch;
use crate::style::cyan;
use crate::style::dimmed;
use crate::style::green;
use crate::style::styled_as;
use crate::style::yellow;
use crate::style::CYAN;
use crate::style::DIMMED;
use crate::style::GREEN;
use crate::style::YELLOW;
use crate::text::decimal;
use crate::text::decimal_string;
use crate::text::join;
use crate::text::join_lines;
use crate::text::option_view;
use crate::text::replace;
use crate::text::replace_all;
use vstd::prelude::*;
use vstd::string::*;

verus! {

/// What stands in place of the lines of a match that has none.
pub const EMPTY_NOTE: &'static str = "... This note is empty ...";

/// A note's identifier as shown to the user: `@` and the number.
pub open spec fn id_tag_text(id: nat) -> Seq<char> {
    "@"@ + decimal(id)
}

/// A score as shown to the user.
pub open spec fn score_tag_text(score: nat) -> Seq<char> {
    "(Score: "@ + decimal(score) + ")"@
}

/// A line number as shown to the user: the number and a dot.
pub open spec fn line_tag_text(number: nat) -> Seq<char> {
    decimal(number) + "."@
}

/// A line behind its number.
pub open spec fn numbered_text(number: Seq<char>, line: Seq<char>) -> Seq<char> {
    number + " "@ + line
}

/// The first line of a rendered match, line feed included.
pub open spec fn header_text(id: Seq<char>, title: Seq<char>, score: Seq<char>) -> Seq<char> {
    id + " "@ + title + " "@ + score + " \n"@
}

/// An entry of a list of notes.
pub open spec fn list_item_text(id: Seq<char>, title: Seq<char>) -> Seq<char> {
    " "@ + id + " - "@ + title
}

/// The heading of a directory in a list of notes.
pub open spec fn directory_text(name: Seq<char>) -> Seq<char> {
    " 🗁  "@ + name
}

/// One matched line ready for layout: the line itself and its neighbours,
/// each already numbered and styled.
pub struct StyledLine {
    pub previous: Option<String>,
    pub line: String,
    pub next: Option<String>,
}

pub struct StyledLineView {
    pub previous: Option<Seq<char>>,
    pub line: Seq<char>,
    pub next: Option<Seq<char>>,
}

impl View for StyledLine {
    type V = StyledLineView;

    open spec fn view(&self) -> StyledLineView {
        StyledLineView {
            previous: option_view(self.previous),
            line: self.line@,
            next: option_view(self.next),
        }
    }
}

/// The views of a sequence of styled lines.
pub open spec fn styled_views(lines: Seq<StyledLine>) -> Seq<StyledLineView> {
    Seq::new(lines.len(), |i: int| lines[i]@)
}

/// A matched line with its neighbours, one per line. An entry with a
/// neighbour ends with a line feed unless it is the last one.
pub open spec fn entry_text(entry: StyledLineView, is_last: bool) -> Seq<char> {
    (match entry.previous {
        Some(previous) => previous + "\n"@,
        None => Seq::<char>::empty(),
    }) + entry.line + (match entry.next {
        Some(next) => "\n"@ + next,
        None => Seq::<char>::empty(),
    }) + (if !is_last && (entry.previous is Some || entry.next is Some) {
        "\n"@
    } else {
        Seq::<char>::empty()
    })
}

/// The texts of the entries.
pub open spec fn entry_texts(entries: Seq<StyledLineView>) -> Seq<Seq<char>> {
    Seq::new(entries.len(), |i: int| entry_text(entries[i], i == entries.len() - 1))
}

/// Everything under the header: the entries joined by line feeds, or a
/// notice where there is none.
pub open spec fn body_text(entries: Seq<StyledLineView>) -> Seq<char> {
    if entries.len() == 0 {
        EMPTY_NOTE@
    } else {
        join_lines(entry_texts(entries))
    }
}

/// A rendered match: the header and the body.
pub open spec fn search_match_text(
    id: Seq<char>,
    title: Seq<char>,
    score: Seq<char>,
    entries: Seq<StyledLineView>,
) -> Seq<char> {
    header_text(id, title, score) + body_text(entries)
}

/// Whether `styled` is a neighbour of a matched line as it is shown: behind
/// its number, both dimmed; absent where the line has no such neighbour.
pub open spec fn neighbour_styled(number: nat, line: Option<Seq<char>>, styled: Option<Seq<char>>)
    -> bool {
    match line {
        Some(text) => exists|tag: Seq<char>, dim: Seq<char>|
            styled_as(tag, line_tag_text(number), DIMMED@) && styled_as(dim, text, DIMMED@)
                && styled == Some(#[trigger] numbered_text(tag, dim)),
        None => styled is None,
    }
}

/// Whether `entry` is the matched line as it is shown: the line behind its
/// dimmed number, every occurrence of the captured text in yellow, and its
/// neighbours under the numbers before and after its own.
pub open spec fn line_styled(line: MatchedLineView, entry: StyledLineView) -> bool {
    &&& neighbour_styled((line.display_number - 1) as nat, line.previous, entry.previous)
    &&& neighbour_styled((line.display_number + 1) as nat, line.next, entry.next)
    &&& exists|tag: Seq<char>, highlight: Seq<char>|
        styled_as(tag, line_tag_text(line.display_number as nat), DIMMED@) && styled_as(
            highlight,
            line.matched,
            YELLOW@,
        ) && entry.line == #[trigger] numbered_text(
            tag,
            replace_all(line.content, line.matched, highlight),
        )
}

/// Whether the styled lines are the matched lines as they are shown, one for one.
pub open spec fn styled_from(entries: Seq<StyledLineView>, lines: Seq<MatchedLine>) -> bool {
    &&& entries.len() == lines.len()
    &&& forall|i: int| 0 <= i < entries.len() ==> line_styled(lines[i]@, #[trigger] entries[i])
}

/// Whether a text is the rendering of a match, with or without colours: a
/// header with the identifier in green, the title in cyan and the score
/// dimmed, then one entry for each line.
pub open spec fn renders(text: Seq<char>, search_m: SearchMatch) -> bool {
    exists|id: Seq<char>, title: Seq<char>, score: Seq<char>, entries: Seq<StyledLineView>|
        {
            &&& styled_as(id, id_tag_text(search_m.id as nat), GREEN@)
            &&& styled_as(title, search_m.title@, CYAN@)
            &&& styled_as(score, score_tag_text(search_m.score as nat), DIMMED@)
            &&& styled_from(entries, search_m.matched_lines@)
            &&& text == #[trigger] search_match_text(id, title, score, entries)
        }
}

/// A note's identifier as shown to the user.
pub fn id_tag(id: usize) -> (tag: String)
    ensures
        tag@ == id_tag_text(id as nat),
{
    let mut tag = "@".to_string();
    tag.append(decimal_string(id as u128).as_str());
    tag
}

/// A score as shown to the user.
pub fn score_tag(score: usize) -> (tag: String)
    ensures
        tag@ == score_tag_text(score as nat),
{
    let mut tag = "(Score: ".to_string();
    tag.append(decimal_string(score as u128).as_str());
    tag.append(")");
    tag
}

/// A line number as shown to the user.
pub fn line_tag(number: u128) -> (tag: String)
    ensures
        tag@ == line_tag_text(number as nat),
{
    let mut tag = decimal_string(number);
    tag.append(".");
    tag
}

/// A line behind its number.
pub fn numbered(number: &str, line: &str) -> (text: String)
    ensures
        text@ == numbered_text(number@, line@),
{
    let mut text = number.to_string();
    text.append(" ");
    text.append(line);
    text
}

/// The first line of a rendered match.
pub fn header(id: &str, title: &str, score: &str) -> (text: String)
    ensures
        text@ == header_text(id@, title@, score@),
{
    let mut text = id.to_string();
    text.append(" ");
    text.append(title);
    text.append(" ");
    text.append(score);
    text.append(" \n");
    text
}

/// An entry of a list of notes.
pub fn list_item(id: &str, title: &str) -> (text: String)
    ensures
        text@ == list_item_text(id@, title@),
{
    let mut text = " ".to_string();
    text.append(id);
    text.append(" - ");
    text.append(title);
    text
}

/// One entry of a rendered match.
pub fn entry(styled: &StyledLine, is_last: bool) -> (text: String)
    ensures
        text@ == entry_text(styled@, is_last),
{
    let mut text = String::new();
    if let Some(previous) = &styled.previous {
        text.append(previous.as_str());
        text.append("\n");
    }
    text.append(styled.line.as_str());
    if let Some(next) = &styled.next {
        text.append("\n");
        text.append(next.as_str());
    }
    if !is_last && (styled.previous.is_some() || styled.next.is_some()) {
        text.append("\n");
    }
    proof {
        assert(text@ =~= entry_text(styled@, is_last));
    }
    text
}

/// A rendered match, from its styled parts.
pub fn layout(id: &str, title: &str, score: &str, lines: &Vec<StyledLine>) -> (text: String)
    ensures
        text@ == search_match_text(id@, title@, score@, styled_views(lines@)),
{
    let mut text = header(id, title, score);
    if lines.len() == 0 {
        text.append(EMPTY_NOTE);
        return text;
    }
    let mut entries: Vec<String> = Vec::new();
    let mut i: usize = 0;
    while i < lines.len()
        invariant
            i <= lines.len(),
            entries@.len() == i,
            forall|j: int|
                0 <= j < i ==> (#[trigger] entries@[j])@ == entry_text(
                    lines@[j]@,
                    j == lines.len() - 1,
                ),
        decreases lines.len() - i,
    {
        entries.push(entry(&lines[i], i == lines.len() - 1));
        i += 1;
    }
    proof {
        assert(crate::text::views(entries@) =~= entry_texts(styled_views(lines@)));
    }
    text.append(join(&entries).as_str());
    text
}

/// Renders notes and matches for the terminal.
///
/// For each method the trait names which texts a call may give; a renderer
/// that says nothing of its texts leaves that open.
pub trait CliFormat {
    /// Whether `text` may be the rendering of the match.
    open spec fn may_render_match(&self, search_m: SearchMatch, text: Seq<char>) -> bool {
        true
    }

    /// Whether `text` may be the list entry of the note.
    open spec fn may_render_item(&self, note: Note, text: Seq<char>) -> bool {
        true
    }

    /// Whether `text` may be the rendering of the score.
    open spec fn may_render_score(&self, score: usize, text: Seq<char>) -> bool {
        true
    }

    /// Whether `text` may be the rendering of the identifier.
    open spec fn may_render_id(&self, id: usize, text: Seq<char>) -> bool {
        true
    }

    /// Whether `text` may be the rendering of the title.
    open spec fn may_render_title(&self, title: Seq<char>, text: Seq<char>) -> bool {
        true
    }

    /// Whether `text` may be the heading of the directory with that name.
    open spec fn may_render_directory(&self, name: Seq<char>, text: Seq<char>) -> bool {
        true
    }

    fn search_match(&self, search_m: &SearchMatch) -> (text: String)
        requires
            search_m@.well_formed(),
        ensures
            self.may_render_match(*search_m, text@),
    ;

    fn note_list_item(&self, note: &Note) -> (text: String)
        ensures
            self.may_render_item(*note, text@),
    ;

    fn match_score(&self, score: usize) -> (text: String)
        ensures
            self.may_render_score(score, text@),
    ;

    fn note_id(&self, id: usize) -> (text: String)
        ensures
            self.may_render_id(id, text@),
    ;

    fn note_title(&self, title: &str) -> (text: String)
        ensures
            self.may_render_title(title@, text@),
    ;

    fn note_directory(&self, name: &str) -> (text: String)
        ensures
            self.may_render_directory(name@, text@),
    ;
}

/// Whether `text` is the list entry of a note with the given identifier and
/// title: the identifier in green, the title in cyan.
pub open spec fn item_rendered(id: nat, title: Seq<char>, text: Seq<char>) -> bool {
    exists|id_text: Seq<char>, title_text: Seq<char>|
        styled_as(id_text, id_tag_text(id), GREEN@) && styled_as(title_text, title, CYAN@) && text
            == #[trigger] list_item_text(id_text, title_text)
}

/// The renderer that colours its output.
pub struct CliFormatImpl;

impl CliFormatImpl {
    pub fn new() -> Self {
        CliFormatImpl {  }
    }

    /// A neighbour of a matched line behind its number, both dimmed.
    fn styled_neighbour(number: u128, line: &Option<String>) -> (styled: Option<String>)
        ensures
            neighbour_styled(number as nat, option_view(*line), option_view(styled)),
    {
        match line {
            Some(text) => {
                let tag = dimmed(line_tag(number).as_str());
                let dim = dimmed(text.as_str());
                let shown = numbered(tag.as_str(), dim.as_str());
                proof {
                    assert(shown@ == numbered_text(tag@, dim@));
                }
                Some(shown)
            },
            None => None,
        }
    }

    /// One matched line with its numbers and neighbours styled: numbers and
    /// neighbours dimmed, every occurrence of the captured text highlighted.
    fn styled_line(raw_line: &MatchedLine) -> (styled: StyledLine)
        requires
            raw_line.display_number >= 1,
        ensures
            line_styled(raw_line@, styled@),
    {
        let match_highlighted = yellow(raw_line.matched.as_str());
        let line_nbr = dimmed(line_tag(raw_line.display_number as u128).as_str());
        let previous = Self::styled_neighbour(
            (raw_line.display_number - 1) as u128,
            &raw_line.previous,
        );
        let next = Self::styled_neighbour(raw_line.display_number as u128 + 1, &raw_line.next);
        let content = replace(
            raw_line.content.as_str(),
            raw_line.matched.as_str(),
            match_highlighted.as_str(),
        );
        let line = numbered(line_nbr.as_str(), content.as_str());
        proof {
            assert(line@ == numbered_text(
                line_nbr@,
                replace_all(raw_line@.content, raw_line@.matched, match_highlighted@),
            ));
        }
        StyledLine { previous, line, next }
    }
}

impl Default for CliFormatImpl {
    fn default() -> Self {
        CliFormatImpl::new()
    }
}

impl CliFormat for CliFormatImpl {
    open spec fn may_render_match(&self, search_m: SearchMatch, text: Seq<char>) -> bool {
        renders(text, search_m)
    }

    open spec fn may_render_item(&self, note: Note, text: Seq<char>) -> bool {
        item_rendered(note@.id as nat, note@.title, text)
    }

    open spec fn may_render_score(&self, score: usize, text: Seq<char>) -> bool {
        styled_as(text, score_tag_text(score as nat), DIMMED@)
    }

    open spec fn may_render_id(&self, id: usize, text: Seq<char>) -> bool {
        styled_as(text, id_tag_text(id as nat), GREEN@)
    }

    open spec fn may_render_title(&self, title: Seq<char>, text: Seq<char>) -> bool {
        styled_as(text, title, CYAN@)
    }

    open spec fn may_render_directory(&self, name: Seq<char>, text: Seq<char>) -> bool {
        text == directory_text(name)
    }

    fn search_match(&self, search_m: &SearchMatch) -> (text: String) {
        let id = self.note_id(search_m.id);
        let title = self.note_title(search_m.title.as_str());
        let score = self.match_score(search_m.score);
        let mut lines: Vec<StyledLine> = Vec::new();
        let mut i: usize = 0;
        while i < search_m.matched_lines.len()
            invariant
                i <= search_m.matched_lines.len(),
                search_m@.well_formed(),
                lines@.len() == i,
                forall|k: int|
                    0 <= k < i ==> line_styled(
                        search_m.matched_lines@[k]@,
                        (#[trigger] lines@[k])@,
                    ),
            decreases search_m.matched_lines.len() - i,
        {
            assert(search_m@.matched_lines[i as int].well_formed());
            lines.push(Self::styled_line(&search_m.matched_lines[i]));
            i += 1;
        }
        let text = layout(id.as_str(), title.as_str(), score.as_str(), &lines);
        proof {
            let entries = styled_views(lines@);
            assert forall|k: int| 0 <= k < entries.len() implies line_styled(
                search_m.matched_lines@[k]@,
                #[trigger] entries[k],
            ) by {
                assert(entries[k] == lines@[k]@);
            }
            assert(styled_from(entries, search_m.matched_lines@));
            assert(text@ == search_match_text(id@, title@, score@, entries));
        }
        text
    }

    fn note_list_item(&self, note: &Note) -> (text: String) {
        let id = self.note_id(note.id());
        let title = self.note_title(note.title().as_str());
        let text = list_item(id.as_str(), title.as_str());
        proof {
            assert(text@ == list_item_text(id@, title@));
        }
        text
    }

    fn match_score(&self, score: usize) -> (text: String) {
        dimmed(score_tag(score).as_str())
    }

    fn note_id(&self, id: usize) -> (text: String) {
        green(id_tag(id).as_str())
    }

    fn note_title(&self, title: &str) -> (text: String) {
        cyan(title)
    }

    fn note_directory(&self, name: &str) -> (text: String) {
        let mut text = " 🗁  ".to_string();
        text.append(name);
        text
    }
}

} // verus!
