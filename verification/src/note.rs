//! Notes: a parsed text file, and what a needle finds in it.

use crate::default_error::DefaultError;
use crate::pattern::has_word;
use crate::pattern::needle_capture;
use crate::pattern::probe_of;
use crate::pattern::LineProbe;
use crate::pattern::LineProbeView;
use crate::pattern::Needle;
use crate::search_match::line_views;
use crate::search_match::MatchedLine;
use crate::search_match::MatchedLineView;
use crate::search_match::SearchMatch;
use crate::search_match::SearchMatchView;
use crate::text::join;
use crate::text::join_lines;
use crate::text::lemma_join_split_lines;
use crate::text::lemma_non_empty_lines_bound;
use crate::text::non_empty_lines;
use crate::text::split;
use crate::text::split_lines;
use crate::text::views;
use vstd::prelude::*;
use vstd::string::*;

verus! {

/// How many raw lines after the title are looked at when only the title matched.
pub const CONTEXT_LINES: usize = 6;

/// What a title match adds to a note's score.
pub const TITLE_SCORE: usize = 4;

/// A note: the lines of one text file, with its title and body told apart.
#[derive(Debug, PartialEq, Eq)]
pub struct Note {
    id: usize,
    path: String,
    title: String,
    /// The non-empty lines after the title.
    body: Vec<String>,
    /// All lines, empty ones included.
    raw: Vec<String>,
}

pub struct NoteView {
    pub id: int,
    pub path: Seq<char>,
    pub title: Seq<char>,
    pub body: Seq<Seq<char>>,
    pub raw: Seq<Seq<char>>,
}

impl NoteView {
    /// The title is the first non-empty raw line, and the body is made of the
    /// non-empty raw lines after it.
    pub open spec fn well_formed(self) -> bool {
        let lines = non_empty_lines(self.raw);
        &&& lines.len() >= 1
        &&& self.title == lines[0]
        &&& self.body == lines.drop_first()
    }

    /// Whether `t` is where the title stands first among the raw lines.
    pub open spec fn is_title_index(self, t: int) -> bool {
        &&& 0 <= t < self.raw.len()
        &&& self.raw[t] == self.title
        &&& forall|j: int| 0 <= j < t ==> self.raw[j] != self.title
    }

    /// The index of the first raw line equal to the title.
    pub open spec fn title_index(self) -> int {
        choose|t: int| self.is_title_index(t)
    }
}

/// The note that a file's content parses to, where it has a non-empty line.
pub open spec fn note_of(id: int, path: Seq<char>, content: Seq<char>) -> NoteView {
    let raw = split_lines(content);
    let lines = non_empty_lines(raw);
    NoteView { id, path, title: lines[0], body: lines.drop_first(), raw }
}

/// Whether a text has a line that is not empty.
pub open spec fn has_content(content: Seq<char>) -> bool {
    non_empty_lines(split_lines(content)).len() >= 1
}

/// The views of a sequence of probes.
pub open spec fn probe_views(probes: Seq<LineProbe>) -> Seq<LineProbeView> {
    Seq::new(probes.len(), |i: int| probes[i]@)
}

/// What the engine reports of each of the lines for `needle`.
pub open spec fn probes_of(needle: Seq<char>, lines: Seq<Seq<char>>) -> Seq<LineProbeView> {
    Seq::new(lines.len(), |i: int| probe_of(needle, lines[i]))
}

/// Whether the needle matched line `i`.
pub open spec fn hit(probes: Seq<LineProbeView>, i: int) -> bool {
    probes[i].captured is Some
}

/// How many of the non-empty lines `raw[from..upto]` the needle matched.
pub open spec fn body_hits(
    raw: Seq<Seq<char>>,
    probes: Seq<LineProbeView>,
    from: int,
    upto: int,
) -> nat
    decreases upto - from,
{
    if upto <= from {
        0
    } else {
        let before = body_hits(raw, probes, from, upto - 1);
        if raw[upto - 1].len() > 0 && hit(probes, upto - 1) {
            before + 1
        } else {
            before
        }
    }
}

/// A note's score: four for a matched title, one for each matched body line.
pub open spec fn score_of(note: NoteView, probes: Seq<LineProbeView>) -> int {
    let t = note.title_index();
    (if hit(probes, t) {
        TITLE_SCORE as int
    } else {
        0
    }) + body_hits(note.raw, probes, t + 1, note.raw.len() as int)
}

/// Line `i` as a neighbour of a matched line: present where it exists and
/// holds a word character.
pub open spec fn neighbour(raw: Seq<Seq<char>>, probes: Seq<LineProbeView>, i: int) -> Option<
    Seq<char>,
> {
    if 0 <= i < raw.len() && probes[i].has_word {
        Some(raw[i])
    } else {
        None
    }
}

/// The record for line `i`, which the needle matched.
pub open spec fn match_at(raw: Seq<Seq<char>>, probes: Seq<LineProbeView>, i: int)
    -> MatchedLineView {
    MatchedLineView {
        display_number: i + 1,
        line_number: i,
        content: raw[i],
        matched: probes[i].captured->0,
        previous: if i > 1 {
            neighbour(raw, probes, i - 1)
        } else {
            None
        },
        next: neighbour(raw, probes, i + 1),
    }
}

/// The record for line `i` shown as context under a matched title.
pub open spec fn context_at(raw: Seq<Seq<char>>, i: int) -> MatchedLineView {
    MatchedLineView {
        display_number: i + 1,
        line_number: i,
        content: raw[i],
        matched: Seq::<char>::empty(),
        previous: None,
        next: None,
    }
}

/// The records of the matched lines among `raw[from..upto]`, in order.
pub open spec fn matches_in(
    raw: Seq<Seq<char>>,
    probes: Seq<LineProbeView>,
    from: int,
    upto: int,
) -> Seq<MatchedLineView>
    decreases upto - from,
{
    if upto <= from {
        Seq::<MatchedLineView>::empty()
    } else {
        let before = matches_in(raw, probes, from, upto - 1);
        if hit(probes, upto - 1) {
            before.push(match_at(raw, probes, upto - 1))
        } else {
            before
        }
    }
}

/// The context records of the lines with a word character among
/// `raw[from..upto]`, in order.
pub open spec fn context_in(
    raw: Seq<Seq<char>>,
    probes: Seq<LineProbeView>,
    from: int,
    upto: int,
) -> Seq<MatchedLineView>
    decreases upto - from,
{
    if upto <= from {
        Seq::<MatchedLineView>::empty()
    } else {
        let before = context_in(raw, probes, from, upto - 1);
        if probes[upto - 1].has_word {
            before.push(context_at(raw, upto - 1))
        } else {
            before
        }
    }
}

/// Where the context window under the title ends.
pub open spec fn context_end(note: NoteView) -> int {
    let end = note.title_index() + 1 + CONTEXT_LINES;
    if end <= note.raw.len() {
        end
    } else {
        note.raw.len() as int
    }
}

/// Whether the title alone matched: the score is positive and no line after
/// the title was matched.
pub open spec fn title_only(note: NoteView, probes: Seq<LineProbeView>) -> bool {
    let t = note.title_index();
    score_of(note, probes) > 0 && matches_in(note.raw, probes, t + 1, note.raw.len() as int).len()
        == 0
}

/// The records a search reports for a note.
pub open spec fn matched_lines_of(note: NoteView, probes: Seq<LineProbeView>) -> Seq<
    MatchedLineView,
> {
    let t = note.title_index();
    if title_only(note, probes) {
        context_in(note.raw, probes, t + 1, context_end(note))
    } else {
        matches_in(note.raw, probes, t + 1, note.raw.len() as int)
    }
}

/// What a search reports for a note.
pub open spec fn search_match_of(note: NoteView, probes: Seq<LineProbeView>) -> SearchMatchView {
    SearchMatchView {
        id: note.id,
        score: score_of(note, probes),
        path: note.path,
        title: note.title,
        matched_lines: matched_lines_of(note, probes),
    }
}

/// Where the non-empty lines are not empty, the first of them stands at some
/// index `t` with only empty lines before it, and the others are the
/// non-empty lines after `t`.
pub proof fn lemma_first_non_empty(lines: Seq<Seq<char>>) -> (t: int)
    requires
        non_empty_lines(lines).len() >= 1,
    ensures
        0 <= t < lines.len(),
        lines[t] == non_empty_lines(lines)[0],
        lines[t].len() > 0,
        forall|j: int| 0 <= j < t ==> lines[j].len() == 0,
        non_empty_lines(lines).drop_first() == non_empty_lines(
            lines.subrange(t + 1, lines.len() as int),
        ),
    decreases lines.len(),
{
    let shorter = lines.drop_last();
    if non_empty_lines(shorter).len() >= 1 {
        let t = lemma_first_non_empty(shorter);
        assert forall|j: int| 0 <= j < t implies lines[j].len() == 0 by {
            assert(lines[j] == shorter[j]);
        }
        assert(lines[t] == shorter[t]);
        let tail = lines.subrange(t + 1, lines.len() as int);
        assert(tail.drop_last() =~= shorter.subrange(t + 1, shorter.len() as int));
        assert(tail.last() == lines.last());
        assert(non_empty_lines(lines).drop_first() =~= non_empty_lines(tail));
        t
    } else {
        lemma_no_non_empty(shorter);
        let t = lines.len() - 1;
        assert forall|j: int| 0 <= j < t implies lines[j].len() == 0 by {
            assert(lines[j] == shorter[j]);
        }
        assert(lines.subrange(t + 1, lines.len() as int) =~= Seq::<Seq<char>>::empty());
        assert(non_empty_lines(lines).drop_first() =~= Seq::<Seq<char>>::empty());
        t
    }
}

/// Where there are no non-empty lines, every line is empty.
pub proof fn lemma_no_non_empty(lines: Seq<Seq<char>>)
    requires
        non_empty_lines(lines).len() == 0,
    ensures
        forall|j: int| 0 <= j < lines.len() ==> lines[j].len() == 0,
    decreases lines.len(),
{
    if lines.len() > 0 {
        let shorter = lines.drop_last();
        assert(non_empty_lines(lines).len() >= non_empty_lines(shorter).len());
        lemma_no_non_empty(shorter);
        assert forall|j: int| 0 <= j < lines.len() implies lines[j].len() == 0 by {
            if j < shorter.len() {
                assert(lines[j] == shorter[j]);
            }
        }
    }
}

/// A well-formed note has exactly one title index: that of its first
/// non-empty line.
pub proof fn lemma_title_index(note: NoteView) -> (t: int)
    requires
        note.well_formed(),
    ensures
        t == note.title_index(),
        note.is_title_index(t),
        note.raw[t].len() > 0,
        forall|j: int| 0 <= j < t ==> note.raw[j].len() == 0,
        note.body == non_empty_lines(note.raw.subrange(t + 1, note.raw.len() as int)),
{
    let t = lemma_first_non_empty(note.raw);
    assert(note.is_title_index(t));
    let chosen = note.title_index();
    assert(note.is_title_index(chosen));
    assert(chosen == t);
    t
}

/// No more lines are matched than there are non-empty lines.
pub proof fn lemma_body_hits_bound(
    raw: Seq<Seq<char>>,
    probes: Seq<LineProbeView>,
    from: int,
    upto: int,
)
    requires
        0 <= from <= upto <= raw.len(),
    ensures
        body_hits(raw, probes, from, upto) <= non_empty_lines(raw.subrange(from, upto)).len(),
    decreases upto - from,
{
    if from < upto {
        lemma_body_hits_bound(raw, probes, from, upto - 1);
        assert(raw.subrange(from, upto).drop_last() =~= raw.subrange(from, upto - 1));
    }
}

/// How many of the lines the needle matches.
pub open spec fn matched_count(needle: Seq<char>, lines: Seq<Seq<char>>) -> nat
    decreases lines.len(),
{
    if lines.len() == 0 {
        0
    } else {
        let before = matched_count(needle, lines.drop_last());
        if needle_capture(needle, lines.last()) is Some {
            before + 1
        } else {
            before
        }
    }
}

/// The matched non-empty lines of `raw[from..upto]` are the matched lines
/// among the non-empty lines of that range.
pub proof fn lemma_body_hits_count(needle: Seq<char>, raw: Seq<Seq<char>>, from: int, upto: int)
    requires
        0 <= from <= upto <= raw.len(),
    ensures
        body_hits(raw, probes_of(needle, raw), from, upto) == matched_count(
            needle,
            non_empty_lines(raw.subrange(from, upto)),
        ),
    decreases upto - from,
{
    let range = raw.subrange(from, upto);
    if from < upto {
        lemma_body_hits_count(needle, raw, from, upto - 1);
        assert(range.drop_last() =~= raw.subrange(from, upto - 1));
        assert(range.last() == raw[upto - 1]);
        if range.last().len() > 0 {
            let kept = non_empty_lines(range);
            assert(kept.drop_last() =~= non_empty_lines(range.drop_last()));
            assert(kept.last() == raw[upto - 1]);
        }
    }
}

/// Record `k` among the matched lines of `raw[from..upto]` is the record of a
/// matched line `i` of that range, and `k` matched lines stand before `i`.
pub proof fn lemma_matches_in(
    raw: Seq<Seq<char>>,
    probes: Seq<LineProbeView>,
    from: int,
    upto: int,
    k: int,
) -> (i: int)
    requires
        0 <= k < matches_in(raw, probes, from, upto).len(),
    ensures
        from <= i < upto,
        hit(probes, i),
        matches_in(raw, probes, from, upto)[k] == match_at(raw, probes, i),
        matches_in(raw, probes, from, i).len() == k,
    decreases upto - from,
{
    let before = matches_in(raw, probes, from, upto - 1);
    if k < before.len() {
        lemma_matches_in(raw, probes, from, upto - 1, k)
    } else {
        upto - 1
    }
}

/// Record `k` among the context lines of `raw[from..upto]` is the record of a
/// line `i` of that range that holds a word character, and `k` such lines
/// stand before `i`.
pub proof fn lemma_context_in(
    raw: Seq<Seq<char>>,
    probes: Seq<LineProbeView>,
    from: int,
    upto: int,
    k: int,
) -> (i: int)
    requires
        0 <= k < context_in(raw, probes, from, upto).len(),
    ensures
        from <= i < upto,
        probes[i].has_word,
        context_in(raw, probes, from, upto)[k] == context_at(raw, i),
        context_in(raw, probes, from, i).len() == k,
    decreases upto - from,
{
    let before = context_in(raw, probes, from, upto - 1);
    if k < before.len() {
        lemma_context_in(raw, probes, from, upto - 1, k)
    } else {
        upto - 1
    }
}

/// A longer range holds at least as many matched lines.
pub proof fn lemma_matches_in_grow(
    raw: Seq<Seq<char>>,
    probes: Seq<LineProbeView>,
    from: int,
    middle: int,
    upto: int,
)
    requires
        from <= middle <= upto,
    ensures
        matches_in(raw, probes, from, middle).len() <= matches_in(raw, probes, from, upto).len(),
    decreases upto - middle,
{
    if middle < upto {
        lemma_matches_in_grow(raw, probes, from, middle, upto - 1);
    }
}

/// A longer range holds at least as many context lines, and a range holds at
/// most as many as it has lines.
pub proof fn lemma_context_in_grow(
    raw: Seq<Seq<char>>,
    probes: Seq<LineProbeView>,
    from: int,
    middle: int,
    upto: int,
)
    requires
        from <= middle <= upto,
    ensures
        context_in(raw, probes, from, middle).len() <= context_in(raw, probes, from, upto).len(),
        context_in(raw, probes, from, upto).len() <= upto - from,
    decreases upto - from,
{
    if from < upto {
        if middle < upto {
            lemma_context_in_grow(raw, probes, from, middle, upto - 1);
        } else {
            lemma_context_in_grow(raw, probes, from, upto - 1, upto - 1);
        }
    }
}

/// A range without a matched line yields no record, and the other way round.
pub proof fn lemma_matches_in_empty(
    raw: Seq<Seq<char>>,
    probes: Seq<LineProbeView>,
    from: int,
    upto: int,
)
    ensures
        matches_in(raw, probes, from, upto).len() == 0 <==> forall|i: int|
            from <= i < upto ==> !hit(probes, i),
    decreases upto - from,
{
    if from < upto {
        lemma_matches_in_empty(raw, probes, from, upto - 1);
        if matches_in(raw, probes, from, upto).len() == 0 {
            assert forall|i: int| from <= i < upto implies !hit(probes, i) by {
                if i < upto - 1 {
                }
            }
        }
    }
}

/// Where the needle matches no empty line, the non-empty lines of a range
/// hold a matched line exactly where the range does.
pub proof fn lemma_body_hits_zero(
    raw: Seq<Seq<char>>,
    probes: Seq<LineProbeView>,
    from: int,
    upto: int,
)
    requires
        0 <= from <= upto <= raw.len(),
        forall|i: int| from <= i < upto && raw[i].len() == 0 ==> !hit(probes, i),
    ensures
        body_hits(raw, probes, from, upto) == 0 <==> forall|i: int|
            from <= i < upto ==> !hit(probes, i),
    decreases upto - from,
{
    if from < upto {
        lemma_body_hits_zero(raw, probes, from, upto - 1);
        if body_hits(raw, probes, from, upto) == 0 {
            assert forall|i: int| from <= i < upto implies !hit(probes, i) by {
                if i < upto - 1 {
                }
            }
        }
    }
}

/// The text of a parsed note, joined by line feeds, is the text it was parsed from.
pub proof fn round_trip(id: int, path: Seq<char>, content: Seq<char>)
    ensures
        join_lines(note_of(id, path, content).raw) == content,
{
    lemma_join_split_lines(content);
}

/// A note's score for a needle is four where the needle matches the title,
/// plus the number of body lines that the needle matches.
pub proof fn score_formula(note: NoteView, needle: Seq<char>)
    requires
        note.well_formed(),
    ensures
        score_of(note, probes_of(needle, note.raw)) == (if needle_capture(needle, note.title)
            is Some {
            4int
        } else {
            0int
        }) + matched_count(needle, note.body),
{
    let t = lemma_title_index(note);
    lemma_body_hits_count(needle, note.raw, t + 1, note.raw.len() as int);
}

/// Every reported line is shown under its index plus one, and the reported
/// lines stand in the order of the note's lines, after the title.
pub proof fn display_numbering(note: NoteView, probes: Seq<LineProbeView>, k: int)
    requires
        note.well_formed(),
        probes.len() == note.raw.len(),
        0 <= k < matched_lines_of(note, probes).len(),
    ensures
        matched_lines_of(note, probes)[k].display_number == matched_lines_of(
            note,
            probes,
        )[k].line_number + 1,
        note.title_index() < matched_lines_of(note, probes)[k].line_number < note.raw.len(),
        matched_lines_of(note, probes)[k].content == note.raw[matched_lines_of(
            note,
            probes,
        )[k].line_number],
        forall|j: int|
            0 <= j < k ==> (#[trigger] matched_lines_of(note, probes)[j]).line_number
                < matched_lines_of(note, probes)[k].line_number,
{
    let t = lemma_title_index(note);
    let len = note.raw.len() as int;
    if title_only(note, probes) {
        let end = context_end(note);
        let i = lemma_context_in(note.raw, probes, t + 1, end, k);
        assert forall|j: int| 0 <= j < k implies (#[trigger] matched_lines_of(
            note,
            probes,
        )[j]).line_number < i by {
            let earlier = lemma_context_in(note.raw, probes, t + 1, end, j);
            if earlier >= i {
                lemma_context_in_grow(note.raw, probes, t + 1, i, earlier);
            }
        }
    } else {
        let i = lemma_matches_in(note.raw, probes, t + 1, len, k);
        assert forall|j: int| 0 <= j < k implies (#[trigger] matched_lines_of(
            note,
            probes,
        )[j]).line_number < i by {
            let earlier = lemma_matches_in(note.raw, probes, t + 1, len, j);
            if earlier >= i {
                lemma_matches_in_grow(note.raw, probes, t + 1, i, earlier);
            }
        }
    }
}

/// Where not the title alone matched, a reported line was matched by the
/// needle and carries what the needle captured; a neighbour that it carries is
/// the raw line just before or just after it, and holds a word character.
pub proof fn context_lines(note: NoteView, needle: Seq<char>, k: int)
    requires
        note.well_formed(),
        !title_only(note, probes_of(needle, note.raw)),
        0 <= k < matched_lines_of(note, probes_of(needle, note.raw)).len(),
    ensures
        ({
            let line = matched_lines_of(note, probes_of(needle, note.raw))[k];
            let i = line.line_number;
            &&& 0 < i < note.raw.len()
            &&& needle_capture(needle, note.raw[i]) == Some(line.matched)
            &&& line.previous matches Some(text) ==> text == note.raw[i - 1] && has_word(text)
            &&& line.next matches Some(text) ==> i + 1 < note.raw.len() && text == note.raw[i + 1]
                && has_word(text)
        }),
{
    let t = lemma_title_index(note);
    let probes = probes_of(needle, note.raw);
    let i = lemma_matches_in(note.raw, probes, t + 1, note.raw.len() as int, k);
}

/// The title alone matched exactly where the score is positive and the needle
/// matched no line after the title. Then at most six lines are reported, all
/// from the six raw lines after the title; each holds a word character, and
/// none carries a captured text or a neighbour.
pub proof fn title_only_context(note: NoteView, needle: Seq<char>)
    requires
        note.well_formed(),
    ensures
        ({
            let probes = probes_of(needle, note.raw);
            let lines = matched_lines_of(note, probes);
            let t = note.title_index();
            &&& title_only(note, probes) <==> score_of(note, probes) > 0 && forall|i: int|
                t < i < note.raw.len() ==> needle_capture(needle, #[trigger] note.raw[i]) is None
            &&& title_only(note, probes) ==> {
                &&& score_of(note, probes) == TITLE_SCORE
                &&& lines.len() <= CONTEXT_LINES
                &&& forall|k: int|
                    0 <= k < lines.len() ==> {
                        &&& t < (#[trigger] lines[k]).line_number <= t + CONTEXT_LINES
                        &&& has_word(lines[k].content)
                        &&& lines[k].matched.len() == 0
                        &&& lines[k].previous is None
                        &&& lines[k].next is None
                    }
            }
        }),
{
    let probes = probes_of(needle, note.raw);
    let lines = matched_lines_of(note, probes);
    let t = lemma_title_index(note);
    let len = note.raw.len() as int;
    lemma_matches_in_empty(note.raw, probes, t + 1, len);
    if title_only(note, probes) {
        let end = context_end(note);
        lemma_context_in_grow(note.raw, probes, t + 1, end, end);
        assert forall|i: int| t < i < len implies needle_capture(
            needle,
            #[trigger] note.raw[i],
        ) is None by {
            assert(!hit(probes, i));
        }
        assert(body_hits(note.raw, probes, t + 1, len) == 0) by {
            lemma_body_hits_none(note.raw, probes, t + 1, len);
        }
        assert forall|k: int| 0 <= k < lines.len() implies {
            &&& t < (#[trigger] lines[k]).line_number <= t + CONTEXT_LINES
            &&& has_word(lines[k].content)
            &&& lines[k].matched.len() == 0
            &&& lines[k].previous is None
            &&& lines[k].next is None
        } by {
            let i = lemma_context_in(note.raw, probes, t + 1, end, k);
        }
    }
    if score_of(note, probes) > 0 && (forall|i: int|
        t < i < note.raw.len() ==> needle_capture(needle, #[trigger] note.raw[i]) is None) {
        assert forall|i: int| t + 1 <= i < len implies !hit(probes, i) by {
            assert(needle_capture(needle, note.raw[i]) is None);
        }
    }
}

/// Where the needle does not match the empty line, the title alone matched
/// exactly where the score is positive and the needle matched no body line.
pub proof fn title_only_trigger(note: NoteView, needle: Seq<char>)
    requires
        note.well_formed(),
        needle_capture(needle, Seq::<char>::empty()) is None,
    ensures
        title_only(note, probes_of(needle, note.raw)) <==> score_of(
            note,
            probes_of(needle, note.raw),
        ) > 0 && matched_count(needle, note.body) == 0,
{
    let probes = probes_of(needle, note.raw);
    let t = lemma_title_index(note);
    let len = note.raw.len() as int;
    lemma_matches_in_empty(note.raw, probes, t + 1, len);
    assert forall|i: int| t + 1 <= i < len && note.raw[i].len() == 0 implies !hit(probes, i) by {
        assert(note.raw[i] =~= Seq::<char>::empty());
    }
    lemma_body_hits_zero(note.raw, probes, t + 1, len);
    lemma_body_hits_count(needle, note.raw, t + 1, len);
}

/// A range without a matched line has no matched non-empty line.
pub proof fn lemma_body_hits_none(
    raw: Seq<Seq<char>>,
    probes: Seq<LineProbeView>,
    from: int,
    upto: int,
)
    requires
        forall|i: int| from <= i < upto ==> !hit(probes, i),
    ensures
        body_hits(raw, probes, from, upto) == 0,
    decreases upto - from,
{
    if from < upto {
        lemma_body_hits_none(raw, probes, from, upto - 1);
    }
}

impl View for Note {
    type V = NoteView;

    closed spec fn view(&self) -> NoteView {
        NoteView {
            id: self.id as int,
            path: self.path@,
            title: self.title@,
            body: views(self.body@),
            raw: views(self.raw@),
        }
    }
}

/// A copy of the lines.
fn copy_lines(lines: &Vec<String>) -> (copy: Vec<String>)
    ensures
        views(copy@) == views(lines@),
        copy@.len() == lines@.len(),
{
    let mut copy: Vec<String> = Vec::new();
    let mut i: usize = 0;
    while i < lines.len()
        invariant
            i <= lines.len(),
            copy@.len() == i,
            forall|j: int| 0 <= j < i ==> (#[trigger] copy@[j])@ == lines@[j]@,
        decreases lines.len() - i,
    {
        copy.push(lines[i].clone());
        i += 1;
    }
    proof {
        assert(views(copy@) =~= views(lines@));
    }
    copy
}

impl Clone for Note {
    fn clone(&self) -> (copy: Self)
        ensures
            copy@ == self@,
    {
        proof {
            use_type_invariant(self);
        }
        Note {
            id: self.id,
            path: self.path.clone(),
            title: self.title.clone(),
            body: copy_lines(&self.body),
            raw: copy_lines(&self.raw),
        }
    }
}

impl Note {
    #[verifier::type_invariant]
    spec fn sound(&self) -> bool {
        &&& self@.well_formed()
        &&& self.body@.len() + TITLE_SCORE <= usize::MAX
    }

    /// Parses a file's content. Fails exactly where no line is non-empty.
    pub fn from(id: usize, path: String, raw_content: String) -> (parsed: Result<
        Note,
        DefaultError,
    >)
        ensures
            match parsed {
                Ok(note) => {
                    &&& has_content(raw_content@)
                    &&& note@ == note_of(id as int, path@, raw_content@)
                    &&& note@.well_formed()
                    &&& join_lines(note@.raw) == raw_content@
                },
                Err(error) => {
                    &&& !has_content(raw_content@)
                    &&& error.message@ == "Not enough lines"@
                    &&& error.backtrace is None
                },
            },
    {
        let raw = split(raw_content.as_str());
        let mut lines: Vec<String> = Vec::new();
        let mut i: usize = 0;
        proof {
            assert(views(raw@).take(0) =~= Seq::<Seq<char>>::empty());
            assert(views(lines@) =~= Seq::<Seq<char>>::empty());
        }
        while i < raw.len()
            invariant
                i <= raw.len(),
                views(lines@) == non_empty_lines(views(raw@).take(i as int)),
            decreases raw.len() - i,
        {
            proof {
                let next = views(raw@).take(i + 1);
                assert(next.drop_last() =~= views(raw@).take(i as int));
                assert(next.last() == raw@[i as int]@);
            }
            if !raw[i].as_str().is_empty() {
                let ghost before = lines@;
                lines.push(raw[i].clone());
                proof {
                    assert(views(lines@) =~= views(before).push(raw@[i as int]@));
                }
            }
            i += 1;
        }
        proof {
            assert(views(raw@).take(raw.len() as int) =~= views(raw@));
            lemma_join_split_lines(raw_content@);
            lemma_non_empty_lines_bound(raw_content@);
        }
        if lines.len() < 1 {
            return Err(DefaultError::new("Not enough lines".to_string()));
        }
        let ghost all = lines@;
        let title = lines.remove(0);
        proof {
            assert(views(lines@) =~= views(all).drop_first());
            assert(title@ == views(all)[0]);
            assert(2 * all.len() <= raw_content@.len() + 1);
        }
        Ok(Note { id, path, title, body: lines, raw })
    }

    /// The note's identifier.
    pub fn id(&self) -> (id: usize)
        ensures
            id == self@.id,
    {
        self.id
    }

    /// Where the note is stored.
    pub fn path(&self) -> (path: &String)
        ensures
            path@ == self@.path,
    {
        &self.path
    }

    /// The first non-empty line.
    pub fn title(&self) -> (title: &String)
        ensures
            title@ == self@.title,
            self@.well_formed(),
    {
        proof {
            use_type_invariant(self);
        }
        &self.title
    }

    /// The non-empty lines after the title.
    pub fn body(&self) -> (body: &Vec<String>)
        ensures
            views(body@) == self@.body,
    {
        &self.body
    }

    /// All lines, empty ones included.
    pub fn raw(&self) -> (raw: &Vec<String>)
        ensures
            views(raw@) == self@.raw,
    {
        &self.raw
    }

    /// The text the note was parsed from.
    pub fn content(&self) -> (text: String)
        ensures
            text@ == join_lines(self@.raw),
    {
        join(&self.raw)
    }

    /// The index of the first raw line equal to the title.
    fn title_position(&self) -> (t: usize)
        ensures
            t == self@.title_index(),
            self@.is_title_index(t as int),
            t < self.raw@.len() <= usize::MAX,
    {
        proof {
            use_type_invariant(self);
        }
        let ghost found = lemma_title_index(self@);
        let len = self.raw.len();
        let mut t: usize = 0;
        while self.raw[t] != self.title
            invariant
                0 <= t <= found < self.raw@.len() == len,
                self@.is_title_index(found),
                forall|j: int| 0 <= j < t ==> self@.raw[j] != self@.title,
            decreases found - t,
        {
            assert(self@.raw[t as int] != self@.title);
            t += 1;
        }
        assert(self@.raw[t as int] == self@.title);
        t
    }

    /// Asks the engine about every raw line.
    pub fn probes(&self, needle: &Needle) -> (probes: Vec<LineProbe>)
        ensures
            probes@.len() == self@.raw.len(),
            probe_views(probes@) == probes_of(needle@, self@.raw),
    {
        let mut probes: Vec<LineProbe> = Vec::new();
        let mut i: usize = 0;
        while i < self.raw.len()
            invariant
                i <= self.raw@.len(),
                probes@.len() == i,
                forall|j: int| 0 <= j < i ==> (#[trigger] probes@[j])@ == probe_of(
                    needle@,
                    self.raw@[j]@,
                ),
            decreases self.raw@.len() - i,
        {
            probes.push(needle.probe(self.raw[i].as_str()));
            i += 1;
        }
        proof {
            assert(probe_views(probes@) =~= probes_of(needle@, self@.raw));
        }
        probes
    }

    /// The score that the probes of the raw lines give the note.
    pub fn score_with(&self, probes: &Vec<LineProbe>) -> (score: usize)
        requires
            probes@.len() == self@.raw.len(),
        ensures
            score == score_of(self@, probe_views(probes@)),
    {
        proof {
            use_type_invariant(self);
        }
        let t = self.title_position();
        let ghost seen = probe_views(probes@);
        let mut hits: usize = 0;
        let mut i: usize = t + 1;
        while i < self.raw.len()
            invariant
                t < i <= self.raw@.len(),
                probes@.len() == self.raw@.len(),
                seen == probe_views(probes@),
                hits == body_hits(self@.raw, seen, t + 1, i as int),
                hits <= i - t - 1,
            decreases self.raw@.len() - i,
        {
            if !self.raw[i].as_str().is_empty() && probes[i].captured.is_some() {
                hits += 1;
            }
            i += 1;
        }
        proof {
            let found = lemma_title_index(self@);
            lemma_body_hits_bound(self@.raw, seen, t + 1, self@.raw.len() as int);
        }
        if probes[t].captured.is_some() {
            hits + TITLE_SCORE
        } else {
            hits
        }
    }

    /// What a search reports for the note, given the probes of its raw lines.
    pub fn search_match_with(&self, probes: &Vec<LineProbe>) -> (found: SearchMatch)
        requires
            probes@.len() == self@.raw.len(),
        ensures
            found@ == search_match_of(self@, probe_views(probes@)),
            found@.well_formed(),
    {
        let score = self.score_with(probes);
        let t = self.title_position();
        let ghost seen = probe_views(probes@);
        let mut lines: Vec<MatchedLine> = Vec::new();
        let mut i: usize = t + 1;
        proof {
            assert(line_views(lines@) =~= matches_in(self@.raw, seen, t + 1, i as int));
        }
        while i < self.raw.len()
            invariant
                t < i <= self.raw@.len(),
                probes@.len() == self.raw@.len(),
                seen == probe_views(probes@),
                line_views(lines@) == matches_in(self@.raw, seen, t + 1, i as int),
                forall|k: int| 0 <= k < lines@.len() ==> (#[trigger] lines@[k])@.well_formed(),
            decreases self.raw@.len() - i,
        {
            if let Some(captured) = &probes[i].captured {
                let previous = if i > 1 {
                    Self::neighbour_of(&self.raw, probes, i - 1)
                } else {
                    None
                };
                let next = if i + 1 < self.raw.len() {
                    Self::neighbour_of(&self.raw, probes, i + 1)
                } else {
                    None
                };
                let line = MatchedLine {
                    display_number: i + 1,
                    line_number: i,
                    content: self.raw[i].clone(),
                    matched: captured.clone(),
                    previous,
                    next,
                };
                let ghost before = lines@;
                lines.push(line);
                proof {
                    assert(line@ == match_at(self@.raw, seen, i as int));
                    assert(line_views(lines@) =~= line_views(before).push(line@));
                }
            }
            i += 1;
        }
        if score > 0 && lines.len() < 1 {
            let end = if self.raw.len() - t - 1 >= CONTEXT_LINES {
                t + 1 + CONTEXT_LINES
            } else {
                self.raw.len()
            };
            let mut i: usize = t + 1;
            proof {
                assert(line_views(lines@) =~= context_in(self@.raw, seen, t + 1, i as int));
            }
            while i < end
                invariant
                    t < i <= end <= self.raw@.len(),
                    probes@.len() == self.raw@.len(),
                    seen == probe_views(probes@),
                    line_views(lines@) == context_in(self@.raw, seen, t + 1, i as int),
                    forall|k: int| 0 <= k < lines@.len() ==> (#[trigger] lines@[k])@.well_formed(),
                decreases end - i,
            {
                if probes[i].has_word {
                    let line = MatchedLine {
                        display_number: i + 1,
                        line_number: i,
                        content: self.raw[i].clone(),
                        matched: String::new(),
                        previous: None,
                        next: None,
                    };
                    let ghost before = lines@;
                    lines.push(line);
                    proof {
                        assert(line@ == context_at(self@.raw, i as int));
                        assert(line_views(lines@) =~= line_views(before).push(line@));
                    }
                }
                i += 1;
            }
        }
        SearchMatch {
            id: self.id,
            score,
            path: self.path.clone(),
            title: self.title.clone(),
            matched_lines: lines,
        }
    }

    /// Line `i` as a neighbour of a matched line.
    fn neighbour_of(raw: &Vec<String>, probes: &Vec<LineProbe>, i: usize) -> (line: Option<String>)
        requires
            i < raw@.len(),
            probes@.len() == raw@.len(),
        ensures
            crate::text::option_view(line) == neighbour(
                views(raw@),
                probe_views(probes@),
                i as int,
            ),
    {
        if probes[i].has_word {
            Some(raw[i].clone())
        } else {
            None
        }
    }

    /// The note's score for a needle.
    pub fn match_score(&self, needle: &Needle) -> (score: usize)
        ensures
            score == score_of(self@, probes_of(needle@, self@.raw)),
    {
        let probes = self.probes(needle);
        self.score_with(&probes)
    }

    /// What a search for a needle reports for the note.
    pub fn search_match(&self, needle: &Needle) -> (found: SearchMatch)
        ensures
            found@ == search_match_of(self@, probes_of(needle@, self@.raw)),
            found@.well_formed(),
    {
        let probes = self.probes(needle);
        self.search_match_with(&probes)
    }
}

} // verus!
