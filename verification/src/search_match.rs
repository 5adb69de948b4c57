//! The result of matching one note against a needle.

use crate::text::option_view;
use vstd::prelude::*;

verus! {

/// One line of a note reported by a search, with the lines around it.
#[derive(Debug, PartialEq, Eq)]
pub struct MatchedLine {
    /// The line's number as shown to the user, counted from one.
    pub display_number: usize,
    /// The line's index among the note's raw lines, counted from zero.
    pub line_number: usize,
    pub content: String,
    /// The text the needle captured; empty for a context line.
    pub matched: String,
    pub previous: Option<String>,
    pub next: Option<String>,
}

pub struct MatchedLineView {
    pub display_number: int,
    pub line_number: int,
    pub content: Seq<char>,
    pub matched: Seq<char>,
    pub previous: Option<Seq<char>>,
    pub next: Option<Seq<char>>,
}

impl MatchedLineView {
    /// The line is shown under its index plus one.
    pub open spec fn well_formed(self) -> bool {
        self.display_number == self.line_number + 1
    }
}

impl SearchMatchView {
    /// Every line is shown under its index plus one.
    pub open spec fn well_formed(self) -> bool {
        forall|i: int|
            0 <= i < self.matched_lines.len() ==> (#[trigger] self.matched_lines[i]).well_formed()
    }
}

impl View for MatchedLine {
    type V = MatchedLineView;

    open spec fn view(&self) -> MatchedLineView {
        MatchedLineView {
            display_number: self.display_number as int,
            line_number: self.line_number as int,
            content: self.content@,
            matched: self.matched@,
            previous: option_view(self.previous),
            next: option_view(self.next),
        }
    }
}

/// The views of a sequence of matched lines.
pub open spec fn line_views(lines: Seq<MatchedLine>) -> Seq<MatchedLineView> {
    Seq::new(lines.len(), |i: int| lines[i]@)
}

/// What a search found in one note.
#[derive(Debug, PartialEq, Eq)]
pub struct SearchMatch {
    pub id: usize,
    pub score: usize,
    pub path: String,
    pub title: String,
    pub matched_lines: Vec<MatchedLine>,
}

pub struct SearchMatchView {
    pub id: int,
    pub score: int,
    pub path: Seq<char>,
    pub title: Seq<char>,
    pub matched_lines: Seq<MatchedLineView>,
}

impl View for SearchMatch {
    type V = SearchMatchView;

    open spec fn view(&self) -> SearchMatchView {
        SearchMatchView {
            id: self.id as int,
            score: self.score as int,
            path: self.path@,
            title: self.title@,
            matched_lines: line_views(self.matched_lines@),
        }
    }
}

/// The views of a sequence of search matches.
pub open spec fn match_views(matches: Seq<SearchMatch>) -> Seq<SearchMatchView> {
    Seq::new(matches.len(), |i: int| matches[i]@)
}

/// `ranked` with `found` put behind all matches that score at least as high.
pub open spec fn ranked_insert(ranked: Seq<SearchMatchView>, found: SearchMatchView) -> Seq<
    SearchMatchView,
>
    decreases ranked.len(),
{
    if ranked.len() == 0 {
        seq![found]
    } else if ranked.last().score >= found.score {
        ranked.push(found)
    } else {
        ranked_insert(ranked.drop_last(), found).push(ranked.last())
    }
}

/// The matches by falling score; matches of one score keep their order.
pub open spec fn ranked(matches: Seq<SearchMatchView>) -> Seq<SearchMatchView>
    decreases matches.len(),
{
    if matches.len() == 0 {
        Seq::<SearchMatchView>::empty()
    } else {
        ranked_insert(ranked(matches.drop_last()), matches.last())
    }
}

/// The matches with a score above zero, in order.
pub open spec fn positive(matches: Seq<SearchMatchView>) -> Seq<SearchMatchView>
    decreases matches.len(),
{
    if matches.len() == 0 {
        Seq::<SearchMatchView>::empty()
    } else if matches.last().score > 0 {
        positive(matches.drop_last()).push(matches.last())
    } else {
        positive(matches.drop_last())
    }
}

/// The matches with the given score, in order.
pub open spec fn with_score(matches: Seq<SearchMatchView>, score: int) -> Seq<SearchMatchView>
    decreases matches.len(),
{
    if matches.len() == 0 {
        Seq::<SearchMatchView>::empty()
    } else if matches.last().score == score {
        with_score(matches.drop_last(), score).push(matches.last())
    } else {
        with_score(matches.drop_last(), score)
    }
}

/// Whether no match scores higher than one before it.
pub open spec fn descending(matches: Seq<SearchMatchView>) -> bool {
    forall|i: int, j: int| 0 <= i < j < matches.len() ==> matches[i].score >= matches[j].score
}

/// Putting a match into matches of falling score keeps the scores falling,
/// puts it behind the matches of its own score, and leaves the matches of
/// every other score as they were.
pub proof fn lemma_ranked_insert(ranked: Seq<SearchMatchView>, found: SearchMatchView, score: int)
    requires
        descending(ranked),
    ensures
        descending(ranked_insert(ranked, found)),
        ranked_insert(ranked, found).len() == ranked.len() + 1,
        forall|i: int|
            0 <= i < ranked_insert(ranked, found).len() ==> (#[trigger] ranked_insert(
                ranked,
                found,
            )[i]) == found || exists|j: int| 0 <= j < ranked.len() && ranked[j] == ranked_insert(
                ranked,
                found,
            )[i],
        with_score(ranked_insert(ranked, found), score) == if found.score == score {
            with_score(ranked, score).push(found)
        } else {
            with_score(ranked, score)
        },
    decreases ranked.len(),
{
    let result = ranked_insert(ranked, found);
    if ranked.len() == 0 {
        assert(result.drop_last() =~= ranked);
    } else if ranked.last().score >= found.score {
        assert(result.drop_last() =~= ranked);
        assert forall|i: int| 0 <= i < result.len() implies (#[trigger] result[i]) == found
            || exists|j: int| 0 <= j < ranked.len() && ranked[j] == result[i] by {
            if i < ranked.len() {
                assert(ranked[i] == result[i]);
            }
        }
    } else {
        let shorter = ranked.drop_last();
        let inner = ranked_insert(shorter, found);
        assert(descending(shorter)) by {
            assert forall|i: int, j: int| 0 <= i < j < shorter.len() implies shorter[i].score
                >= shorter[j].score by {
                assert(shorter[i] == ranked[i] && shorter[j] == ranked[j]);
            }
        }
        lemma_ranked_insert(shorter, found, score);
        assert(result.drop_last() =~= inner);
        assert forall|i: int| 0 <= i < result.len() implies (#[trigger] result[i]) == found
            || exists|j: int| 0 <= j < ranked.len() && ranked[j] == result[i] by {
            if i < inner.len() {
                assert(result[i] == inner[i]);
                if inner[i] != found {
                    let j = choose|j: int| 0 <= j < shorter.len() && shorter[j] == inner[i];
                    assert(ranked[j] == result[i]);
                }
            } else {
                assert(ranked[ranked.len() - 1] == result[i]);
            }
        }
        assert forall|i: int, j: int| 0 <= i < j < result.len() implies result[i].score
            >= result[j].score by {
            if j < inner.len() {
                assert(result[i] == inner[i] && result[j] == inner[j]);
            } else {
                assert(result[i] == inner[i]);
                if inner[i] != found {
                    let k = choose|k: int| 0 <= k < shorter.len() && shorter[k] == inner[i];
                    assert(ranked[k].score >= ranked[ranked.len() - 1].score);
                }
            }
        }
    }
}

/// Ranking keeps every match and lets the scores fall.
pub proof fn lemma_ranked(matches: Seq<SearchMatchView>)
    ensures
        descending(ranked(matches)),
        ranked(matches).len() == matches.len(),
    decreases matches.len(),
{
    if matches.len() > 0 {
        lemma_ranked(matches.drop_last());
        lemma_ranked_insert(ranked(matches.drop_last()), matches.last(), 0);
    }
}

/// Ranked matches stand by falling score, and the matches of one score stand
/// in the order in which they came.
pub proof fn ranking_is_stable(matches: Seq<SearchMatchView>, score: int)
    ensures
        descending(ranked(matches)),
        ranked(matches).len() == matches.len(),
        with_score(ranked(matches), score) == with_score(matches, score),
    decreases matches.len(),
{
    lemma_ranked(matches);
    if matches.len() > 0 {
        lemma_ranked(matches.drop_last());
        ranking_is_stable(matches.drop_last(), score);
        lemma_ranked_insert(ranked(matches.drop_last()), matches.last(), score);
    }
}

/// Every ranked match is one of the matches that were ranked.
pub proof fn lemma_ranked_members(matches: Seq<SearchMatchView>, i: int) -> (j: int)
    requires
        0 <= i < ranked(matches).len(),
    ensures
        0 <= j < matches.len(),
        ranked(matches)[i] == matches[j],
    decreases matches.len(),
{
    let shorter = matches.drop_last();
    lemma_ranked(shorter);
    lemma_ranked_insert(ranked(shorter), matches.last(), 0);
    if ranked(matches)[i] == matches.last() {
        matches.len() - 1
    } else {
        let k = choose|k: int| 0 <= k < ranked(shorter).len() && ranked(shorter)[k] == ranked(
            matches,
        )[i];
        lemma_ranked_members(shorter, k)
    }
}

/// Leaving out the matches that score zero changes nothing among the
/// matches of a score above zero.
pub proof fn lemma_positive_with_score(matches: Seq<SearchMatchView>, score: int)
    requires
        score > 0,
    ensures
        with_score(positive(matches), score) == with_score(matches, score),
    decreases matches.len(),
{
    if matches.len() > 0 {
        lemma_positive_with_score(matches.drop_last(), score);
        if matches.last().score > 0 {
            assert(positive(matches).drop_last() =~= positive(matches.drop_last()));
        }
    }
}

/// Puts a match into matches ranked by falling score, behind all that score
/// at least as high.
pub fn insert_ranked(ranked: &mut Vec<SearchMatch>, found: SearchMatch)
    ensures
        match_views(final(ranked)@) == ranked_insert(match_views(old(ranked)@), found@),
{
    let ghost before = match_views(ranked@);
    let mut at: usize = ranked.len();
    proof {
        assert(before.take(at as int) =~= before);
        assert(before.skip(at as int) =~= Seq::<SearchMatchView>::empty());
        assert(ranked_insert(before.take(at as int), found@) + before.skip(at as int)
            =~= ranked_insert(before, found@));
    }
    while at > 0 && ranked[at - 1].score < found.score
        invariant
            at <= ranked@.len(),
            before == match_views(ranked@),
            ranked_insert(before.take(at as int), found@) + before.skip(at as int)
                == ranked_insert(before, found@),
        decreases at,
    {
        proof {
            let front = before.take(at as int);
            assert(front.last() == ranked@[at - 1]@);
            assert(front.drop_last() =~= before.take(at - 1));
            assert(ranked_insert(front, found@) == ranked_insert(
                before.take(at - 1),
                found@,
            ).push(front.last()));
            assert(ranked_insert(before.take(at - 1), found@).push(front.last()) + before.skip(
                at as int,
            ) =~= ranked_insert(before.take(at - 1), found@) + before.skip(at - 1));
        }
        at -= 1;
    }
    proof {
        let front = before.take(at as int);
        if at > 0 {
            assert(front.last() == ranked@[at - 1]@);
        }
        assert(ranked_insert(front, found@) == front.push(found@));
    }
    ranked.insert(at, found);
    proof {
        assert(match_views(ranked@) =~= before.take(at as int).push(found@) + before.skip(
            at as int,
        ));
    }
}

/// The matches by falling score; matches of one score keep their order.
pub fn rank(matches: Vec<SearchMatch>) -> (sorted: Vec<SearchMatch>)
    ensures
        match_views(sorted@) == ranked(match_views(matches@)),
{
    let mut sorted: Vec<SearchMatch> = Vec::new();
    let ghost all = match_views(matches@);
    proof {
        assert(match_views(sorted@) =~= ranked(all.take(0)));
    }
    for found in it: matches.into_iter()
        invariant
            it.seq() == matches@,
            all == match_views(matches@),
            match_views(sorted@) == ranked(all.take(it.index())),
    {
        proof {
            let next = all.take(it.index() + 1);
            assert(next.drop_last() =~= all.take(it.index()));
            assert(next.last() == found@);
        }
        insert_ranked(&mut sorted, found);
    }
    proof {
        assert(all.take(matches@.len() as int) =~= all);
    }
    sorted
}

} // verus!
