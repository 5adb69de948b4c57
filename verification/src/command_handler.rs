//! The commands, and what each of them hands to the console.

use crate::banners::Banners;
use crate::banners::BANNER;
use crate::style::styled_as;
use crate::style::GREEN;
use crate::cli_format::CliFormat;
use crate::console_output::ConsoleOutput;
use crate::default_error::DefaultError;
use crate::note::probes_of;
use crate::note::search_match_of;
use crate::note::Note;
use crate::note::NoteView;
use crate::pattern::needle_refusal;
use crate::pattern::Needle;
use crate::repository::note_views;
use crate::repository::Repository;
use crate::repository::RepositoryDir;
use crate::repository::NOTE_SUFFIX;
use crate::search_match::descending;
use crate::search_match::lemma_positive_with_score;
use crate::search_match::lemma_ranked_members;
use crate::search_match::match_views;
use crate::search_match::positive;
use crate::search_match::rank;
use crate::search_match::ranked;
use crate::search_match::ranking_is_stable;
use crate::search_match::with_score;
use crate::search_match::SearchMatch;
use crate::search_match::SearchMatchView;
use crate::text::decimal;
use crate::text::decimal_string;
use crate::text::ends_with;
use crate::text::has_suffix;
use crate::text::repeat;
use crate::text::repeated;
use crate::text::views;
use crate::usage::usage;
use vstd::prelude::*;
use vstd::string::*;

verus! {

/// What the user asks for.
#[derive(Debug, PartialEq)]
pub enum Command {
    New { path: String },
    List,
    Search { needle: String },
    Edit { id: usize },
    Delete { id: usize },
    Push,
    Pull,
    Help,
}

pub enum CommandView {
    New { path: Seq<char> },
    List,
    Search { needle: Seq<char> },
    Edit { id: usize },
    Delete { id: usize },
    Push,
    Pull,
    Help,
}

impl View for Command {
    type V = CommandView;

    open spec fn view(&self) -> CommandView {
        match self {
            Command::New { path } => CommandView::New { path: path@ },
            Command::List => CommandView::List,
            Command::Search { needle } => CommandView::Search { needle: needle@ },
            Command::Edit { id } => CommandView::Edit { id: *id },
            Command::Delete { id } => CommandView::Delete { id: *id },
            Command::Push => CommandView::Push,
            Command::Pull => CommandView::Pull,
            Command::Help => CommandView::Help,
        }
    }
}

/// The file of a note asked for under `path`: `path` itself where it ends
/// in `.md`, else `path` with `.md` behind it.
pub open spec fn note_file_text(path: Seq<char>) -> Seq<char> {
    if ends_with(path, NOTE_SUFFIX@) {
        path
    } else {
        path + NOTE_SUFFIX@
    }
}

/// What is said of a note after `action` was done to it.
pub open spec fn done_text(path: Seq<char>, action: Seq<char>) -> Seq<char> {
    "\nNote '"@ + path + "' "@ + action + "\n"@
}

/// The message for an identifier that no note carries.
pub open spec fn not_found_text(id: nat) -> Seq<char> {
    "Note with id "@ + decimal(id) + " not found."@
}

/// The last line of a search: how many notes were found.
pub open spec fn results_text(count: nat, needle: Seq<char>) -> Seq<char> {
    decimal(count) + " results found for '"@ + needle + "'\n"@
}

/// Each text followed by `end`, one after the other.
pub open spec fn each_followed_by(texts: Seq<Seq<char>>, end: Seq<char>) -> Seq<char>
    decreases texts.len(),
{
    if texts.len() == 0 {
        Seq::<char>::empty()
    } else {
        each_followed_by(texts.drop_last(), end) + texts.last() + end
    }
}

/// Each text behind `pad` and followed by a line feed, one after the other.
pub open spec fn padded_lines(pad: Seq<char>, texts: Seq<Seq<char>>) -> Seq<char>
    decreases texts.len(),
{
    if texts.len() == 0 {
        Seq::<char>::empty()
    } else {
        padded_lines(pad, texts.drop_last()) + pad + texts.last() + "\n"@
    }
}

/// What a search prints: every rendered match followed by an empty line,
/// then the number of matches.
pub open spec fn search_report_text(rendered: Seq<Seq<char>>, needle: Seq<char>) -> Seq<char> {
    each_followed_by(rendered, "\n\n"@) + results_text(rendered.len(), needle)
}

/// What a list prints for one directory: its heading and its notes, each
/// two spaces deeper per level, then an empty line.
pub open spec fn directory_block_text(level: nat, heading: Seq<char>, items: Seq<Seq<char>>)
    -> Seq<char> {
    let pad = repeated("  "@, level);
    pad + heading + "\n"@ + padded_lines(pad, items) + "\n"@
}

/// What the help prints under the banner.
pub open spec fn help_text(banner: Seq<char>, usage: Seq<char>) -> Seq<char> {
    banner + "\n"@ + usage + "\n"@
}

/// Whether a needle can be searched for: it compiles as one capture group,
/// and so does the pattern for a word character.
pub open spec fn needle_compiles(needle: Seq<char>) -> bool {
    needle_refusal(needle) is None
}

/// What a search reports for each of the notes.
pub open spec fn matches_of(notes: Seq<NoteView>, needle: Seq<char>) -> Seq<SearchMatchView> {
    Seq::new(notes.len(), |i: int| search_match_of(notes[i], probes_of(needle, notes[i].raw)))
}

/// What a search finds: the matches of the notes that score above zero, by
/// falling score, notes of one score in the order of the notes.
pub open spec fn found_matches(notes: Seq<NoteView>, needle: Seq<char>) -> Seq<SearchMatchView> {
    ranked(positive(matches_of(notes, needle)))
}

/// The matches that a search finds stand by falling score; all score above
/// zero; and those of one score are the matches of the notes with that score,
/// in the order of the notes.
pub proof fn search_order(notes: Seq<NoteView>, needle: Seq<char>, score: int)
    ensures
        descending(found_matches(notes, needle)),
        forall|i: int|
            0 <= i < found_matches(notes, needle).len() ==> (#[trigger] found_matches(
                notes,
                needle,
            )[i]).score > 0,
        score > 0 ==> with_score(found_matches(notes, needle), score) == with_score(
            matches_of(notes, needle),
            score,
        ),
{
    let all = matches_of(notes, needle);
    ranking_is_stable(positive(all), score);
    if score > 0 {
        lemma_positive_with_score(all, score);
    }
    assert forall|i: int| 0 <= i < found_matches(notes, needle).len() implies (
    #[trigger] found_matches(notes, needle)[i]).score > 0 by {
        let j = lemma_ranked_members(positive(all), i);
        lemma_positive_members(all, j);
    }
}

/// Every match kept for its score is one of the matches and scores above zero.
pub proof fn lemma_positive_members(matches: Seq<SearchMatchView>, i: int) -> (j: int)
    requires
        0 <= i < positive(matches).len(),
    ensures
        0 <= j < matches.len(),
        positive(matches)[i] == matches[j],
        matches[j].score > 0,
    decreases matches.len(),
{
    let shorter = matches.drop_last();
    if i < positive(shorter).len() {
        lemma_positive_members(shorter, i)
    } else {
        matches.len() - 1
    }
}

/// The file of a note asked for under `path`.
pub fn note_file(path: String) -> (file: String)
    ensures
        file@ == note_file_text(path@),
{
    if has_suffix(path.as_str(), NOTE_SUFFIX) {
        path
    } else {
        let mut file = path;
        file.append(NOTE_SUFFIX);
        file
    }
}

/// What is said of a note after `action` was done to it.
pub fn done_message(path: &str, action: &str) -> (message: String)
    ensures
        message@ == done_text(path@, action@),
{
    let mut message = "\nNote '".to_string();
    message.append(path);
    message.append("' ");
    message.append(action);
    message.append("\n");
    message
}

/// The error for an identifier that no note carries.
pub fn not_found(id: usize) -> (error: DefaultError)
    ensures
        error.message@ == not_found_text(id as nat),
        error.backtrace is None,
{
    let mut message = "Note with id ".to_string();
    message.append(decimal_string(id as u128).as_str());
    message.append(" not found.");
    DefaultError::new(message)
}

/// What a search prints, from its rendered matches.
pub fn search_report(rendered: &Vec<String>, needle: &str) -> (report: String)
    ensures
        report@ == search_report_text(views(rendered@), needle@),
{
    let mut report = String::new();
    let mut i: usize = 0;
    proof {
        assert(views(rendered@).take(0) =~= Seq::<Seq<char>>::empty());
    }
    while i < rendered.len()
        invariant
            i <= rendered.len(),
            report@ == each_followed_by(views(rendered@).take(i as int), "\n\n"@),
        decreases rendered.len() - i,
    {
        proof {
            let next = views(rendered@).take(i + 1);
            assert(next.drop_last() =~= views(rendered@).take(i as int));
            assert(next.last() == rendered@[i as int]@);
        }
        report.append(rendered[i].as_str());
        report.append("\n\n");
        i += 1;
    }
    proof {
        assert(views(rendered@).take(rendered.len() as int) =~= views(rendered@));
    }
    report.append(decimal_string(rendered.len() as u128).as_str());
    report.append(" results found for '");
    report.append(needle);
    report.append("'\n");
    proof {
        assert(report@ =~= search_report_text(views(rendered@), needle@));
    }
    report
}

/// What a list prints for one directory, from its rendered heading and notes.
pub fn directory_block(level: usize, heading: &str, items: &Vec<String>) -> (block: String)
    ensures
        block@ == directory_block_text(level as nat, heading@, views(items@)),
{
    let pad = repeat("  ", level);
    let mut block = pad.clone();
    block.append(heading);
    block.append("\n");
    let ghost head = block@;
    let mut i: usize = 0;
    proof {
        assert(views(items@).take(0) =~= Seq::<Seq<char>>::empty());
        assert(block@ =~= head + padded_lines(pad@, views(items@).take(0)));
    }
    while i < items.len()
        invariant
            i <= items.len(),
            block@ == head + padded_lines(pad@, views(items@).take(i as int)),
        decreases items.len() - i,
    {
        proof {
            let next = views(items@).take(i + 1);
            assert(next.drop_last() =~= views(items@).take(i as int));
            assert(next.last() == items@[i as int]@);
        }
        let ghost before = block@;
        block.append(pad.as_str());
        block.append(items[i].as_str());
        block.append("\n");
        proof {
            assert(block@ =~= head + padded_lines(pad@, views(items@).take(i + 1)));
        }
        i += 1;
    }
    proof {
        assert(views(items@).take(items.len() as int) =~= views(items@));
    }
    block.append("\n");
    proof {
        assert(block@ =~= directory_block_text(level as nat, heading@, views(items@)));
    }
    block
}

/// What the help prints, under the given banner.
pub fn help_report(banner: &str) -> (report: String)
    ensures
        report@ == help_text(banner@, crate::usage::USAGE@ + crate::PKG_VERSION@ + "\n\n"@),
{
    let mut report = banner.to_string();
    report.append("\n");
    report.append(usage().as_str());
    report.append("\n");
    report
}

/// What a search finds among the notes.
pub fn find_matches(notes: &Vec<Note>, needle: &Needle) -> (found: Vec<SearchMatch>)
    ensures
        match_views(found@) == found_matches(note_views(notes@), needle@),
        forall|i: int| 0 <= i < found@.len() ==> (#[trigger] found@[i])@.well_formed(),
{
    let mut kept: Vec<SearchMatch> = Vec::new();
    let mut i: usize = 0;
    let ghost all = matches_of(note_views(notes@), needle@);
    proof {
        assert(all.take(0) =~= Seq::<SearchMatchView>::empty());
        assert(match_views(kept@) =~= positive(all.take(0)));
    }
    while i < notes.len()
        invariant
            i <= notes.len(),
            all == matches_of(note_views(notes@), needle@),
            match_views(kept@) == positive(all.take(i as int)),
            forall|k: int| 0 <= k < kept@.len() ==> (#[trigger] kept@[k])@.well_formed(),
        decreases notes.len() - i,
    {
        let found = notes[i].search_match(needle);
        proof {
            let next = all.take(i + 1);
            assert(next.drop_last() =~= all.take(i as int));
            assert(next.last() == found@);
        }
        if found.score > 0 {
            let ghost before = kept@;
            kept.push(found);
            proof {
                assert(match_views(kept@) =~= match_views(before).push(found@));
            }
        }
        i += 1;
    }
    proof {
        assert(all.take(notes.len() as int) =~= all);
    }
    let ghost unsorted = match_views(kept@);
    let sorted = rank(kept);
    proof {
        assert forall|i: int| 0 <= i < sorted@.len() implies (#[trigger] sorted@[i])@.well_formed() by {
            crate::search_match::lemma_ranked(unsorted);
            let j = lemma_ranked_members(unsorted, i);
            assert(match_views(sorted@)[i] == sorted@[i]@);
            assert(unsorted[j].well_formed());
        }
    }
    sorted
}

/// The message for a repository that cannot hold one more note.
pub const TOO_MANY_NOTES: &'static str = "Too many notes";

/// The texts one after the other.
pub open spec fn concatenated(texts: Seq<Seq<char>>) -> Seq<char>
    decreases texts.len(),
{
    if texts.len() == 0 {
        Seq::<char>::empty()
    } else {
        concatenated(texts.drop_last()) + texts.last()
    }
}

/// Whether `applied` is `report` with `message` behind what it writes to
/// standard output; a failure is handed on as it is.
pub open spec fn followed_by(
    report: Result<ConsoleOutput, DefaultError>,
    message: Seq<char>,
    applied: Result<ConsoleOutput, DefaultError>,
) -> bool {
    match report {
        Ok(out) => applied is Ok && applied->Ok_0.stdout@ == out.stdout@ + message
            && applied->Ok_0.stderr@ == out.stderr@,
        Err(error) => applied == Err::<ConsoleOutput, DefaultError>(error),
    }
}

/// Whether `applied` is `report` with `banner` and a line feed in front of
/// what it writes to standard output; a failure is handed on as it is.
pub open spec fn under_banner(
    banner: Seq<char>,
    report: Result<ConsoleOutput, DefaultError>,
    applied: Result<ConsoleOutput, DefaultError>,
) -> bool {
    match report {
        Ok(out) => applied is Ok && applied->Ok_0.stdout@ == banner + "\n"@ + out.stdout@
            && applied->Ok_0.stderr@ == out.stderr@,
        Err(error) => applied == Err::<ConsoleOutput, DefaultError>(error),
    }
}

/// Whether `applied` is the failure for an identifier that no note carries.
pub open spec fn not_found_as(id: usize, applied: Result<ConsoleOutput, DefaultError>) -> bool {
    &&& applied is Err
    &&& applied->Err_0.message@ == not_found_text(id as nat)
    &&& applied->Err_0.backtrace is None
}

/// Whether `applied` may be what opening a fresh note gives: the repository
/// let the user edit it, and the note is said to be created.
pub open spec fn may_open_created<R: Repository>(
    repository: &R,
    note: Note,
    applied: Result<ConsoleOutput, DefaultError>,
) -> bool {
    exists|edited: Result<ConsoleOutput, DefaultError>|
        #[trigger] repository.may_edit(note, edited) && followed_by(
            edited,
            done_text(note@.path, "created"@),
            applied,
        )
}

/// Whether `applied` may be what creating the note numbered `id` gives: the
/// repository created it under `path` with `.md` at its end, then the note
/// was opened.
pub open spec fn may_create_numbered<R: Repository>(
    repository: &R,
    id: usize,
    path: Seq<char>,
    applied: Result<ConsoleOutput, DefaultError>,
) -> bool {
    exists|created: Result<Note, DefaultError>|
        #[trigger] repository.may_create(id, note_file_text(path), created) && match created {
            Ok(note) => may_open_created(repository, note, applied),
            Err(error) => applied == Err::<ConsoleOutput, DefaultError>(error),
        }
}

/// Whether `applied` may be what `new` gives: the notes were counted, and
/// the new note is numbered one above their number.
pub open spec fn may_create<R: Repository>(
    repository: &R,
    path: Seq<char>,
    applied: Result<ConsoleOutput, DefaultError>,
) -> bool {
    exists|notes: Vec<Note>|
        #[trigger] repository.may_load_notes(notes) && if notes@.len() < usize::MAX {
            may_create_numbered(repository, (notes@.len() + 1) as usize, path, applied)
        } else {
            &&& applied is Err
            &&& applied->Err_0.message@ == TOO_MANY_NOTES@
            &&& applied->Err_0.backtrace is None
        }
}

/// Whether `applied` may be what editing a found note gives.
pub open spec fn may_edit_found<R: Repository>(
    repository: &R,
    note: Note,
    applied: Result<ConsoleOutput, DefaultError>,
) -> bool {
    exists|edited: Result<ConsoleOutput, DefaultError>|
        #[trigger] repository.may_edit(note, edited) && followed_by(
            edited,
            done_text(note@.path, "edited"@),
            applied,
        )
}

/// Whether `applied` may be what `edit` gives: the repository looked the
/// note up; without a note the identifier is reported, else the note is
/// edited.
pub open spec fn may_edit<R: Repository>(
    repository: &R,
    id: usize,
    applied: Result<ConsoleOutput, DefaultError>,
) -> bool {
    exists|found: Option<Note>|
        #[trigger] repository.may_find(id, found) && match found {
            Some(note) => may_edit_found(repository, note, applied),
            None => not_found_as(id, applied),
        }
}

/// Whether `applied` may be what deleting a found note gives.
pub open spec fn may_delete_found<R: Repository>(
    repository: &R,
    note: Note,
    applied: Result<ConsoleOutput, DefaultError>,
) -> bool {
    exists|deleted: Result<ConsoleOutput, DefaultError>|
        #[trigger] repository.may_delete(note, deleted) && followed_by(
            deleted,
            done_text(note@.path, "deleted"@),
            applied,
        )
}

/// Whether `applied` may be what `delete` gives: the repository looked the
/// note up; without a note the identifier is reported, else the note is
/// deleted.
pub open spec fn may_delete<R: Repository>(
    repository: &R,
    id: usize,
    applied: Result<ConsoleOutput, DefaultError>,
) -> bool {
    exists|found: Option<Note>|
        #[trigger] repository.may_find(id, found) && match found {
            Some(note) => may_delete_found(repository, note, applied),
            None => not_found_as(id, applied),
        }
}

/// Whether `applied` may be what `push` gives: the big banner, then what the
/// repository reports of the push.
pub open spec fn may_push<R: Repository>(
    repository: &R,
    applied: Result<ConsoleOutput, DefaultError>,
) -> bool {
    exists|banner: Seq<char>, pushed: Result<ConsoleOutput, DefaultError>|
        #![trigger styled_as(banner, BANNER@, GREEN@), repository.may_push(pushed)]
        styled_as(banner, BANNER@, GREEN@) && repository.may_push(pushed) && under_banner(
            banner,
            pushed,
            applied,
        )
}

/// Whether `applied` may be what `pull` gives: the big banner, then what the
/// repository reports of the pull.
pub open spec fn may_pull<R: Repository>(
    repository: &R,
    applied: Result<ConsoleOutput, DefaultError>,
) -> bool {
    exists|banner: Seq<char>, pulled: Result<ConsoleOutput, DefaultError>|
        #![trigger styled_as(banner, BANNER@, GREEN@), repository.may_pull(pulled)]
        styled_as(banner, BANNER@, GREEN@) && repository.may_pull(pulled) && under_banner(
            banner,
            pulled,
            applied,
        )
}

/// Whether `applied` is what `help` gives: the big banner and the help text
/// on standard output, nothing on standard error.
pub open spec fn help_shown(applied: Result<ConsoleOutput, DefaultError>) -> bool {
    exists|banner: Seq<char>| #[trigger]
        styled_as(banner, BANNER@, GREEN@) && applied is Ok && applied->Ok_0.stdout@ == help_text(
            banner,
            crate::usage::USAGE@ + crate::PKG_VERSION@ + "\n\n"@,
        ) && applied->Ok_0.stderr@.len() == 0
}

/// Whether the texts may be the list entries of the notes, one for one.
pub open spec fn items_rendered<F: CliFormat>(
    formatter: &F,
    notes: Seq<Note>,
    items: Seq<Seq<char>>,
) -> bool {
    &&& items.len() == notes.len()
    &&& forall|i: int|
        0 <= i < notes.len() ==> formatter.may_render_item(#[trigger] notes[i], items[i])
}

/// Whether `block` may be what a list prints for the directory: its
/// heading, and the list entries of its notes, as the renderer gives them.
pub open spec fn may_list_directory<F: CliFormat>(
    formatter: &F,
    entry: RepositoryDir,
    block: Seq<char>,
) -> bool {
    exists|heading: Seq<char>, items: Seq<Seq<char>>|
        #![trigger formatter.may_render_directory(entry.name@, heading), items_rendered(formatter, entry.notes@, items)]
        {
            &&& formatter.may_render_directory(entry.name@, heading)
            &&& items_rendered(formatter, entry.notes@, items)
            &&& block == directory_block_text(entry.level as nat, heading, items)
        }
}

/// Whether the blocks may be what a list prints for the directories, one
/// for one.
pub open spec fn blocks_listed<F: CliFormat>(
    formatter: &F,
    tree: Seq<RepositoryDir>,
    blocks: Seq<Seq<char>>,
) -> bool {
    &&& blocks.len() == tree.len()
    &&& forall|i: int|
        0 <= i < tree.len() ==> may_list_directory(formatter, #[trigger] tree[i], blocks[i])
}

/// Whether `applied` may be what `list` gives: the repository loaded its
/// tree, and the blocks of its directories stand one after the other on
/// standard output.
pub open spec fn may_list<R: Repository, F: CliFormat>(
    repository: &R,
    formatter: &F,
    applied: Result<ConsoleOutput, DefaultError>,
) -> bool {
    exists|tree: Vec<RepositoryDir>, blocks: Seq<Seq<char>>|
        #![trigger repository.may_load_tree(tree), blocks_listed(formatter, tree@, blocks)]
        {
            &&& repository.may_load_tree(tree)
            &&& blocks_listed(formatter, tree@, blocks)
            &&& applied is Ok
            &&& applied->Ok_0.stdout@ == concatenated(blocks)
            &&& applied->Ok_0.stderr@.len() == 0
        }
}

/// Whether the texts may be the renderings of the matches, one for one.
pub open spec fn matches_rendered<F: CliFormat>(
    formatter: &F,
    found: Seq<SearchMatch>,
    rendered: Seq<Seq<char>>,
) -> bool {
    &&& rendered.len() == found.len()
    &&& forall|i: int|
        0 <= i < found.len() ==> formatter.may_render_match(#[trigger] found[i], rendered[i])
}

/// Whether `applied` may be what a search among the notes gives: the
/// matches that score above zero, best first, each rendered, then their
/// number.
pub open spec fn may_report_matches<F: CliFormat>(
    formatter: &F,
    notes: Seq<Note>,
    needle: Seq<char>,
    applied: Result<ConsoleOutput, DefaultError>,
) -> bool {
    exists|found: Seq<SearchMatch>, rendered: Seq<Seq<char>>|
        #![trigger match_views(found), matches_rendered(formatter, found, rendered)]
        {
            &&& match_views(found) == found_matches(note_views(notes), needle)
            &&& matches_rendered(formatter, found, rendered)
            &&& applied is Ok
            &&& applied->Ok_0.stdout@ == search_report_text(rendered, needle)
            &&& applied->Ok_0.stderr@.len() == 0
        }
}

/// Whether `applied` may be what `search` gives: the repository loaded the
/// notes; the search fails exactly where the needle does not compile, with
/// the engine's message.
pub open spec fn may_search<R: Repository, F: CliFormat>(
    repository: &R,
    formatter: &F,
    needle: Seq<char>,
    applied: Result<ConsoleOutput, DefaultError>,
) -> bool {
    exists|notes: Vec<Note>|
        #[trigger] repository.may_load_notes(notes) && match needle_refusal(needle) {
            None => may_report_matches(formatter, notes@, needle, applied),
            Some(message) => applied is Err && applied->Err_0.message@ == message
                && applied->Err_0.backtrace is None,
        }
}

/// Whether `applied` may be what carrying out the command gives.
pub open spec fn may_apply<R: Repository, F: CliFormat>(
    repository: &R,
    formatter: &F,
    command: Command,
    applied: Result<ConsoleOutput, DefaultError>,
) -> bool {
    match command {
        Command::New { path } => may_create(repository, path@, applied),
        Command::List => may_list(repository, formatter, applied),
        Command::Search { needle } => may_search(repository, formatter, needle@, applied),
        Command::Edit { id } => may_edit(repository, id, applied),
        Command::Delete { id } => may_delete(repository, id, applied),
        Command::Push => may_push(repository, applied),
        Command::Pull => may_pull(repository, applied),
        Command::Help => help_shown(applied),
    }
}

/// Carries out commands on a repository and renders what they find.
pub struct CommandHandler<'a, R: Repository, F: CliFormat> {
    repository: &'a R,
    formatter: &'a F,
}

impl<'a, R: Repository, F: CliFormat> CommandHandler<'a, R, F> {
    /// The repository that the commands are carried out on.
    pub closed spec fn repository(&self) -> &R {
        self.repository
    }

    /// The renderer of what the commands find.
    pub closed spec fn formatter(&self) -> &F {
        self.formatter
    }

    pub fn new(repository: &'a R, formatter: &'a F) -> (handler: Self)
        ensures
            handler.repository() == repository,
            handler.formatter() == formatter,
    {
        CommandHandler { repository, formatter }
    }

    /// Carries out a command. Listing and help always succeed; a search
    /// succeeds exactly where its needle compiles; none of the three writes
    /// to standard error. What the other commands give is up to the
    /// repository.
    pub fn apply_command(&self, command: Command) -> (applied: Result<ConsoleOutput, DefaultError>)
        ensures
            may_apply(self.repository(), self.formatter(), command, applied),
            match command {
                Command::List | Command::Help => applied is Ok && applied->Ok_0.stderr@.len() == 0,
                Command::Search { needle } => {
                    &&& applied is Ok <==> needle_compiles(needle@)
                    &&& applied matches Ok(out) ==> out.stderr@.len() == 0
                },
                _ => true,
            },
    {
        match command {
            Command::New { path } => self.new_note(path),
            Command::List => self.list_notes(),
            Command::Search { needle } => self.search(needle),
            Command::Edit { id } => self.edit_note(id),
            Command::Delete { id } => self.delete_note(id),
            Command::Push => self.push_repo(),
            Command::Pull => self.pull_repo(),
            Command::Help => self.help(),
        }
    }

    /// Creates a note from the template, numbered one above the number of
    /// notes, and opens it in the editor.
    fn new_note(&self, path: String) -> (applied: Result<ConsoleOutput, DefaultError>)
        ensures
            may_create(self.repository(), path@, applied),
    {
        let ghost asked = path@;
        let final_path = note_file(path);
        let notes = self.repository.load_notes();
        proof {
            assert(self.repository().may_load_notes(notes));
        }
        let count = notes.len();
        let id = match count.checked_add(1) {
            Some(id) => id,
            None => {
                return Err(DefaultError::new(TOO_MANY_NOTES.to_string()));
            },
        };
        let created = self.repository.new_note(id, final_path.as_str());
        proof {
            assert(self.repository().may_create(id, note_file_text(asked), created));
        }
        let note = match created {
            Ok(note) => note,
            Err(error) => {
                return Err(error);
            },
        };
        let edited = self.repository.edit_note(&note);
        proof {
            assert(self.repository().may_edit(note, edited));
        }
        let applied = Self::follow(edited, done_message(note.path().as_str(), "created").as_str());
        proof {
            assert(may_open_created(self.repository(), note, applied));
            assert(may_create_numbered(self.repository(), id, asked, applied));
        }
        applied
    }

    /// `report` with `message` behind what it writes to standard output.
    fn follow(report: Result<ConsoleOutput, DefaultError>, message: &str) -> (applied: Result<
        ConsoleOutput,
        DefaultError,
    >)
        ensures
            followed_by(report, message@, applied),
    {
        match report {
            Ok(mut out) => {
                out.append_stdout(message);
                Ok(out)
            },
            Err(error) => Err(error),
        }
    }

    /// `report` with `banner` and a line feed in front of what it writes to
    /// standard output.
    fn head(banner: &str, report: Result<ConsoleOutput, DefaultError>) -> (applied: Result<
        ConsoleOutput,
        DefaultError,
    >)
        ensures
            under_banner(banner@, report, applied),
    {
        match report {
            Ok(reported) => {
                let mut out = ConsoleOutput::empty();
                out.append_stdout(banner);
                out.append_stdout("\n");
                out.append(reported);
                proof {
                    assert(out.stdout@ =~= banner@ + "\n"@ + reported.stdout@);
                    assert(out.stderr@ =~= reported.stderr@);
                }
                Ok(out)
            },
            Err(error) => Err(error),
        }
    }

    /// Prints what a search finds, best match first. Fails where the needle
    /// is no regular expression.
    fn search(&self, needle: String) -> (found: Result<ConsoleOutput, DefaultError>)
        ensures
            may_search(self.repository(), self.formatter(), needle@, found),
            found is Ok <==> needle_compiles(needle@),
            found matches Ok(out) ==> out.stderr@.len() == 0,
    {
        let notes = self.repository.load_notes();
        proof {
            assert(self.repository().may_load_notes(notes));
        }
        let compiled = match Needle::new(needle.as_str()) {
            Ok(compiled) => compiled,
            Err(error) => {
                return Err(error);
            },
        };
        let matches = find_matches(&notes, &compiled);
        let mut rendered: Vec<String> = Vec::new();
        let mut i: usize = 0;
        while i < matches.len()
            invariant
                i <= matches.len(),
                rendered@.len() == i,
                forall|k: int| 0 <= k < matches@.len() ==> (#[trigger] matches@[k])@.well_formed(),
                forall|k: int|
                    0 <= k < i ==> self.formatter().may_render_match(
                        #[trigger] matches@[k],
                        rendered@[k]@,
                    ),
            decreases matches.len() - i,
        {
            rendered.push(self.formatter.search_match(&matches[i]));
            i += 1;
        }
        let found = Ok(
            ConsoleOutput::from_stdout(search_report(&rendered, needle.as_str()).as_str()),
        );
        proof {
            assert(matches_rendered(self.formatter(), matches@, views(rendered@)));
            assert(may_report_matches(self.formatter(), notes@, needle@, found));
        }
        found
    }

    /// Prints the tree of directories and notes.
    fn list_notes(&self) -> (listed: Result<ConsoleOutput, DefaultError>)
        ensures
            may_list(self.repository(), self.formatter(), listed),
            listed is Ok,
            listed->Ok_0.stderr@.len() == 0,
    {
        let mut out = ConsoleOutput::empty();
        let entries = self.repository.load_repository_tree();
        proof {
            assert(self.repository().may_load_tree(entries));
        }
        let ghost mut blocks: Seq<Seq<char>> = Seq::empty();
        let mut i: usize = 0;
        while i < entries.len()
            invariant
                i <= entries.len(),
                out.stderr@.len() == 0,
                blocks.len() == i,
                out.stdout@ == concatenated(blocks),
                forall|k: int|
                    0 <= k < i ==> may_list_directory(
                        self.formatter(),
                        #[trigger] entries@[k],
                        blocks[k],
                    ),
            decreases entries.len() - i,
        {
            let block = self.list_directory(&entries[i]);
            out.append_stdout(block.as_str());
            proof {
                let ghost before = blocks;
                blocks = blocks.push(block@);
                assert(blocks.drop_last() =~= before);
            }
            i += 1;
        }
        let listed = Ok(out);
        proof {
            assert(blocks_listed(self.formatter(), entries@, blocks));
        }
        listed
    }

    /// What a list prints for one directory.
    fn list_directory(&self, entry: &RepositoryDir) -> (block: String)
        ensures
            may_list_directory(self.formatter(), *entry, block@),
    {
        let heading = self.formatter.note_directory(entry.name.as_str());
        proof {
            assert(self.formatter().may_render_directory(entry.name@, heading@));
        }
        let mut items: Vec<String> = Vec::new();
        let mut i: usize = 0;
        while i < entry.notes.len()
            invariant
                i <= entry.notes.len(),
                items@.len() == i,
                forall|k: int|
                    0 <= k < i ==> self.formatter().may_render_item(
                        #[trigger] entry.notes@[k],
                        items@[k]@,
                    ),
            decreases entry.notes.len() - i,
        {
            items.push(self.formatter.note_list_item(&entry.notes[i]));
            i += 1;
        }
        let block = directory_block(entry.level, heading.as_str(), &items);
        proof {
            assert(items_rendered(self.formatter(), entry.notes@, views(items@)));
        }
        block
    }

    fn edit_note(&self, id: usize) -> (applied: Result<ConsoleOutput, DefaultError>)
        ensures
            may_edit(self.repository(), id, applied),
    {
        let found = self.repository.find_note_by_id(id);
        proof {
            assert(self.repository().may_find(id, found));
        }
        match found {
            Some(note) => {
                let edited = self.repository.edit_note(&note);
                proof {
                    assert(self.repository().may_edit(note, edited));
                }
                let applied = Self::follow(
                    edited,
                    done_message(note.path().as_str(), "edited").as_str(),
                );
                proof {
                    assert(may_edit_found(self.repository(), note, applied));
                }
                applied
            },
            None => Err(not_found(id)),
        }
    }

    fn delete_note(&self, id: usize) -> (applied: Result<ConsoleOutput, DefaultError>)
        ensures
            may_delete(self.repository(), id, applied),
    {
        let found = self.repository.find_note_by_id(id);
        proof {
            assert(self.repository().may_find(id, found));
        }
        match found {
            Some(note) => {
                let deleted = self.repository.delete_note(&note);
                proof {
                    assert(self.repository().may_delete(note, deleted));
                }
                let applied = Self::follow(
                    deleted,
                    done_message(note.path().as_str(), "deleted").as_str(),
                );
                proof {
                    assert(may_delete_found(self.repository(), note, applied));
                }
                applied
            },
            None => Err(not_found(id)),
        }
    }

    fn push_repo(&self) -> (applied: Result<ConsoleOutput, DefaultError>)
        ensures
            may_push(self.repository(), applied),
    {
        let banner = Banners::big();
        let pushed = self.repository.push_repo();
        proof {
            assert(self.repository().may_push(pushed));
        }
        Self::head(banner.as_str(), pushed)
    }

    fn pull_repo(&self) -> (applied: Result<ConsoleOutput, DefaultError>)
        ensures
            may_pull(self.repository(), applied),
    {
        let banner = Banners::big();
        let pulled = self.repository.pull_repo();
        proof {
            assert(self.repository().may_pull(pulled));
        }
        Self::head(banner.as_str(), pulled)
    }

    fn help(&self) -> (shown: Result<ConsoleOutput, DefaultError>)
        ensures
            help_shown(shown),
            shown is Ok,
            shown->Ok_0.stderr@.len() == 0,
    {
        let banner = Banners::big();
        Ok(ConsoleOutput::from_stdout(help_report(banner.as_str()).as_str()))
    }
}

} // verus!
