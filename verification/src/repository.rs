//! The repository of notes: which files of a directory walk are notes, which
//! identifier each note gets, and how the directories nest.
//!
//! Walking directories and reading files happens outside this crate. The walk
//! hands in what it met, as plain values, and gets back what to look at next.

use crate::config::join_path;
use crate::config::joined_path;
use crate::config::Config;
use crate::console_output::ConsoleOutput;
use crate::default_error::DefaultError;
use crate::git::Git;
use crate::note::has_content;
use crate::note::note_of;
use crate::note::Note;
use crate::note::NoteView;
use crate::shell::Shell;
use crate::text::contains;
use crate::text::ends_with;
use crate::text::from_chars;
use crate::text::has_part;
use crate::text::has_suffix;
use crate::text::option_view;
use crate::text::starts_with;
use crate::text::to_chars;
use crate::text::views;
use vstd::prelude::*;
use vstd::string::*;

verus! {

/// The ending of the files that are notes.
pub const NOTE_SUFFIX: &'static str = ".md";

/// What the repository offers to the commands.
///
/// For each method the trait names which results a call may have; a
/// repository that says nothing of its results leaves that open.
pub trait Repository {
    open spec fn may_init(&self, report: Result<ConsoleOutput, DefaultError>) -> bool {
        true
    }

    open spec fn may_create(
        &self,
        id: usize,
        path: Seq<char>,
        created: Result<Note, DefaultError>,
    ) -> bool {
        true
    }

    open spec fn may_edit(&self, note: Note, report: Result<ConsoleOutput, DefaultError>) -> bool {
        true
    }

    open spec fn may_find(&self, id: usize, found: Option<Note>) -> bool {
        true
    }

    open spec fn may_load_tree(&self, tree: Vec<RepositoryDir>) -> bool {
        true
    }

    open spec fn may_load_notes(&self, notes: Vec<Note>) -> bool {
        true
    }

    open spec fn may_delete(&self, note: Note, report: Result<ConsoleOutput, DefaultError>)
        -> bool {
        true
    }

    open spec fn may_push(&self, report: Result<ConsoleOutput, DefaultError>) -> bool {
        true
    }

    open spec fn may_pull(&self, report: Result<ConsoleOutput, DefaultError>) -> bool {
        true
    }

    /// Sets the storage directory up where it has no template yet.
    fn init(&self) -> (report: Result<ConsoleOutput, DefaultError>)
        ensures
            self.may_init(report),
    ;

    /// Creates a note from the template at `path` under the storage directory.
    fn new_note(&self, id: usize, path: &str) -> (created: Result<Note, DefaultError>)
        ensures
            self.may_create(id, path@, created),
    ;

    /// Lets the user edit a note, and records the change.
    fn edit_note(&self, note: &Note) -> (report: Result<ConsoleOutput, DefaultError>)
        ensures
            self.may_edit(*note, report),
    ;

    /// The note with the given identifier.
    fn find_note_by_id(&self, id: usize) -> (found: Option<Note>)
        ensures
            self.may_find(id, found),
    ;

    /// The directories of the repository with their notes, in walk order.
    fn load_repository_tree(&self) -> (tree: Vec<RepositoryDir>)
        ensures
            self.may_load_tree(tree),
    ;

    /// All notes, in the order of their identifiers.
    fn load_notes(&self) -> (notes: Vec<Note>)
        ensures
            self.may_load_notes(notes),
    ;

    /// Removes a note, and records the removal.
    fn delete_note(&self, note: &Note) -> (report: Result<ConsoleOutput, DefaultError>)
        ensures
            self.may_delete(*note, report),
    ;

    fn push_repo(&self) -> (report: Result<ConsoleOutput, DefaultError>)
        ensures
            self.may_push(report),
    ;

    fn pull_repo(&self) -> (report: Result<ConsoleOutput, DefaultError>)
        ensures
            self.may_pull(report),
    ;
}

/// A directory of the repository with the notes that stand directly in it.
#[derive(Debug)]
pub struct RepositoryDir {
    /// The path below the storage directory; for the storage directory
    /// itself, its own path.
    pub name: String,
    pub path: String,
    pub notes: Vec<Note>,
    /// How many directories deep below the storage directory.
    pub level: usize,
}

pub struct RepositoryDirView {
    pub name: Seq<char>,
    pub path: Seq<char>,
    pub notes: Seq<NoteView>,
    pub level: int,
}

/// The views of a sequence of notes.
pub open spec fn note_views(notes: Seq<Note>) -> Seq<NoteView> {
    Seq::new(notes.len(), |i: int| notes[i]@)
}

impl View for RepositoryDir {
    type V = RepositoryDirView;

    open spec fn view(&self) -> RepositoryDirView {
        RepositoryDirView {
            name: self.name@,
            path: self.path@,
            notes: note_views(self.notes@),
            level: self.level as int,
        }
    }
}

/// The views of a sequence of directories.
pub open spec fn dir_views(dirs: Seq<RepositoryDir>) -> Seq<RepositoryDirView> {
    Seq::new(dirs.len(), |i: int| dirs[i]@)
}

/// An entry met on a walk.
pub struct WalkEntry {
    pub path: String,
    pub is_dir: bool,
}

/// A file offered as a note, with its content where it could be read as text.
pub struct NoteFile {
    pub path: String,
    pub content: Option<String>,
}

pub struct NoteFileView {
    pub path: Seq<char>,
    pub content: Option<Seq<char>>,
}

impl View for NoteFile {
    type V = NoteFileView;

    open spec fn view(&self) -> NoteFileView {
        NoteFileView { path: self.path@, content: option_view(self.content) }
    }
}

/// The views of a sequence of files.
pub open spec fn file_views(files: Seq<NoteFile>) -> Seq<NoteFileView> {
    Seq::new(files.len(), |i: int| files[i]@)
}

/// A walked directory with the files offered as notes in it, in walk order.
pub struct DirListing {
    pub path: String,
    pub files: Vec<NoteFile>,
}

pub struct DirListingView {
    pub path: Seq<char>,
    pub files: Seq<NoteFileView>,
}

impl View for DirListing {
    type V = DirListingView;

    open spec fn view(&self) -> DirListingView {
        DirListingView { path: self.path@, files: file_views(self.files@) }
    }
}

/// The views of a sequence of listings.
pub open spec fn listing_views(listings: Seq<DirListing>) -> Seq<DirListingView> {
    Seq::new(listings.len(), |i: int| listings[i]@)
}

/// Whether a path holds one of the ignored texts.
pub open spec fn ignored(path: Seq<char>, ignored_dirs: Seq<Seq<char>>) -> bool {
    exists|i: int| 0 <= i < ignored_dirs.len() && contains(path, #[trigger] ignored_dirs[i])
}

/// Whether a walked entry is a directory of the repository.
pub open spec fn kept_directory(path: Seq<char>, is_dir: bool, ignored_dirs: Seq<Seq<char>>)
    -> bool {
    is_dir && !ignored(path, ignored_dirs)
}

/// Whether a path is offered as a note.
pub open spec fn kept_file(path: Seq<char>, ignored_dirs: Seq<Seq<char>>) -> bool {
    !ignored(path, ignored_dirs) && ends_with(path, NOTE_SUFFIX@)
}

/// The paths of the directories among the entries, in order.
pub open spec fn directories_of(
    paths: Seq<Seq<char>>,
    are_dirs: Seq<bool>,
    ignored_dirs: Seq<Seq<char>>,
) -> Seq<Seq<char>>
    decreases paths.len(),
{
    if paths.len() == 0 {
        Seq::<Seq<char>>::empty()
    } else {
        let before = directories_of(paths.drop_last(), are_dirs, ignored_dirs);
        if kept_directory(paths.last(), are_dirs[paths.len() - 1], ignored_dirs) {
            before.push(paths.last())
        } else {
            before
        }
    }
}

/// The paths offered as notes among the paths, in order.
pub open spec fn note_files_of(paths: Seq<Seq<char>>, ignored_dirs: Seq<Seq<char>>) -> Seq<
    Seq<char>,
>
    decreases paths.len(),
{
    if paths.len() == 0 {
        Seq::<Seq<char>>::empty()
    } else {
        let before = note_files_of(paths.drop_last(), ignored_dirs);
        if kept_file(paths.last(), ignored_dirs) {
            before.push(paths.last())
        } else {
            before
        }
    }
}

/// A text without the slashes it starts with.
pub open spec fn without_leading_slashes(path: Seq<char>) -> Seq<char>
    decreases path.len(),
{
    if path.len() > 0 && path[0] == '/' {
        without_leading_slashes(path.drop_first())
    } else {
        path
    }
}

/// The path of a directory below the storage directory.
pub open spec fn relative_path(storage_directory: Seq<char>, directory: Seq<char>) -> Seq<char> {
    without_leading_slashes(directory.skip(storage_directory.len() as int))
}

/// How many components a path has: the stretches between slashes that hold
/// a character.
pub open spec fn component_count(path: Seq<char>) -> nat
    decreases path.len(),
{
    if path.len() == 0 {
        0
    } else {
        let before = component_count(path.drop_last());
        if path.last() != '/' && (path.len() == 1 || path[path.len() - 2] == '/') {
            before + 1
        } else {
            before
        }
    }
}

/// The name under which a directory is listed.
pub open spec fn directory_name(storage_directory: Seq<char>, directory: Seq<char>) -> Seq<char> {
    let relative = relative_path(storage_directory, directory);
    if relative.len() == 0 {
        storage_directory
    } else {
        relative
    }
}

/// The notes among the files, the first of them numbered `counter + 1`: a
/// file is a note where it could be read and holds a non-empty line.
pub open spec fn notes_of(files: Seq<NoteFileView>, counter: int) -> Seq<NoteView>
    decreases files.len(),
{
    if files.len() == 0 {
        Seq::<NoteView>::empty()
    } else {
        let before = notes_of(files.drop_last(), counter);
        if is_note(files.last()) {
            before.push(
                note_of(
                    counter + before.len() + 1,
                    files.last().path,
                    files.last().content->0,
                ),
            )
        } else {
            before
        }
    }
}

/// How many notes the directories hold together.
pub open spec fn note_count(dirs: Seq<RepositoryDirView>) -> nat
    decreases dirs.len(),
{
    if dirs.len() == 0 {
        0
    } else {
        note_count(dirs.drop_last()) + dirs.last().notes.len()
    }
}

/// The notes of all directories, one directory after the other.
pub open spec fn all_notes(dirs: Seq<RepositoryDirView>) -> Seq<NoteView>
    decreases dirs.len(),
{
    if dirs.len() == 0 {
        Seq::<NoteView>::empty()
    } else {
        all_notes(dirs.drop_last()) + dirs.last().notes
    }
}

/// The directory that a listing stands for, its first note numbered `counter + 1`.
pub open spec fn directory_of(storage_directory: Seq<char>, listing: DirListingView, counter: int)
    -> RepositoryDirView {
    RepositoryDirView {
        name: directory_name(storage_directory, listing.path),
        path: listing.path,
        notes: notes_of(listing.files, counter),
        level: component_count(relative_path(storage_directory, listing.path)) as int,
    }
}

/// The directories that the listings stand for, in order, their notes
/// numbered from one in that order.
pub open spec fn tree_of(storage_directory: Seq<char>, listings: Seq<DirListingView>) -> Seq<
    RepositoryDirView,
>
    decreases listings.len(),
{
    if listings.len() == 0 {
        Seq::<RepositoryDirView>::empty()
    } else {
        let before = tree_of(storage_directory, listings.drop_last());
        before.push(
            directory_of(storage_directory, listings.last(), note_count(before) as int),
        )
    }
}

/// Every listing stands under the storage directory.
pub open spec fn under_storage(storage_directory: Seq<char>, listings: Seq<DirListingView>)
    -> bool {
    forall|i: int|
        0 <= i < listings.len() ==> starts_with(
            (#[trigger] listings[i]).path,
            storage_directory,
        )
}

/// How many files the listings offer together.
pub open spec fn file_count(listings: Seq<DirListingView>) -> nat
    decreases listings.len(),
{
    if listings.len() == 0 {
        0
    } else {
        file_count(listings.drop_last()) + listings.last().files.len()
    }
}

/// There are no more notes than files.
pub proof fn lemma_notes_of_len(files: Seq<NoteFileView>, counter: int)
    ensures
        notes_of(files, counter).len() <= files.len(),
    decreases files.len(),
{
    if files.len() > 0 {
        lemma_notes_of_len(files.drop_last(), counter);
    }
}

/// The first listings offer no more files than all of them.
pub proof fn lemma_file_count_grows(listings: Seq<DirListingView>, i: int)
    requires
        0 <= i <= listings.len(),
    ensures
        file_count(listings.take(i)) <= file_count(listings),
    decreases listings.len() - i,
{
    if i < listings.len() {
        lemma_file_count_grows(listings, i + 1);
        assert(listings.take(i + 1).drop_last() =~= listings.take(i));
    } else {
        assert(listings.take(i) =~= listings);
    }
}

/// A tree holds as many directories as there were listings, and no more
/// notes than the listings offer files.
pub proof fn lemma_tree_of_len(storage_directory: Seq<char>, listings: Seq<DirListingView>)
    ensures
        tree_of(storage_directory, listings).len() == listings.len(),
        note_count(tree_of(storage_directory, listings)) <= file_count(listings),
    decreases listings.len(),
{
    if listings.len() > 0 {
        let before = tree_of(storage_directory, listings.drop_last());
        lemma_tree_of_len(storage_directory, listings.drop_last());
        lemma_notes_of_len(listings.last().files, note_count(before) as int);
        assert(tree_of(storage_directory, listings).drop_last() =~= before);
    }
}

/// A tree holds the directories of its listings one for one, under their
/// paths: where the listings stand in the order of paths, so does the tree.
pub proof fn tree_follows_listings(storage_directory: Seq<char>, listings: Seq<DirListingView>)
    ensures
        tree_of(storage_directory, listings).len() == listings.len(),
        forall|i: int|
            0 <= i < listings.len() ==> (#[trigger] tree_of(storage_directory, listings)[i]).path
                == listings[i].path,
        ascending(Seq::new(listings.len(), |i: int| listings[i].path)) ==> ascending(
            Seq::new(listings.len(), |i: int| tree_of(storage_directory, listings)[i].path),
        ),
    decreases listings.len(),
{
    if listings.len() > 0 {
        let shorter = listings.drop_last();
        tree_follows_listings(storage_directory, shorter);
        let tree = tree_of(storage_directory, listings);
        assert(tree.drop_last() =~= tree_of(storage_directory, shorter));
        assert forall|i: int| 0 <= i < listings.len() implies (#[trigger] tree[i]).path
            == listings[i].path by {
            if i < shorter.len() {
                assert(tree[i] == tree_of(storage_directory, shorter)[i]);
                assert(shorter[i] == listings[i]);
            }
        }
    }
    assert(Seq::new(listings.len(), |i: int| listings[i].path) =~= Seq::new(
        listings.len(),
        |i: int| tree_of(storage_directory, listings)[i].path,
    ));
}

/// All notes of the directories together are as many as `note_count` says.
pub proof fn lemma_all_notes_len(dirs: Seq<RepositoryDirView>)
    ensures
        all_notes(dirs).len() == note_count(dirs),
    decreases dirs.len(),
{
    if dirs.len() > 0 {
        lemma_all_notes_len(dirs.drop_last());
    }
}

/// The notes of a directory are numbered one after the other from `counter + 1`.
pub proof fn lemma_notes_of_ids(files: Seq<NoteFileView>, counter: int, k: int)
    requires
        0 <= k < notes_of(files, counter).len(),
    ensures
        notes_of(files, counter)[k].id == counter + k + 1,
        notes_of(files, counter)[k].well_formed(),
    decreases files.len(),
{
    let before = notes_of(files.drop_last(), counter);
    if k < before.len() {
        lemma_notes_of_ids(files.drop_last(), counter, k);
    }
}

/// In a tree, the note at position `k` of all notes carries the identifier
/// `k + 1`: identifiers follow the walk, whatever the files hold.
pub proof fn identifiers_follow_the_walk(
    storage_directory: Seq<char>,
    listings: Seq<DirListingView>,
    k: int,
)
    requires
        0 <= k < all_notes(tree_of(storage_directory, listings)).len(),
    ensures
        all_notes(tree_of(storage_directory, listings))[k].id == k + 1,
    decreases listings.len(),
{
    let before = tree_of(storage_directory, listings.drop_last());
    let tree = tree_of(storage_directory, listings);
    assert(tree.drop_last() =~= before);
    lemma_all_notes_len(before);
    if k < all_notes(before).len() {
        identifiers_follow_the_walk(storage_directory, listings.drop_last(), k);
    } else {
        lemma_notes_of_ids(
            listings.last().files,
            note_count(before) as int,
            k - all_notes(before).len(),
        );
    }
}

/// Whether a file is a note: it could be read and holds a non-empty line.
pub open spec fn is_note(file: NoteFileView) -> bool {
    file.content matches Some(content) && has_content(content)
}

/// Whether two directories offer the same files, and the same of them are notes.
pub open spec fn same_files(first: Seq<NoteFileView>, second: Seq<NoteFileView>) -> bool {
    &&& first.len() == second.len()
    &&& forall|i: int|
        0 <= i < first.len() ==> (#[trigger] first[i]).path == second[i].path && is_note(first[i])
            == is_note(second[i])
}

/// Whether two walks met the same directories with the same files, and the
/// same of the files are notes.
pub open spec fn same_walk(first: Seq<DirListingView>, second: Seq<DirListingView>) -> bool {
    &&& first.len() == second.len()
    &&& forall|i: int|
        0 <= i < first.len() ==> (#[trigger] first[i]).path == second[i].path && same_files(
            first[i].files,
            second[i].files,
        )
}

/// Whether two sequences of notes agree in identifiers and paths.
pub open spec fn same_identifiers(first: Seq<NoteView>, second: Seq<NoteView>) -> bool {
    &&& first.len() == second.len()
    &&& forall|k: int|
        0 <= k < first.len() ==> (#[trigger] first[k]).id == second[k].id && first[k].path
            == second[k].path
}

/// Directories with the same files give notes with the same identifiers and paths.
pub proof fn lemma_notes_of_same(first: Seq<NoteFileView>, second: Seq<NoteFileView>, counter: int)
    requires
        same_files(first, second),
    ensures
        same_identifiers(notes_of(first, counter), notes_of(second, counter)),
    decreases first.len(),
{
    if first.len() > 0 {
        assert(same_files(first.drop_last(), second.drop_last())) by {
            assert forall|i: int| 0 <= i < first.drop_last().len() implies (
            #[trigger] first.drop_last()[i]).path == second.drop_last()[i].path && is_note(
                first.drop_last()[i],
            ) == is_note(second.drop_last()[i]) by {
                assert(first.drop_last()[i] == first[i]);
            }
        }
        lemma_notes_of_same(first.drop_last(), second.drop_last(), counter);
        assert(first.last() == first[first.len() - 1]);
        assert(second.last() == second[first.len() - 1]);
    }
}

/// Two walks that met the same directories and files, of which the same are
/// notes, give every note the same identifier and path: identifiers do not
/// depend on what the notes say.
pub proof fn identifiers_are_stable(
    storage_directory: Seq<char>,
    first: Seq<DirListingView>,
    second: Seq<DirListingView>,
)
    requires
        same_walk(first, second),
    ensures
        same_identifiers(
            all_notes(tree_of(storage_directory, first)),
            all_notes(tree_of(storage_directory, second)),
        ),
    decreases first.len(),
{
    if first.len() > 0 {
        let shorter_first = first.drop_last();
        let shorter_second = second.drop_last();
        assert(same_walk(shorter_first, shorter_second)) by {
            assert forall|i: int| 0 <= i < shorter_first.len() implies (
            #[trigger] shorter_first[i]).path == shorter_second[i].path && same_files(
                shorter_first[i].files,
                shorter_second[i].files,
            ) by {
                assert(shorter_first[i] == first[i]);
            }
        }
        identifiers_are_stable(storage_directory, shorter_first, shorter_second);
        let before_first = tree_of(storage_directory, shorter_first);
        let before_second = tree_of(storage_directory, shorter_second);
        assert(tree_of(storage_directory, first).drop_last() =~= before_first);
        assert(tree_of(storage_directory, second).drop_last() =~= before_second);
        lemma_all_notes_len(before_first);
        lemma_all_notes_len(before_second);
        assert(first.last() == first[first.len() - 1]);
        assert(second.last() == second[first.len() - 1]);
        lemma_notes_of_same(
            first.last().files,
            second.last().files,
            note_count(before_first) as int,
        );
    }
}

/// Behind a path that ends in a slash, a path adds its own components.
pub proof fn lemma_component_count_behind_slash(front: Seq<char>, below: Seq<char>)
    requires
        front.len() > 0,
        front.last() == '/',
    ensures
        component_count(front + below) == component_count(front) + component_count(below),
    decreases below.len(),
{
    let path = front + below;
    if below.len() == 0 {
        assert(path =~= front);
    } else {
        lemma_component_count_behind_slash(front, below.drop_last());
        assert(path.drop_last() =~= front + below.drop_last());
        assert(path.last() == below.last());
        if below.len() == 1 {
            assert(path[path.len() - 2] == front.last());
        } else {
            assert(path[path.len() - 2] == below[below.len() - 2]);
        }
    }
}

/// For a directory that stands `below` the storage directory, the path below
/// the storage directory is `below`, and its number of components is the
/// number of components of the directory less that of the storage directory.
pub proof fn level_is_component_difference(storage_directory: Seq<char>, below: Seq<char>)
    requires
        storage_directory.len() > 0,
        storage_directory.last() != '/',
        below.len() == 0 || below[0] != '/',
    ensures
        relative_path(storage_directory, storage_directory.push('/') + below) == below,
        component_count(relative_path(storage_directory, storage_directory.push('/') + below))
            == component_count(storage_directory.push('/') + below) - component_count(
            storage_directory,
        ),
        relative_path(storage_directory, storage_directory).len() == 0,
        directory_name(storage_directory, storage_directory) == storage_directory,
{
    let front = storage_directory.push('/');
    let directory = front + below;
    let behind = directory.skip(storage_directory.len() as int);
    assert(behind =~= seq!['/'] + below);
    assert(behind.drop_first() =~= below);
    assert(without_leading_slashes(behind) == without_leading_slashes(below));
    assert(without_leading_slashes(below) == below);
    lemma_component_count_behind_slash(front, below);
    assert(front.drop_last() =~= storage_directory);
    assert(component_count(front) == component_count(storage_directory));
    assert(storage_directory.skip(storage_directory.len() as int) =~= Seq::<char>::empty());
}

/// Whether `first` stands before `second` in the order of paths: character
/// by character by the code of the characters, a path before every longer
/// path that starts with it. For texts in UTF-8 this is the order of their
/// bytes.
pub open spec fn precedes(first: Seq<char>, second: Seq<char>) -> bool
    decreases first.len(),
{
    if second.len() == 0 {
        false
    } else if first.len() == 0 {
        true
    } else if first[0] != second[0] {
        (first[0] as u32) < (second[0] as u32)
    } else {
        precedes(first.drop_first(), second.drop_first())
    }
}

/// Whether no path stands before one that is earlier in the sequence.
pub open spec fn ascending(paths: Seq<Seq<char>>) -> bool {
    forall|i: int, j: int| 0 <= i < j < paths.len() ==> !precedes(paths[j], paths[i])
}

/// `ordered` with `path` put behind all paths that do not stand behind it.
pub open spec fn ordered_insert(ordered: Seq<Seq<char>>, path: Seq<char>) -> Seq<Seq<char>>
    decreases ordered.len(),
{
    if ordered.len() == 0 {
        seq![path]
    } else if !precedes(path, ordered.last()) {
        ordered.push(path)
    } else {
        ordered_insert(ordered.drop_last(), path).push(ordered.last())
    }
}

/// The paths in the order of paths; equal paths keep their order.
pub open spec fn ordered(paths: Seq<Seq<char>>) -> Seq<Seq<char>>
    decreases paths.len(),
{
    if paths.len() == 0 {
        Seq::<Seq<char>>::empty()
    } else {
        ordered_insert(ordered(paths.drop_last()), paths.last())
    }
}

/// Of two paths at most one stands before the other.
pub proof fn lemma_precedes_one_way(first: Seq<char>, second: Seq<char>)
    requires
        precedes(first, second),
    ensures
        !precedes(second, first),
    decreases first.len(),
{
    if first.len() > 0 && second.len() > 0 && first[0] == second[0] {
        lemma_precedes_one_way(first.drop_first(), second.drop_first());
    }
}

/// Where the third path does not stand before the second, nor the second
/// before the first, the third does not stand before the first.
pub proof fn lemma_not_precedes_chain(first: Seq<char>, second: Seq<char>, third: Seq<char>)
    requires
        !precedes(second, first),
        !precedes(third, second),
    ensures
        !precedes(third, first),
    decreases first.len(),
{
    if first.len() > 0 && second.len() > 0 && third.len() > 0 {
        vstd::utf8::char_u32_cast(first[0], first[0] as u32);
        vstd::utf8::char_u32_cast(second[0], second[0] as u32);
        vstd::utf8::char_u32_cast(third[0], third[0] as u32);
        if first[0] == second[0] && second[0] == third[0] {
            lemma_not_precedes_chain(
                first.drop_first(),
                second.drop_first(),
                third.drop_first(),
            );
        }
    }
}

/// Putting a path into ascending paths keeps them ascending and adds the
/// path, and nothing else, to what they hold.
pub proof fn lemma_ordered_insert(ordered: Seq<Seq<char>>, path: Seq<char>)
    requires
        ascending(ordered),
    ensures
        ascending(ordered_insert(ordered, path)),
        ordered_insert(ordered, path).len() == ordered.len() + 1,
        ordered_insert(ordered, path).to_multiset() == ordered.to_multiset().insert(path),
        forall|i: int|
            0 <= i < ordered_insert(ordered, path).len() ==> (#[trigger] ordered_insert(
                ordered,
                path,
            )[i]) == path || exists|j: int|
                0 <= j < ordered.len() && ordered[j] == ordered_insert(ordered, path)[i],
    decreases ordered.len(),
{
    let result = ordered_insert(ordered, path);
    if ordered.len() == 0 {
        assert(result =~= ordered.push(path));
        vstd::seq_lib::to_multiset_build(ordered, path);
    } else if !precedes(path, ordered.last()) {
        vstd::seq_lib::to_multiset_build(ordered, path);
        assert forall|i: int| 0 <= i < result.len() implies (#[trigger] result[i]) == path
            || exists|j: int| 0 <= j < ordered.len() && ordered[j] == result[i] by {
            if i < ordered.len() {
                assert(ordered[i] == result[i]);
            }
        }
        assert forall|i: int, j: int| 0 <= i < j < result.len() implies !precedes(
            result[j],
            result[i],
        ) by {
            if j == ordered.len() {
                if i < ordered.len() - 1 {
                    lemma_not_precedes_chain(ordered[i], ordered.last(), path);
                }
            }
        }
    } else {
        let shorter = ordered.drop_last();
        let inner = ordered_insert(shorter, path);
        assert(ascending(shorter)) by {
            assert forall|i: int, j: int| 0 <= i < j < shorter.len() implies !precedes(
                shorter[j],
                shorter[i],
            ) by {
                assert(shorter[i] == ordered[i] && shorter[j] == ordered[j]);
            }
        }
        lemma_ordered_insert(shorter, path);
        vstd::seq_lib::to_multiset_build(inner, ordered.last());
        vstd::seq_lib::to_multiset_build(shorter, ordered.last());
        assert(shorter.push(ordered.last()) =~= ordered);
        assert(result.to_multiset() =~= ordered.to_multiset().insert(path));
        assert forall|i: int| 0 <= i < result.len() implies (#[trigger] result[i]) == path
            || exists|j: int| 0 <= j < ordered.len() && ordered[j] == result[i] by {
            if i < inner.len() {
                assert(result[i] == inner[i]);
                if inner[i] != path {
                    let j = choose|j: int| 0 <= j < shorter.len() && shorter[j] == inner[i];
                    assert(ordered[j] == result[i]);
                }
            } else {
                assert(ordered[ordered.len() - 1] == result[i]);
            }
        }
        assert forall|i: int, j: int| 0 <= i < j < result.len() implies !precedes(
            result[j],
            result[i],
        ) by {
            if j < inner.len() {
                assert(result[i] == inner[i] && result[j] == inner[j]);
            } else {
                assert(result[i] == inner[i]);
                if inner[i] != path {
                    let k = choose|k: int| 0 <= k < shorter.len() && shorter[k] == inner[i];
                    assert(!precedes(ordered[ordered.len() - 1], ordered[k]));
                } else {
                    lemma_precedes_one_way(path, ordered.last());
                }
            }
        }
    }
}

/// The paths put in order stand ascending, and are the same paths, each as
/// often as before.
pub proof fn ordering_sorts(paths: Seq<Seq<char>>)
    ensures
        ascending(ordered(paths)),
        ordered(paths).len() == paths.len(),
        ordered(paths).to_multiset() == paths.to_multiset(),
    decreases paths.len(),
{
    if paths.len() > 0 {
        ordering_sorts(paths.drop_last());
        lemma_ordered_insert(ordered(paths.drop_last()), paths.last());
        vstd::seq_lib::to_multiset_build(paths.drop_last(), paths.last());
        assert(paths.drop_last().push(paths.last()) =~= paths);
    } else {
        assert(ordered(paths) =~= paths);
    }
}

/// Whether `first` stands before `second` in the order of paths.
pub fn chars_precede(first: &Vec<char>, second: &Vec<char>) -> (before: bool)
    ensures
        before == precedes(first@, second@),
{
    let mut i: usize = 0;
    proof {
        assert(first@.skip(0) =~= first@);
        assert(second@.skip(0) =~= second@);
    }
    while i < first.len() && i < second.len()
        invariant
            i <= first.len(),
            i <= second.len(),
            precedes(first@, second@) == precedes(first@.skip(i as int), second@.skip(i as int)),
        decreases first.len() - i,
    {
        proof {
            assert(first@.skip(i as int)[0] == first@[i as int]);
            assert(second@.skip(i as int)[0] == second@[i as int]);
            assert(first@.skip(i as int).drop_first() =~= first@.skip(i + 1));
            assert(second@.skip(i as int).drop_first() =~= second@.skip(i + 1));
        }
        if first[i] != second[i] {
            return (first[i] as u32) < (second[i] as u32);
        }
        i += 1;
    }
    proof {
        assert(first@.skip(i as int).len() == first@.len() - i);
        assert(second@.skip(i as int).len() == second@.len() - i);
    }
    i < second.len()
}

/// The paths in the order of paths; equal paths keep their order.
pub fn sort_paths(paths: Vec<String>) -> (sorted: Vec<String>)
    ensures
        views(sorted@) == ordered(views(paths@)),
        ascending(views(sorted@)),
        views(sorted@).to_multiset() == views(paths@).to_multiset(),
{
    let mut sorted: Vec<String> = Vec::new();
    let mut keys: Vec<Vec<char>> = Vec::new();
    let ghost all = views(paths@);
    proof {
        assert(views(sorted@) =~= ordered(all.take(0)));
    }
    for path in it: paths.into_iter()
        invariant
            it.seq() == paths@,
            all == views(paths@),
            views(sorted@) == ordered(all.take(it.index())),
            keys@.len() == sorted@.len(),
            forall|k: int| 0 <= k < keys@.len() ==> (#[trigger] keys@[k])@ == sorted@[k]@,
    {
        proof {
            let next = all.take(it.index() + 1);
            assert(next.drop_last() =~= all.take(it.index()));
            assert(next.last() == path@);
        }
        let key = to_chars(path.as_str());
        let ghost before = views(sorted@);
        let mut at: usize = sorted.len();
        proof {
            assert(before.take(at as int) =~= before);
            assert(before.skip(at as int) =~= Seq::<Seq<char>>::empty());
            assert(ordered_insert(before.take(at as int), path@) + before.skip(at as int)
                =~= ordered_insert(before, path@));
        }
        while at > 0 && chars_precede(&key, &keys[at - 1])
            invariant
                at <= sorted@.len(),
                before == views(sorted@),
                key@ == path@,
                keys@.len() == sorted@.len(),
                forall|k: int| 0 <= k < keys@.len() ==> (#[trigger] keys@[k])@ == sorted@[k]@,
                ordered_insert(before.take(at as int), path@) + before.skip(at as int)
                    == ordered_insert(before, path@),
            decreases at,
        {
            proof {
                let front = before.take(at as int);
                assert(front.last() == sorted@[at - 1]@);
                assert(front.drop_last() =~= before.take(at - 1));
                assert(ordered_insert(front, path@) == ordered_insert(
                    before.take(at - 1),
                    path@,
                ).push(front.last()));
                assert(ordered_insert(before.take(at - 1), path@).push(front.last())
                    + before.skip(at as int) =~= ordered_insert(before.take(at - 1), path@)
                    + before.skip(at - 1));
            }
            at -= 1;
        }
        proof {
            let front = before.take(at as int);
            if at > 0 {
                assert(front.last() == sorted@[at - 1]@);
            }
            assert(ordered_insert(front, path@) == front.push(path@));
        }
        sorted.insert(at, path);
        keys.insert(at, key);
        proof {
            assert(views(sorted@) =~= before.take(at as int).push(path@) + before.skip(
                at as int,
            ));
        }
    }
    proof {
        assert(all.take(paths@.len() as int) =~= all);
        ordering_sorts(all);
    }
    sorted
}

/// Whether a path holds one of the ignored texts.
pub fn is_ignored(path: &str, ignored_dirs: &Vec<String>) -> (found: bool)
    ensures
        found == ignored(path@, views(ignored_dirs@)),
{
    let mut i: usize = 0;
    while i < ignored_dirs.len()
        invariant
            i <= ignored_dirs.len(),
            forall|j: int| 0 <= j < i ==> !contains(path@, #[trigger] views(ignored_dirs@)[j]),
        decreases ignored_dirs.len() - i,
    {
        if has_part(path, ignored_dirs[i].as_str()) {
            proof {
                assert(contains(path@, views(ignored_dirs@)[i as int]));
            }
            return true;
        }
        i += 1;
    }
    false
}

/// The paths of the walked entries, and which of them are directories.
pub open spec fn entry_paths(entries: Seq<WalkEntry>) -> Seq<Seq<char>> {
    Seq::new(entries.len(), |i: int| entries[i].path@)
}

pub open spec fn entry_kinds(entries: Seq<WalkEntry>) -> Seq<bool> {
    Seq::new(entries.len(), |i: int| entries[i].is_dir)
}

/// The directories of the repository among the entries of a walk: the
/// entries that are directories and are not ignored, in walk order.
pub fn select_directories(entries: &Vec<WalkEntry>, ignored_dirs: &Vec<String>) -> (kept: Vec<
    String,
>)
    ensures
        views(kept@) == directories_of(
            entry_paths(entries@),
            entry_kinds(entries@),
            views(ignored_dirs@),
        ),
{
    let mut kept: Vec<String> = Vec::new();
    let mut i: usize = 0;
    let ghost paths = entry_paths(entries@);
    let ghost kinds = entry_kinds(entries@);
    proof {
        assert(paths.take(0) =~= Seq::<Seq<char>>::empty());
        assert(views(kept@) =~= directories_of(paths.take(0), kinds, views(ignored_dirs@)));
    }
    while i < entries.len()
        invariant
            i <= entries.len(),
            paths == entry_paths(entries@),
            kinds == entry_kinds(entries@),
            views(kept@) == directories_of(paths.take(i as int), kinds, views(ignored_dirs@)),
        decreases entries.len() - i,
    {
        proof {
            let next = paths.take(i + 1);
            assert(next.drop_last() =~= paths.take(i as int));
            assert(next.last() == entries@[i as int].path@);
        }
        if entries[i].is_dir && !is_ignored(entries[i].path.as_str(), ignored_dirs) {
            let ghost before = kept@;
            kept.push(entries[i].path.clone());
            proof {
                assert(views(kept@) =~= views(before).push(entries@[i as int].path@));
            }
        }
        i += 1;
    }
    proof {
        assert(paths.take(entries.len() as int) =~= paths);
    }
    kept
}

/// The files offered as notes among the entries of one directory: those
/// that are not ignored and end in `.md`, in walk order.
pub fn select_note_files(paths: &Vec<String>, ignored_dirs: &Vec<String>) -> (kept: Vec<String>)
    ensures
        views(kept@) == note_files_of(views(paths@), views(ignored_dirs@)),
{
    let mut kept: Vec<String> = Vec::new();
    let mut i: usize = 0;
    proof {
        assert(views(paths@).take(0) =~= Seq::<Seq<char>>::empty());
        assert(views(kept@) =~= note_files_of(views(paths@).take(0), views(ignored_dirs@)));
    }
    while i < paths.len()
        invariant
            i <= paths.len(),
            views(kept@) == note_files_of(views(paths@).take(i as int), views(ignored_dirs@)),
        decreases paths.len() - i,
    {
        proof {
            let next = views(paths@).take(i + 1);
            assert(next.drop_last() =~= views(paths@).take(i as int));
            assert(next.last() == paths@[i as int]@);
        }
        if !is_ignored(paths[i].as_str(), ignored_dirs) && has_suffix(
            paths[i].as_str(),
            NOTE_SUFFIX,
        ) {
            let ghost before = kept@;
            kept.push(paths[i].clone());
            proof {
                assert(views(kept@) =~= views(before).push(paths@[i as int]@));
            }
        }
        i += 1;
    }
    proof {
        assert(views(paths@).take(paths.len() as int) =~= views(paths@));
    }
    kept
}

/// The path of a directory below the storage directory.
pub fn relative(storage_directory: &str, directory: &str) -> (path: String)
    requires
        starts_with(directory@, storage_directory@),
    ensures
        path@ == relative_path(storage_directory@, directory@),
{
    let root = to_chars(storage_directory);
    let chars = to_chars(directory);
    let mut from: usize = root.len();
    proof {
        assert(chars@.skip(from as int).len() == chars@.len() - from);
    }
    while from < chars.len() && chars[from] == '/'
        invariant
            root.len() <= from <= chars.len(),
            without_leading_slashes(chars@.skip(from as int)) == without_leading_slashes(
                chars@.skip(root.len() as int),
            ),
        decreases chars.len() - from,
    {
        proof {
            assert(chars@.skip(from as int).drop_first() =~= chars@.skip(from + 1));
        }
        from += 1;
    }
    proof {
        assert(chars@.subrange(from as int, chars.len() as int) =~= chars@.skip(from as int));
    }
    from_chars(&chars, from, chars.len())
}

/// How many components a path has.
pub fn count_components(path: &str) -> (count: usize)
    ensures
        count == component_count(path@),
{
    let chars = to_chars(path);
    let mut count: usize = 0;
    let mut i: usize = 0;
    proof {
        assert(chars@.take(0) =~= Seq::<char>::empty());
    }
    while i < chars.len()
        invariant
            i <= chars.len(),
            count <= i,
            count == component_count(chars@.take(i as int)),
        decreases chars.len() - i,
    {
        proof {
            let next = chars@.take(i + 1);
            assert(next.drop_last() =~= chars@.take(i as int));
        }
        if chars[i] != '/' && (i == 0 || chars[i - 1] == '/') {
            count += 1;
        }
        i += 1;
    }
    proof {
        assert(chars@.take(chars.len() as int) =~= chars@);
    }
    count
}

/// The notes among the files of one directory, numbered from `counter + 1`.
pub fn parse_notes(files: &Vec<NoteFile>, counter: usize) -> (notes: Vec<Note>)
    requires
        counter + files@.len() <= usize::MAX,
    ensures
        note_views(notes@) == notes_of(file_views(files@), counter as int),
{
    let mut notes: Vec<Note> = Vec::new();
    let mut i: usize = 0;
    let ghost offered = file_views(files@);
    proof {
        assert(offered.take(0) =~= Seq::<NoteFileView>::empty());
        assert(note_views(notes@) =~= notes_of(offered.take(0), counter as int));
    }
    while i < files.len()
        invariant
            i <= files.len(),
            counter + files@.len() <= usize::MAX,
            offered == file_views(files@),
            notes@.len() <= i,
            note_views(notes@) == notes_of(offered.take(i as int), counter as int),
        decreases files.len() - i,
    {
        proof {
            let next = offered.take(i + 1);
            assert(next.drop_last() =~= offered.take(i as int));
            assert(next.last() == files@[i as int]@);
        }
        if let Some(content) = &files[i].content {
            let id = counter + notes.len() + 1;
            if let Ok(note) = Note::from(id, files[i].path.clone(), content.clone()) {
                let ghost before = notes@;
                notes.push(note);
                proof {
                    assert(note_views(notes@) =~= note_views(before).push(note@));
                }
            }
        }
        i += 1;
    }
    proof {
        assert(offered.take(files.len() as int) =~= offered);
    }
    notes
}

/// The directories that the listings of a walk stand for, in walk order,
/// with their notes numbered from one.
pub fn build_tree(storage_directory: &str, listings: &Vec<DirListing>) -> (tree: Vec<
    RepositoryDir,
>)
    requires
        under_storage(storage_directory@, listing_views(listings@)),
        file_count(listing_views(listings@)) <= usize::MAX,
    ensures
        dir_views(tree@) == tree_of(storage_directory@, listing_views(listings@)),
{
    let mut tree: Vec<RepositoryDir> = Vec::new();
    let mut counter: usize = 0;
    let mut i: usize = 0;
    let ghost walked = listing_views(listings@);
    proof {
        assert(walked.take(0) =~= Seq::<DirListingView>::empty());
        assert(dir_views(tree@) =~= tree_of(storage_directory@, walked.take(0)));
    }
    while i < listings.len()
        invariant
            i <= listings.len(),
            walked == listing_views(listings@),
            under_storage(storage_directory@, walked),
            file_count(walked) <= usize::MAX,
            dir_views(tree@) == tree_of(storage_directory@, walked.take(i as int)),
            counter == note_count(dir_views(tree@)),
        decreases listings.len() - i,
    {
        let listing = &listings[i];
        proof {
            let next = walked.take(i + 1);
            assert(next.drop_last() =~= walked.take(i as int));
            assert(next.last() == listing@);
            assert(walked[i as int] == listing@);
            lemma_tree_of_len(storage_directory@, walked.take(i as int));
            lemma_file_count_grows(walked, i + 1);
        }
        let notes = parse_notes(&listing.files, counter);
        let below = relative(storage_directory, listing.path.as_str());
        let level = count_components(below.as_str());
        let name = if below.as_str().is_empty() {
            storage_directory.to_string()
        } else {
            below
        };
        proof {
            lemma_notes_of_len(listing@.files, counter as int);
        }
        let found = notes.len();
        let dir = RepositoryDir { name, path: listing.path.clone(), notes, level };
        let ghost before = tree@;
        tree.push(dir);
        proof {
            assert(dir_views(tree@) =~= dir_views(before).push(dir@));
            assert(dir_views(tree@).drop_last() =~= dir_views(before));
        }
        counter += found;
        i += 1;
    }
    proof {
        assert(walked.take(listings.len() as int) =~= walked);
    }
    tree
}

/// All notes of a tree, one directory after the other.
pub fn collect_notes(tree: &Vec<RepositoryDir>) -> (notes: Vec<&Note>)
    ensures
        notes@.len() == all_notes(dir_views(tree@)).len(),
        forall|k: int| 0 <= k < notes@.len() ==> (#[trigger] notes@[k])@ == all_notes(
            dir_views(tree@),
        )[k],
{
    let mut notes: Vec<&Note> = Vec::new();
    let mut i: usize = 0;
    let ghost dirs = dir_views(tree@);
    proof {
        assert(dirs.take(0) =~= Seq::<RepositoryDirView>::empty());
    }
    while i < tree.len()
        invariant
            i <= tree.len(),
            dirs == dir_views(tree@),
            notes@.len() == all_notes(dirs.take(i as int)).len(),
            forall|k: int| 0 <= k < notes@.len() ==> (#[trigger] notes@[k])@ == all_notes(
                dirs.take(i as int),
            )[k],
        decreases tree.len() - i,
    {
        let ghost done = all_notes(dirs.take(i as int));
        proof {
            let next = dirs.take(i + 1);
            assert(next.drop_last() =~= dirs.take(i as int));
            assert(next.last() == tree@[i as int]@);
        }
        let mut j: usize = 0;
        while j < tree[i].notes.len()
            invariant
                i < tree.len(),
                j <= tree@[i as int].notes@.len(),
                notes@.len() == done.len() + j,
                forall|k: int| 0 <= k < done.len() ==> (#[trigger] notes@[k])@ == done[k],
                forall|k: int|
                    0 <= k < j ==> (#[trigger] notes@[done.len() + k])@ == tree@[i as int].notes@[k]@,
            decreases tree@[i as int].notes@.len() - j,
        {
            notes.push(&tree[i].notes[j]);
            j += 1;
        }
        proof {
            let here = tree@[i as int]@.notes;
            let next = all_notes(dirs.take(i + 1));
            assert(next == done + here);
            assert forall|k: int| 0 <= k < notes@.len() implies (#[trigger] notes@[k])@
                == next[k] by {
                if k >= done.len() {
                    assert(notes@[done.len() + (k - done.len())]@ == here[k - done.len()]);
                }
            }
        }
        i += 1;
    }
    proof {
        assert(dirs.take(tree.len() as int) =~= dirs);
    }
    notes
}

/// The note with the given identifier among the notes in walk order: the
/// note at position `id - 1`, where there is one.
pub fn find_note_by_id<'a>(notes: &'a Vec<Note>, id: usize) -> (found: Option<&'a Note>)
    ensures
        match found {
            Some(note) => 1 <= id <= notes@.len() && *note == notes@[id - 1],
            None => id == 0 || id > notes@.len(),
        },
{
    if id >= 1 && id - 1 < notes.len() {
        Some(&notes[id - 1])
    } else {
        None
    }
}

/// The content of the template of a fresh repository.
pub const SEED_TEMPLATE: &'static str = "# Note template\n\nHere we go !\n\n";

/// The message of the commit that records the template of a fresh repository.
pub const SEED_MESSAGE: &'static str = "Create note template";

/// The name of a file: what stands behind the last slash of its path.
pub open spec fn base_name_text(path: Seq<char>) -> Seq<char>
    decreases path.len(),
{
    if path.len() == 0 || path.last() == '/' {
        Seq::<char>::empty()
    } else {
        base_name_text(path.drop_last()).push(path.last())
    }
}

/// The command that opens a note in the user's editor.
pub open spec fn edit_command_text(path: Seq<char>) -> Seq<char> {
    "$EDITOR "@ + path
}

/// The message of the commit that records an edited note.
pub open spec fn update_message_text(path: Seq<char>) -> Seq<char> {
    "Update note "@ + base_name_text(path)
}

/// The message of the commit that records a removed note.
pub open spec fn delete_message_text(path: Seq<char>) -> Seq<char> {
    "Delete note "@ + base_name_text(path)
}

/// The message for a note that cannot be created because its file exists.
pub open spec fn already_exists_text(path: Seq<char>) -> Seq<char> {
    "Already exists: "@ + path
}

/// The name of a file: what stands behind the last slash of its path.
pub fn base_name(path: &str) -> (name: String)
    ensures
        name@ == base_name_text(path@),
{
    let chars = to_chars(path);
    let mut start: usize = 0;
    let mut i: usize = 0;
    proof {
        assert(chars@.take(0) =~= Seq::<char>::empty());
        assert(chars@.subrange(0, 0) =~= Seq::<char>::empty());
    }
    while i < chars.len()
        invariant
            start <= i <= chars.len(),
            base_name_text(chars@.take(i as int)) == chars@.subrange(start as int, i as int),
        decreases chars.len() - i,
    {
        proof {
            let next = chars@.take(i + 1);
            assert(next.drop_last() =~= chars@.take(i as int));
            assert(next.last() == chars@[i as int]);
        }
        if chars[i] == '/' {
            start = i + 1;
            proof {
                assert(chars@.subrange(start as int, i + 1) =~= Seq::<char>::empty());
            }
        } else {
            proof {
                assert(chars@.subrange(start as int, i + 1) =~= chars@.subrange(
                    start as int,
                    i as int,
                ).push(chars@[i as int]));
            }
        }
        i += 1;
    }
    proof {
        assert(chars@.take(chars.len() as int) =~= chars@);
    }
    from_chars(&chars, start, chars.len())
}

/// The command that opens a note in the user's editor.
pub fn edit_command(path: &str) -> (command: String)
    ensures
        command@ == edit_command_text(path@),
{
    let mut command = "$EDITOR ".to_string();
    command.append(path);
    command
}

/// The message of the commit that records an edited note.
pub fn update_message(path: &str) -> (message: String)
    ensures
        message@ == update_message_text(path@),
{
    let mut message = "Update note ".to_string();
    message.append(base_name(path).as_str());
    message
}

/// The message of the commit that records a removed note.
pub fn delete_message(path: &str) -> (message: String)
    ensures
        message@ == delete_message_text(path@),
{
    let mut message = "Delete note ".to_string();
    message.append(base_name(path).as_str());
    message
}

/// The error for a note that cannot be created because its file exists.
pub fn already_exists(path: &str) -> (error: DefaultError)
    ensures
        error.message@ == already_exists_text(path@),
        error.backtrace is None,
{
    let mut message = "Already exists: ".to_string();
    message.append(path);
    DefaultError::new(message)
}

/// Whether `report` is what editing a note reports, once the editor has
/// closed: what the commit wrote where the note was changed, nothing where
/// it was not.
pub open spec fn edit_reported_as(
    committed: Option<Result<ConsoleOutput, DefaultError>>,
    report: Result<ConsoleOutput, DefaultError>,
) -> bool {
    match committed {
        Some(Ok(output)) => report is Ok && report->Ok_0.stdout@ == output.stdout@
            && report->Ok_0.stderr@ == output.stderr@,
        Some(Err(error)) => report == Err::<ConsoleOutput, DefaultError>(error),
        None => report is Ok && report->Ok_0.stdout@.len() == 0 && report->Ok_0.stderr@.len() == 0,
    }
}

/// What editing a note reports, once the editor has closed: what the commit
/// wrote where the note was changed, nothing where it was not.
pub fn edit_report(committed: Option<Result<ConsoleOutput, DefaultError>>) -> (report: Result<
    ConsoleOutput,
    DefaultError,
>)
    ensures
        edit_reported_as(committed, report),
{
    let mut out = ConsoleOutput::empty();
    match committed {
        Some(Ok(output)) => {
            out.append(output);
            proof {
                assert(out.stdout@ =~= output.stdout@);
                assert(out.stderr@ =~= output.stderr@);
            }
            Ok(out)
        },
        Some(Err(error)) => Err(error),
        None => Ok(out),
    }
}

/// The part of the repository that needs no access to files: it knows where
/// the notes are kept and what is ignored, and drives the editor and version
/// control.
pub struct RepositoryImpl<'a, S: Shell, G: Git> {
    config: &'a Config,
    shell: &'a S,
    git: &'a G,
    ignored_dirs: Vec<String>,
}

impl<'a, S: Shell, G: Git> RepositoryImpl<'a, S, G> {
    /// What is ignored on a walk: paths that hold one of these texts.
    pub open spec fn default_ignored() -> Seq<Seq<char>> {
        seq![".git"@, ".idea"@]
    }

    pub closed spec fn ignored_dirs(&self) -> Seq<Seq<char>> {
        views(self.ignored_dirs@)
    }

    pub closed spec fn storage_directory(&self) -> Seq<char> {
        self.config.storage_directory@
    }

    /// The shell that the editor is run through.
    pub closed spec fn shell(&self) -> &S {
        self.shell
    }

    /// The version control that records changes.
    pub closed spec fn git(&self) -> &G {
        self.git
    }

    /// Whether `report` may be what committing an edited note reports.
    pub open spec fn may_record_edit(
        &self,
        note: Note,
        report: Result<ConsoleOutput, DefaultError>,
    ) -> bool {
        exists|committed: Result<ConsoleOutput, DefaultError>|
            #[trigger] self.git().may_commit(note, update_message_text(note@.path), committed)
                && edit_reported_as(Some(committed), report)
    }

    /// Whether `report` may be what is reported once the editor has closed:
    /// version control is asked whether the note has changed, and commits
    /// it where it has.
    pub open spec fn may_close_edit(
        &self,
        note: Note,
        report: Result<ConsoleOutput, DefaultError>,
    ) -> bool {
        exists|changed: bool|
            #[trigger] self.git().may_have_changed(note, changed) && if changed {
                self.may_record_edit(note, report)
            } else {
                edit_reported_as(None, report)
            }
    }

    /// Whether `report` may be what editing a note reports: the shell opened
    /// the note in the editor on the terminal; where that failed, the failure
    /// is reported.
    pub open spec fn may_edit(&self, note: Note, report: Result<ConsoleOutput, DefaultError>)
        -> bool {
        exists|opened: Result<crate::shell::CommandOutput, DefaultError>|
            #[trigger] self.shell().may_execute_interactive_in_repo(
                edit_command_text(note@.path),
                opened,
            ) && match opened {
                Ok(_) => self.may_close_edit(note, report),
                Err(error) => report == Err::<ConsoleOutput, DefaultError>(error),
            }
    }

    pub fn new(config: &'a Config, shell: &'a S, git: &'a G) -> (repository: Self)
        ensures
            repository.ignored_dirs() == Self::default_ignored(),
            repository.storage_directory() == config.storage_directory@,
            repository.shell() == shell,
            repository.git() == git,
    {
        let mut ignored_dirs: Vec<String> = Vec::new();
        ignored_dirs.push(".git".to_string());
        ignored_dirs.push(".idea".to_string());
        proof {
            assert(views(ignored_dirs@) =~= Self::default_ignored());
        }
        RepositoryImpl { config, shell, git, ignored_dirs }
    }

    /// The directories of the repository among the entries of a walk, in the
    /// order of their paths.
    pub fn directories(&self, entries: &Vec<WalkEntry>) -> (kept: Vec<String>)
        ensures
            views(kept@) == ordered(
                directories_of(entry_paths(entries@), entry_kinds(entries@), self.ignored_dirs()),
            ),
            ascending(views(kept@)),
            views(kept@).to_multiset() == directories_of(
                entry_paths(entries@),
                entry_kinds(entries@),
                self.ignored_dirs(),
            ).to_multiset(),
    {
        sort_paths(select_directories(entries, &self.ignored_dirs))
    }

    /// The files offered as notes among the entries of one directory, in the
    /// order of their paths.
    pub fn note_files(&self, paths: &Vec<String>) -> (kept: Vec<String>)
        ensures
            views(kept@) == ordered(note_files_of(views(paths@), self.ignored_dirs())),
            ascending(views(kept@)),
            views(kept@).to_multiset() == note_files_of(
                views(paths@),
                self.ignored_dirs(),
            ).to_multiset(),
    {
        sort_paths(select_note_files(paths, &self.ignored_dirs))
    }

    /// The directories that the listings of a walk stand for.
    pub fn tree(&self, listings: &Vec<DirListing>) -> (tree: Vec<RepositoryDir>)
        requires
            under_storage(self.storage_directory(), listing_views(listings@)),
            file_count(listing_views(listings@)) <= usize::MAX,
        ensures
            dir_views(tree@) == tree_of(self.storage_directory(), listing_views(listings@)),
    {
        build_tree(self.config.storage_directory.as_str(), listings)
    }

    /// Where a new note is to stand.
    pub fn note_path(&self, partial_path: &str) -> (path: String)
        ensures
            path@ == joined_path(self.storage_directory(), partial_path@),
    {
        join_path(self.config.storage_directory.as_str(), partial_path)
    }

    /// Opens the note in the user's editor and, once the editor has closed,
    /// commits the note where it was changed.
    pub fn edit_note(&self, note: &Note) -> (report: Result<ConsoleOutput, DefaultError>)
        ensures
            self.may_edit(*note, report),
    {
        let path = note.path();
        let opened = self.shell.execute_interactive_in_repo(edit_command(path.as_str()).as_str());
        proof {
            assert(self.shell().may_execute_interactive_in_repo(
                edit_command_text(note@.path),
                opened,
            ));
        }
        match opened {
            Ok(_) => {
                let changed = self.git.has_changed(note);
                proof {
                    assert(self.git().may_have_changed(*note, changed));
                }
                if changed {
                    let committed = self.git.commit(note, update_message(path.as_str()).as_str());
                    proof {
                        assert(self.git().may_commit(
                            *note,
                            update_message_text(note@.path),
                            committed,
                        ));
                    }
                    let report = edit_report(Some(committed));
                    proof {
                        assert(self.may_record_edit(*note, report));
                        assert(self.may_close_edit(*note, report));
                    }
                    report
                } else {
                    let report = edit_report(None);
                    proof {
                        assert(self.may_close_edit(*note, report));
                    }
                    report
                }
            },
            Err(error) => Err(error),
        }
    }

    /// Commits the removal of a note whose file is gone.
    pub fn record_removal(&self, note: &Note) -> (report: Result<ConsoleOutput, DefaultError>)
        ensures
            self.git().may_commit(*note, delete_message_text(note@.path), report),
    {
        self.git.commit(note, delete_message(note.path().as_str()).as_str())
    }

    pub fn push_repo(&self) -> (report: Result<ConsoleOutput, DefaultError>)
        ensures
            self.git().may_push(report),
    {
        self.git.push()
    }

    pub fn pull_repo(&self) -> (report: Result<ConsoleOutput, DefaultError>)
        ensures
            self.git().may_pull(report),
    {
        self.git.pull()
    }
}

} // verus!
