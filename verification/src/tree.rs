//! What a scan is owed: the audio files of a directory tree, and the proof
//! that the scan's steps deliver them.
//!
//! A [`Tree`] is a file system below one path. [`walk`] says which files a
//! depth-first walk of it finds. [`answer`] is a file system that reads the
//! directories for a scan, truthfully and as they are asked for.

use crate::scan::{advance, listed, start, Entry, PathKind, ScanModel, StepModel};
use vstd::prelude::*;

verus! {

/// A file system below one path: the entry at that path and, were it read as
/// a directory, what would be listed or why the read would fail.
pub struct Tree {
    pub entry: Entry,
    pub listing: Result<Seq<Tree>, Seq<char>>,
}

/// The entries at the top of a list of trees.
pub open spec fn tree_entries(trees: Seq<Tree>) -> Seq<Entry> {
    Seq::new(trees.len(), |i: int| trees[i].entry)
}

/// What two walks in a row find: the files of both, or the first failure.
pub open spec fn chain(
    first: Result<Seq<Seq<char>>, Seq<char>>,
    second: Result<Seq<Seq<char>>, Seq<char>>,
) -> Result<Seq<Seq<char>>, Seq<char>> {
    match first {
        Ok(a) => match second {
            Ok(b) => Ok(a + b),
            Err(message) => Err(message),
        },
        Err(message) => Err(message),
    }
}

/// The audio files that a depth-first walk of `tree` finds, in the order of
/// the listings. A directory gives what its entries give, one after the
/// other; a file gives itself where it is an audio file. The first directory
/// that cannot be read fails the walk.
pub open spec fn walk(tree: Tree) -> Result<Seq<Seq<char>>, Seq<char>>
    decreases tree, 0nat,
{
    if tree.entry.is_dir {
        match tree.listing {
            Ok(children) => walk_from(children, 0),
            Err(message) => Err(message),
        }
    } else if tree.entry.is_audio() {
        Ok(seq![tree.entry.path])
    } else {
        Ok(Seq::empty())
    }
}

/// The walks of the trees from position `from` on, in a row.
pub open spec fn walk_from(trees: Seq<Tree>, from: int) -> Result<Seq<Seq<char>>, Seq<char>>
    decreases trees, trees.len() - from,
{
    if 0 <= from < trees.len() {
        chain(walk(trees[from]), walk_from(trees, from + 1))
    } else {
        Ok(Seq::empty())
    }
}

/// What a scan owes for the path it starts at: the walk of a directory,
/// nothing for another path, an error for a path that cannot be looked at.
pub open spec fn scan_result(kind: PathKind, tree: Tree) -> Result<Seq<Seq<char>>, Seq<char>> {
    match kind {
        PathKind::Directory => match tree.listing {
            Ok(children) => walk_from(children, 0),
            Err(message) => Err(message),
        },
        PathKind::Other => Ok(Seq::empty()),
        PathKind::Unreadable(message) => Err(message@),
    }
}

/// The step that a scan is at once the file system has answered what the
/// scan asks of `tree`. A scan that waits for the directory at the top of
/// `tree` is handed its listing, and then has the listed trees answered in
/// turn. A scan that is over, and a tree that is a file, need no answer. No
/// other directory than the one asked for is ever read.
pub open spec fn answer(step: StepModel, tree: Tree) -> StepModel
    decreases tree, 0nat,
{
    match step {
        StepModel::ReadDirectory(scan) => if !tree.entry.is_dir {
            step
        } else if scan.path != tree.entry.path {
            arbitrary()
        } else {
            match tree.listing {
                Ok(children) => answer_from(
                    listed(scan, Ok(tree_entries(children))),
                    children,
                    0,
                ),
                Err(message) => listed(scan, Err(message)),
            }
        },
        StepModel::Finished(_) => step,
    }
}

/// [`answer`] for the trees from position `from` on, in turn.
pub open spec fn answer_from(step: StepModel, trees: Seq<Tree>, from: int) -> StepModel
    decreases trees, trees.len() - from,
{
    if 0 <= from < trees.len() {
        answer_from(answer(step, trees[from]), trees, from + 1)
    } else {
        step
    }
}

/// Where a scan goes on after a walk: with what the walk found added to what
/// it had, or to the end with the walk's failure.
pub open spec fn resume(
    walked: Result<Seq<Seq<char>>, Seq<char>>,
    remaining: Seq<Entry>,
    found: Seq<Seq<char>>,
) -> StepModel {
    match walked {
        Ok(files) => advance(remaining, found + files),
        Err(message) => StepModel::Finished(Err(message)),
    }
}

/// A scan that is over stays as it is, whatever the file system holds.
pub proof fn lemma_finished_stays(outcome: Result<Seq<Seq<char>>, Seq<char>>, tree: Tree)
    ensures
        answer(StepModel::Finished(outcome), tree) == StepModel::Finished(outcome),
{
}

/// A scan that is over stays as it is, whatever the file system holds.
pub proof fn lemma_finished_stays_from(
    outcome: Result<Seq<Seq<char>>, Seq<char>>,
    trees: Seq<Tree>,
    from: int,
)
    ensures
        answer_from(StepModel::Finished(outcome), trees, from) == StepModel::Finished(outcome),
    decreases trees.len() - from,
{
    if 0 <= from < trees.len() {
        lemma_finished_stays(outcome, trees[from]);
        lemma_finished_stays_from(outcome, trees, from + 1);
    }
}

/// A scan that is about to look at the entry of `tree`, and after it at
/// `remaining`, has after the file system's answers looked at all of `tree`:
/// it goes on behind `tree` with the files of its walk.
pub proof fn lemma_answer_follows_walk(tree: Tree, remaining: Seq<Entry>, found: Seq<Seq<char>>)
    ensures
        answer(advance(seq![tree.entry] + remaining, found), tree) == resume(
            walk(tree),
            remaining,
            found,
        ),
    decreases tree, 0nat,
{
    let ahead = seq![tree.entry] + remaining;
    assert(ahead[0] == tree.entry);
    assert(ahead.drop_first() =~= remaining);
    if tree.entry.is_dir {
        let scan = ScanModel { path: tree.entry.path, remaining, found };
        assert(advance(ahead, found) == StepModel::ReadDirectory(scan));
        match tree.listing {
            Ok(children) => {
                assert(tree_entries(children).skip(0) =~= tree_entries(children));
                lemma_answer_from_follows_walk(children, 0, remaining, found);
            },
            Err(message) => {},
        }
    } else if tree.entry.is_audio() {
        assert(found + seq![tree.entry.path] =~= found.push(tree.entry.path));
        lemma_unasked(advance(remaining, found.push(tree.entry.path)), tree);
    } else {
        assert(found + Seq::<Seq<char>>::empty() =~= found);
        lemma_unasked(advance(remaining, found), tree);
    }
}

/// [`lemma_answer_follows_walk`] for the trees from position `from` on.
pub proof fn lemma_answer_from_follows_walk(
    trees: Seq<Tree>,
    from: int,
    remaining: Seq<Entry>,
    found: Seq<Seq<char>>,
)
    requires
        0 <= from <= trees.len(),
    ensures
        answer_from(
            advance(tree_entries(trees).skip(from) + remaining, found),
            trees,
            from,
        ) == resume(walk_from(trees, from), remaining, found),
    decreases trees, trees.len() - from,
{
    let ahead = tree_entries(trees).skip(from) + remaining;
    if from < trees.len() {
        let behind = tree_entries(trees).skip(from + 1) + remaining;
        assert(ahead =~= seq![trees[from].entry] + behind);
        lemma_answer_follows_walk(trees[from], behind, found);
        match walk(trees[from]) {
            Ok(files) => {
                lemma_answer_from_follows_walk(trees, from + 1, remaining, found + files);
                match walk_from(trees, from + 1) {
                    Ok(more) => {
                        assert((found + files) + more =~= found + (files + more));
                    },
                    Err(message) => {},
                }
            },
            Err(message) => {
                lemma_finished_stays_from(Err(message), trees, from + 1);
            },
        }
    } else {
        assert(ahead =~= remaining);
        assert(found + Seq::<Seq<char>>::empty() =~= found);
    }
}

/// A file is never asked for: the scan stays as it is.
proof fn lemma_unasked(step: StepModel, tree: Tree)
    requires
        !tree.entry.is_dir,
    ensures
        answer(step, tree) == step,
{
}

/// A scan finds what a walk finds. Started at a directory, and answered by
/// the file system below it, the scan ends, and ends with the audio files of
/// the walk, in the walk's order, or with the walk's failure.
pub proof fn lemma_scan_follows_walk(tree: Tree)
    requires
        tree.entry.is_dir,
    ensures
        answer(start(tree.entry.path, PathKind::Directory), tree) == StepModel::Finished(
            walk(tree),
        ),
        walk(tree) == scan_result(PathKind::Directory, tree),
{
    let nothing = Seq::<Entry>::empty();
    let none = Seq::<Seq<char>>::empty();
    let ahead = seq![tree.entry] + nothing;
    assert(ahead[0] == tree.entry);
    assert(ahead.drop_first() =~= nothing);
    assert(advance(ahead, none) == start(tree.entry.path, PathKind::Directory));
    lemma_answer_follows_walk(tree, nothing, none);
    match walk(tree) {
        Ok(files) => {
            assert(none + files =~= files);
        },
        Err(message) => {},
    }
}

/// The test for audio files, as a function.
pub open spec fn audio_test() -> spec_fn(Entry) -> bool {
    |entry: Entry| entry.is_audio()
}

/// The path of an entry, as a function.
pub open spec fn path_of() -> spec_fn(Entry) -> Seq<char> {
    |entry: Entry| entry.path
}

/// The paths of the audio files among `entries`, in their order.
pub open spec fn audio_paths(entries: Seq<Entry>) -> Seq<Seq<char>> {
    entries.filter(audio_test()).map_values(path_of())
}

/// Whether every directory in `tree`, at every depth, can be read.
pub open spec fn readable(tree: Tree) -> bool
    decreases tree, 0nat,
{
    tree.entry.is_dir ==> match tree.listing {
        Ok(children) => readable_from(children, 0),
        Err(_) => false,
    }
}

/// [`readable`] for the trees from position `from` on.
pub open spec fn readable_from(trees: Seq<Tree>, from: int) -> bool
    decreases trees, trees.len() - from,
{
    0 <= from < trees.len() ==> readable(trees[from]) && readable_from(trees, from + 1)
}

/// Whether `tree` holds, at any depth and below directories that can be
/// read, an audio file with this path.
pub open spec fn holds(tree: Tree, path: Seq<char>) -> bool
    decreases tree, 0nat,
{
    if tree.entry.is_dir {
        match tree.listing {
            Ok(children) => holds_from(children, 0, path),
            Err(_) => false,
        }
    } else {
        tree.entry.is_audio() && tree.entry.path == path
    }
}

/// [`holds`] for the trees from position `from` on.
pub open spec fn holds_from(trees: Seq<Tree>, from: int, path: Seq<char>) -> bool
    decreases trees, trees.len() - from,
{
    0 <= from < trees.len() && (holds(trees[from], path) || holds_from(trees, from + 1, path))
}

/// A walk fails exactly where some directory cannot be read: a tree without
/// audio files gives an empty list, no error.
pub proof fn lemma_walk_succeeds(tree: Tree)
    ensures
        walk(tree) is Ok <==> readable(tree),
    decreases tree, 0nat,
{
    if tree.entry.is_dir {
        match tree.listing {
            Ok(children) => {
                lemma_walk_from_succeeds(children, 0);
            },
            Err(_) => {},
        }
    }
}

/// [`lemma_walk_succeeds`] for the trees from position `from` on.
pub proof fn lemma_walk_from_succeeds(trees: Seq<Tree>, from: int)
    ensures
        walk_from(trees, from) is Ok <==> readable_from(trees, from),
    decreases trees, trees.len() - from,
{
    if 0 <= from < trees.len() {
        lemma_walk_succeeds(trees[from]);
        lemma_walk_from_succeeds(trees, from + 1);
    }
}

/// A walk is complete and exact: where it succeeds, it finds a path if and
/// only if the tree holds an audio file with that path, at whatever depth.
pub proof fn lemma_walk_finds(tree: Tree, path: Seq<char>)
    ensures
        walk(tree) matches Ok(files) ==> (files.contains(path) <==> holds(tree, path)),
    decreases tree, 0nat,
{
    if tree.entry.is_dir {
        match tree.listing {
            Ok(children) => {
                lemma_walk_from_finds(children, 0, path);
            },
            Err(_) => {},
        }
    } else if tree.entry.is_audio() {
        let files = seq![tree.entry.path];
        assert(files[0] == tree.entry.path);
    }
}

/// [`lemma_walk_finds`] for the trees from position `from` on.
pub proof fn lemma_walk_from_finds(trees: Seq<Tree>, from: int, path: Seq<char>)
    ensures
        walk_from(trees, from) matches Ok(files) ==> (files.contains(path) <==> holds_from(
            trees,
            from,
            path,
        )),
    decreases trees, trees.len() - from,
{
    if 0 <= from < trees.len() {
        lemma_walk_finds(trees[from], path);
        lemma_walk_from_finds(trees, from + 1, path);
        match (walk(trees[from]), walk_from(trees, from + 1)) {
            (Ok(a), Ok(b)) => {
                let files = a + b;
                if a.contains(path) {
                    let i = choose|i: int| 0 <= i < a.len() && a[i] == path;
                    assert(files[i] == path);
                }
                if b.contains(path) {
                    let i = choose|i: int| 0 <= i < b.len() && b[i] == path;
                    assert(files[a.len() + i] == path);
                }
                if files.contains(path) {
                    let i = choose|i: int| 0 <= i < files.len() && files[i] == path;
                    if i < a.len() {
                        assert(a[i] == path);
                    } else {
                        assert(b[i - a.len()] == path);
                    }
                }
            },
            _ => {},
        }
    }
}

/// A directory that holds files only gives exactly its audio files, in the
/// order of its listing, and none of the others.
pub proof fn lemma_flat_directory(tree: Tree)
    requires
        tree.entry.is_dir,
        tree.listing is Ok,
        forall|i: int|
            0 <= i < tree.listing->Ok_0.len() ==> !(#[trigger] tree.listing->Ok_0[i]).entry.is_dir,
    ensures
        walk(tree) == Ok::<Seq<Seq<char>>, Seq<char>>(
            audio_paths(tree_entries(tree.listing->Ok_0)),
        ),
{
    let children = tree.listing->Ok_0;
    lemma_files_from(children, 0);
    assert(tree_entries(children).skip(0) =~= tree_entries(children));
}

/// [`lemma_flat_directory`] for the files from position `from` on.
pub proof fn lemma_files_from(trees: Seq<Tree>, from: int)
    requires
        0 <= from <= trees.len(),
        forall|i: int| 0 <= i < trees.len() ==> !(#[trigger] trees[i]).entry.is_dir,
    ensures
        walk_from(trees, from) == Ok::<Seq<Seq<char>>, Seq<char>>(
            audio_paths(tree_entries(trees).skip(from)),
        ),
    decreases trees.len() - from,
{
    let is_audio = audio_test();
    let path_of = path_of();
    let ahead = tree_entries(trees).skip(from);
    if from < trees.len() {
        lemma_files_from(trees, from + 1);
        let entry = trees[from].entry;
        let first = seq![entry];
        let behind = tree_entries(trees).skip(from + 1);
        assert(ahead =~= first + behind);
        Seq::filter_distributes_over_add(first, behind, is_audio);
        assert(ahead.filter(is_audio) == first.filter(is_audio) + behind.filter(is_audio));
        assert(first.filter(is_audio) =~= if entry.is_audio() {
            first
        } else {
            Seq::<Entry>::empty()
        }) by {
            reveal_with_fuel(Seq::filter, 2);
            assert(first.drop_last() =~= Seq::<Entry>::empty());
            assert(first.last() == entry);
        }
        if entry.is_audio() {
            assert((first + behind.filter(is_audio)).map_values(path_of) =~= seq![entry.path]
                + behind.filter(is_audio).map_values(path_of));
            assert(walk(trees[from]) == Ok::<Seq<Seq<char>>, Seq<char>>(seq![entry.path]));
        } else {
            assert(first.filter(is_audio) + behind.filter(is_audio) =~= behind.filter(is_audio));
            assert(Seq::<Seq<char>>::empty() + audio_paths(behind) =~= audio_paths(behind));
            assert(walk(trees[from]) == Ok::<Seq<Seq<char>>, Seq<char>>(Seq::empty()));
        }
    } else {
        assert(ahead =~= Seq::<Entry>::empty());
        assert(ahead.filter(is_audio) =~= Seq::<Entry>::empty()) by {
            reveal_with_fuel(Seq::filter, 1);
        }
        assert(audio_paths(ahead) =~= Seq::<Seq<char>>::empty());
    }
}

} // verus!
