//! A model of the directory that is organized, to say what a run does to it.

use crate::category::FileType;
use crate::organize::batch;
use crate::relocate::{performs, step_after, Operation, Outcome, Step, World};
use vstd::prelude::*;

verus! {

/// The directory as a run sees it: the regular files directly in it, the
/// category folders that exist, and the files that stand in them.
pub struct Tree {
    /// The bytes of each regular file directly in the directory, by name.
    pub top: Map<Seq<char>, Seq<u8>>,
    /// The categories whose folder exists.
    pub folders: Set<FileType>,
    /// The bytes of each file in a category folder, by category and name.
    pub sorted: Map<(FileType, Seq<char>), Seq<u8>>,
}

/// What the relocation of the file `name` into the folder of `file_type`
/// sees of the directory.
pub open spec fn world_of(tree: Tree, name: Seq<char>, file_type: FileType) -> World {
    World {
        folder: tree.folders.contains(file_type),
        source: if tree.top.dom().contains(name) {
            Some(tree.top[name])
        } else {
            None
        },
        target: if tree.sorted.dom().contains((file_type, name)) {
            Some(tree.sorted[(file_type, name)])
        } else {
            None
        },
    }
}

/// How an operation of the relocation of `name` into the folder of
/// `file_type` changes the directory: as the operation says of that
/// file, its target and its folder, and not at all elsewhere.
pub open spec fn performs_on(
    before: Tree,
    name: Seq<char>,
    file_type: FileType,
    operation: Operation,
    succeeded: bool,
    after: Tree,
) -> bool {
    &&& performs(
        world_of(before, name, file_type),
        operation,
        succeeded,
        world_of(after, name, file_type),
    )
    &&& after.top.remove(name) == before.top.remove(name)
    &&& after.sorted.remove((file_type, name)) == before.sorted.remove((file_type, name))
    &&& after.folders.remove(file_type) == before.folders.remove(file_type)
}

/// True where `trees` are the states the directory went through while
/// the caller performed, one after the other, the operations that a run
/// over `files` asked for, and `reports` are what it reported of them.
pub open spec fn run_follows(
    files: Seq<Seq<char>>,
    types: Seq<FileType>,
    reports: Seq<bool>,
    trees: Seq<Tree>,
) -> bool {
    &&& types.len() == files.len()
    &&& trees.len() == reports.len() + 1
    &&& forall|i: int|
        0 <= i < reports.len() ==> {
            let (done, pending) = #[trigger] batch(files.len(), reports.take(i));
            &&& done.len() < files.len()
            &&& performs_on(
                trees[i],
                files[done.len() as int],
                types[done.len() as int],
                pending,
                reports[i],
                trees[i + 1],
            )
        }
}

/// True where the run has moved the file `name`.
pub open spec fn was_moved(files: Seq<Seq<char>>, done: Seq<Outcome>, name: Seq<char>) -> bool {
    exists|i: int|
        0 <= i < done.len() && i < files.len() && files[i] == name && #[trigger] done[i]
            == Outcome::Moved
}

/// The files that a run leaves directly in the directory are those that
/// were there and that it did not move, with their bytes as they were.
pub proof fn lemma_moved_files_leave(
    files: Seq<Seq<char>>,
    types: Seq<FileType>,
    reports: Seq<bool>,
    trees: Seq<Tree>,
)
    requires
        files.no_duplicates(),
        run_follows(files, types, reports, trees),
    ensures
        forall|name: Seq<char>|
            trees.last().top.dom().contains(name) <==> trees.first().top.dom().contains(name)
                && !was_moved(files, batch(files.len(), reports).0, name),
        forall|name: Seq<char>|
            trees.last().top.dom().contains(name) ==> trees.last().top[name]
                == trees.first().top[name],
    decreases reports.len(),
{
    if reports.len() > 0 {
        let n = reports.len() - 1;
        let earlier = reports.drop_last();
        let seen = trees.drop_last();
        assert forall|i: int| 0 <= i < earlier.len() implies {
            let (done, pending) = #[trigger] batch(files.len(), earlier.take(i));
            &&& done.len() < files.len()
            &&& performs_on(
                seen[i],
                files[done.len() as int],
                types[done.len() as int],
                pending,
                earlier[i],
                seen[i + 1],
            )
        } by {
            assert(earlier.take(i) =~= reports.take(i));
        }
        lemma_moved_files_leave(files, types, earlier, seen);
        let (done, pending) = batch(files.len(), reports.take(n));
        let current = done.len() as int;
        let before = trees[n];
        let after = trees[n + 1];
        let now = batch(files.len(), reports).0;
        assert(seen.last() == before && seen.first() == trees.first());
        assert forall|name: Seq<char>|
            trees.last().top.dom().contains(name) <==> trees.first().top.dom().contains(name)
                && !was_moved(files, batch(files.len(), reports).0, name) by {
            if name == files[current] {
                if step_after(pending, reports[n]) == Step::Finished(Outcome::Moved) {
                    assert(now[current] == Outcome::Moved);
                }
            } else {
                assert(after.top.remove(files[current]).dom().contains(name)
                    == after.top.dom().contains(name));
                assert(before.top.remove(files[current]).dom().contains(name)
                    == before.top.dom().contains(name));
                if was_moved(files, done, name) {
                    let i = choose|i: int|
                        0 <= i < done.len() && i < files.len() && files[i] == name
                            && #[trigger] done[i] == Outcome::Moved;
                    assert(now[i] == Outcome::Moved);
                }
            }
        }
        assert forall|name: Seq<char>|
            trees.last().top.dom().contains(name) implies trees.last().top[name]
            == trees.first().top[name] by {
            if name != files[current] {
                assert(before.top.remove(files[current]).dom().contains(name));
                assert(before.top.remove(files[current])[name] == before.top[name]);
            } else {
                assert(world_of(after, name, types[current]).source == world_of(
                    before,
                    name,
                    types[current],
                ).source);
            }
        }
    }
}

/// Running twice: after a run over the listing of the directory, the
/// regular files that a second listing finds are files of the first
/// listing that the run did not move. Where the run moved every file, the
/// second listing is empty.
pub proof fn lemma_second_listing(
    files: Seq<Seq<char>>,
    types: Seq<FileType>,
    reports: Seq<bool>,
    trees: Seq<Tree>,
)
    requires
        files.no_duplicates(),
        files.to_set() == trees.first().top.dom(),
        run_follows(files, types, reports, trees),
    ensures
        forall|name: Seq<char>|
            trees.last().top.dom().contains(name) ==> files.contains(name) && !was_moved(
                files,
                batch(files.len(), reports).0,
                name,
            ),
        batch(files.len(), reports).0 == Seq::new(files.len(), |i: int| Outcome::Moved)
            ==> trees.last().top.dom() == Set::<Seq<char>>::empty(),
{
    lemma_moved_files_leave(files, types, reports, trees);
    let done = batch(files.len(), reports).0;
    if done == Seq::new(files.len(), |i: int| Outcome::Moved) {
        assert forall|name: Seq<char>| !trees.last().top.dom().contains(name) by {
            if trees.first().top.dom().contains(name) {
                let i = choose|i: int| 0 <= i < files.len() && files[i] == name;
                assert(done[i] == Outcome::Moved);
            }
        }
    }
}

} // verus!
