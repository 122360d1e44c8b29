//! Which task files there are: those that a walk of the tree comes upon,
//! or the one of the current directory.

use vstd::prelude::*;

use crate::steps::texts;

verus! {

/// One entry that a walk of the tree came upon.
#[derive(Debug, Clone, PartialEq, Eq)]
pub enum WalkEntry {
    /// Something in the tree: where it lies, its name within its directory,
    /// and whether it is a regular file.
    Entry { path: String, file_name: String, is_file: bool },
    /// The walk could not go on from here.
    Failed,
}

/// A `WalkEntry` with its texts as sequences of characters.
pub enum WalkEntryView {
    Entry { path: Seq<char>, file_name: Seq<char>, is_file: bool },
    Failed,
}

impl View for WalkEntry {
    type V = WalkEntryView;

    open spec fn view(&self) -> WalkEntryView {
        match *self {
            WalkEntry::Entry { path, file_name, is_file } => WalkEntryView::Entry {
                path: path@,
                file_name: file_name@,
                is_file,
            },
            WalkEntry::Failed => WalkEntryView::Failed,
        }
    }
}

/// The views of the entries of a walk.
pub open spec fn walk_views(entries: Seq<WalkEntry>) -> Seq<WalkEntryView> {
    entries.map_values(|entry: WalkEntry| entry@)
}

/// The location of the one file that is looked for in the current directory.
pub open spec fn here_path() -> Seq<char> {
    "./fern.yaml"@
}

/// The name that every task file has.
pub open spec fn task_file_name() -> Seq<char> {
    "fern.yaml"@
}

/// The locations of the task files among the entries of a walk, in walk
/// order: the regular files with the task file's exact name, up to the
/// point where the walk failed, if it did.
pub open spec fn selected(entries: Seq<WalkEntryView>) -> Seq<Seq<char>>
    decreases entries.len(),
{
    if entries.len() == 0 {
        Seq::empty()
    } else {
        match entries[0] {
            WalkEntryView::Failed => Seq::empty(),
            WalkEntryView::Entry { path, file_name, is_file } => if is_file && file_name
                == task_file_name() {
                seq![path] + selected(entries.skip(1))
            } else {
                selected(entries.skip(1))
            },
        }
    }
}

/// The one location that is looked at in the current directory. Whether a
/// file is there is found out when it is read.
pub fn find_here() -> (path: String)
    ensures
        path@ == here_path(),
{
    "./fern.yaml".to_owned()
}

/// The locations of the task files among the entries of a walk.
pub fn find_fern_files(entries: &Vec<WalkEntry>) -> (paths: Vec<String>)
    ensures
        texts(paths@) == selected(walk_views(entries@)),
{
    let ghost views = walk_views(entries@);
    let wanted = "fern.yaml".to_owned();
    let mut paths: Vec<String> = Vec::new();
    let mut i: usize = 0;
    assert(views.skip(0) =~= views);
    while i < entries.len()
        invariant
            views == walk_views(entries@),
            i <= entries.len(),
            wanted@ == task_file_name(),
            selected(views) == texts(paths@) + selected(views.skip(i as int)),
        decreases entries.len() - i,
    {
        let ghost before = texts(paths@);
        proof {
            assert(views.skip(i as int)[0] == entries@[i as int]@);
            assert(views.skip(i as int).skip(1) =~= views.skip(i + 1));
        }
        match &entries[i] {
            WalkEntry::Failed => {
                assert(before + Seq::<Seq<char>>::empty() =~= before);
                return paths;
            },
            WalkEntry::Entry { path, file_name, is_file } => {
                if *is_file && *file_name == wanted {
                    paths.push(path.clone());
                    proof {
                        let rest = selected(views.skip(i + 1));
                        assert(texts(paths@) =~= before.push(path@));
                        assert(before.push(path@) + rest =~= before + (seq![path@] + rest));
                    }
                }
            },
        }
        i += 1;
    }
    assert(texts(paths@) + Seq::<Seq<char>>::empty() =~= texts(paths@));
    paths
}

} // verus!
