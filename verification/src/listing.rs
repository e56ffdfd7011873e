//! One level of a directory, as the viewer takes it in: each child with its
//! name and whether it is a directory.

use vstd::prelude::*;
use vstd::seq_lib::to_multiset_contains;

verus! {

/// A child of the directory that was read.
#[derive(Debug, PartialEq, Eq)]
pub struct DirEntry {
    pub name: String,
    pub is_dir: bool,
}

/// A [`DirEntry`] with its name as a sequence of characters.
pub struct DirEntryView {
    pub name: Seq<char>,
    pub is_dir: bool,
}

impl View for DirEntry {
    type V = DirEntryView;

    open spec fn view(&self) -> DirEntryView {
        DirEntryView { name: self.name@, is_dir: self.is_dir }
    }
}

/// What reading a path gave: its children, or the finding that the path is no
/// directory.
#[derive(Debug, PartialEq, Eq)]
pub enum Scan {
    NotADirectory,
    Entries(Vec<DirEntry>),
}

/// The views of a sequence of entries, in order.
pub open spec fn entry_views(entries: Seq<DirEntry>) -> Seq<DirEntryView> {
    entries.map_values(|e: DirEntry| e@)
}

/// The names of those of `entries` that are directories (`dirs`) or are not,
/// in the order of `entries`.
pub open spec fn names_of(entries: Seq<DirEntryView>, dirs: bool) -> Seq<Seq<char>>
    decreases entries.len(),
{
    if entries.len() == 0 {
        Seq::empty()
    } else if entries.last().is_dir == dirs {
        names_of(entries.drop_last(), dirs).push(entries.last().name)
    } else {
        names_of(entries.drop_last(), dirs)
    }
}

/// Every name among `names_of(entries, dirs)` is the name of one of `entries`
/// that is a directory or not as `dirs` says.
pub proof fn lemma_names_of_come_from_entries(entries: Seq<DirEntryView>, dirs: bool, k: int)
    requires
        0 <= k < names_of(entries, dirs).len(),
    ensures
        exists|i: int|
            0 <= i < entries.len() && (#[trigger] entries[i]).is_dir == dirs && entries[i].name
                == names_of(entries, dirs)[k],
    decreases entries.len(),
{
    let last = entries.len() - 1;
    if entries[last].is_dir == dirs && k == names_of(entries, dirs).len() - 1 {
        assert(entries[last].name == names_of(entries, dirs)[k]);
    } else {
        lemma_names_of_come_from_entries(entries.drop_last(), dirs, k);
        let i = choose|i: int|
            0 <= i < entries.drop_last().len() && (#[trigger] entries.drop_last()[i]).is_dir == dirs
                && entries.drop_last()[i].name == names_of(entries.drop_last(), dirs)[k];
        assert(entries[i] == entries.drop_last()[i]);
    }
}

/// Where no directory of a listing has the name of one of its files, no name
/// stands in both of two lists that hold the directories' names and the files'
/// names, in whatever order.
pub proof fn lemma_lists_share_no_name(
    entries: Seq<DirEntryView>,
    dirs: Seq<Seq<char>>,
    files: Seq<Seq<char>>,
)
    requires
        forall|i: int, j: int|
            0 <= i < entries.len() && 0 <= j < entries.len() && (#[trigger] entries[i]).is_dir && !(
            #[trigger] entries[j]).is_dir ==> entries[i].name != entries[j].name,
        dirs.to_multiset() == names_of(entries, true).to_multiset(),
        files.to_multiset() == names_of(entries, false).to_multiset(),
    ensures
        forall|i: int, j: int|
            0 <= i < dirs.len() && 0 <= j < files.len() ==> #[trigger] dirs[i] != #[trigger] files[j],
{
    assert forall|i: int, j: int| 0 <= i < dirs.len() && 0 <= j < files.len() implies #[trigger] dirs[i]
        != #[trigger] files[j] by {
        let d = names_of(entries, true);
        let f = names_of(entries, false);
        assert(dirs.contains(dirs[i]));
        assert(files.contains(files[j]));
        to_multiset_contains(dirs, dirs[i]);
        to_multiset_contains(d, dirs[i]);
        to_multiset_contains(files, files[j]);
        to_multiset_contains(f, files[j]);
        let a = choose|a: int| 0 <= a < d.len() && d[a] == dirs[i];
        let b = choose|b: int| 0 <= b < f.len() && f[b] == files[j];
        lemma_names_of_come_from_entries(entries, true, a);
        lemma_names_of_come_from_entries(entries, false, b);
    }
}

/// Appends to `dirs` the names of the directories among `entries`, and to
/// `files` the names of the others, each in the order of `entries`.
pub fn partition(entries: &Vec<DirEntry>, dirs: &mut Vec<String>, files: &mut Vec<String>)
    ensures
        final(dirs).deep_view() == old(dirs).deep_view() + names_of(entry_views(entries@), true),
        final(files).deep_view() == old(files).deep_view() + names_of(
            entry_views(entries@),
            false,
        ),
{
    let ghost all = entry_views(entries@);
    let mut i: usize = 0;
    assert(all.take(0) =~= Seq::<DirEntryView>::empty());
    assert(dirs.deep_view() =~= old(dirs).deep_view() + names_of(all.take(0), true));
    assert(files.deep_view() =~= old(files).deep_view() + names_of(all.take(0), false));
    while i < entries.len()
        invariant
            i <= entries.len(),
            all == entry_views(entries@),
            dirs.deep_view() == old(dirs).deep_view() + names_of(all.take(i as int), true),
            files.deep_view() == old(files).deep_view() + names_of(all.take(i as int), false),
        decreases entries.len() - i,
    {
        let ghost dirs_before = dirs.deep_view();
        let ghost files_before = files.deep_view();
        let entry = &entries[i];
        let name = entry.name.clone();
        if entry.is_dir {
            dirs.push(name);
        } else {
            files.push(name);
        }
        i += 1;
        proof {
            let now = all.take(i as int);
            assert(now.drop_last() =~= all.take(i - 1));
            assert(now.last() == entry@);
            if entry.is_dir {
                assert(dirs.deep_view() =~= dirs_before.push(name@));
                assert(files.deep_view() =~= files_before);
            } else {
                assert(files.deep_view() =~= files_before.push(name@));
                assert(dirs.deep_view() =~= dirs_before);
            }
            assert(dirs.deep_view() =~= old(dirs).deep_view() + names_of(now, true));
            assert(files.deep_view() =~= old(files).deep_view() + names_of(now, false));
        }
    }
    assert(all.take(i as int) =~= all);
}

} // verus!
