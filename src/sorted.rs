use vstd::prelude::*;
use vstd::multiset::Multiset;

use crate::entry::{Entry, EntryView, entries_view};
use crate::entry_set::{EntrySet, entry_anchor};
use crate::file_system::FileSystem;
use crate::order::{
    lemma_path_lt_total, lemma_path_lt_transitive, path_le, path_less, path_lt, paths_in_order,
    sort_paths,
};
use crate::path::{FilePath, duplicate_paths};

verus! {

broadcast use vstd::seq_lib::to_multiset_insert, vstd::seq_lib::to_multiset_len,
    vstd::seq_lib::to_multiset_build, vstd::multiset::lemma_multiset_empty_len;

/// An entry without the order of its files: its kind, its file or root file, and
/// the bags of its other files.
pub ghost enum EntryBag {
    File(Seq<Seq<char>>),
    Directory(Seq<Seq<char>>, Multiset<Seq<Seq<char>>>),
    RenderingDirectory(Seq<Seq<char>>, Multiset<Seq<Seq<char>>>, Multiset<Seq<Seq<char>>>),
}

/// The order-free form of an entry.
pub open spec fn entry_bag(e: EntryView) -> EntryBag {
    match e {
        EntryView::File(f) => EntryBag::File(f),
        EntryView::Directory { root_file, extra_files } => EntryBag::Directory(
            root_file,
            extra_files.to_multiset(),
        ),
        EntryView::RenderingDirectory { root_file, extra_files, rendering_files } => {
            EntryBag::RenderingDirectory(
                root_file,
                extra_files.to_multiset(),
                rendering_files.to_multiset(),
            )
        },
    }
}

/// Whether the files of an entry are in order.
pub open spec fn entry_in_order(e: EntryView) -> bool {
    match e {
        EntryView::File(_) => true,
        EntryView::Directory { extra_files, .. } => paths_in_order(extra_files),
        EntryView::RenderingDirectory { extra_files, rendering_files, .. } => paths_in_order(
            extra_files,
        ) && paths_in_order(rendering_files),
    }
}

/// The order-free forms of entries.
pub open spec fn entry_bags(entries: Seq<EntryView>) -> Seq<EntryBag> {
    Seq::new(entries.len(), |i: int| entry_bag(entries[i]))
}

/// The paths that name entries.
pub open spec fn anchors(entries: Seq<EntryView>) -> Seq<Seq<Seq<char>>> {
    Seq::new(entries.len(), |i: int| entry_anchor(entries[i]))
}

/// Whether an entry set is sorted: its entries in the order of the paths that name
/// them, the files of each in order.
pub open spec fn entries_in_order(entries: Seq<EntryView>) -> bool {
    &&& paths_in_order(anchors(entries))
    &&& forall|i: int| 0 <= i < entries.len() ==> entry_in_order(#[trigger] entries[i])
}

/// Values that have a sorted copy.
pub trait Sorted: Sized {
    /// Return a copy of the object, with all entries sorted.
    fn sorted(&self) -> Self;
}

/// A sorted copy of a list of paths.
fn sorted_paths(paths: &Vec<FilePath>) -> (r: Vec<FilePath>)
    ensures
        crate::path::paths_view(r@).to_multiset() == crate::path::paths_view(paths@).to_multiset(),
        paths_in_order(crate::path::paths_view(r@)),
{
    sort_paths(duplicate_paths(paths))
}

impl Sorted for Entry {
    /// The same entry, with its other files and its rendering files in order.
    fn sorted(&self) -> (r: Entry)
        ensures
            entry_bag(r@) == entry_bag(self@),
            entry_in_order(r@),
    {
        match self {
            Entry::File(f) => Entry::File(f.duplicate()),
            Entry::Directory { root_file, extra_files } => Entry::Directory {
                root_file: root_file.duplicate(),
                extra_files: sorted_paths(extra_files),
            },
            Entry::RenderingDirectory { root_file, extra_files, rendering_files } => {
                Entry::RenderingDirectory {
                    root_file: root_file.duplicate(),
                    extra_files: sorted_paths(extra_files),
                    rendering_files: sorted_paths(rendering_files),
                }
            },
        }
    }
}

impl Sorted for EntrySet {
    /// The same base path and the same entries, each sorted, in the order of the
    /// paths that name them.
    fn sorted(&self) -> (r: EntrySet)
        ensures
            r.base_path@ == self.base_path@,
            entry_bags(entries_view(r.entries@)).to_multiset() == entry_bags(
                entries_view(self.entries@),
            ).to_multiset(),
            entries_in_order(entries_view(r.entries@)),
    {
        let ghost all = entries_view(self.entries@);
        let mut out: Vec<Entry> = Vec::new();
        let mut i: usize = 0;
        proof {
            assert(entry_bags(entries_view(out@)).to_multiset().len() == 0);
            assert(entry_bags(all.subrange(0, 0)).to_multiset().len() == 0);
            assert(entry_bags(entries_view(out@)).to_multiset() =~= entry_bags(
                all.subrange(0, 0),
            ).to_multiset());
        }
        while i < self.entries.len()
            invariant
                i <= self.entries.len(),
                all == entries_view(self.entries@),
                entry_bags(entries_view(out@)).to_multiset() == entry_bags(
                    all.subrange(0, i as int),
                ).to_multiset(),
                entries_in_order(entries_view(out@)),
            decreases self.entries.len() - i,
        {
            let x = self.entries[i].sorted();
            let mut j: usize = out.len();
            while j > 0 && anchor_less(&x, &out[j - 1])
                invariant
                    j <= out.len(),
                    forall|k: int|
                        j <= k < out.len() ==> path_lt(
                            entry_anchor(x@),
                            entry_anchor((#[trigger] out[k])@),
                        ),
                decreases j,
            {
                j = j - 1;
            }
            let ghost w = entries_view(out@);
            let ghost xv = x@;
            proof {
                if j > 0 {
                    lemma_path_lt_total(entry_anchor(xv), entry_anchor(w[j - 1]));
                }
            }
            out.insert(j, x);
            proof {
                let v = entries_view(out@);
                assert(v =~= w.insert(j as int, xv));
                let av = anchors(v);
                let aw = anchors(w);
                assert(av =~= aw.insert(j as int, entry_anchor(xv)));
                assert forall|p: int, q: int| 0 <= p < q < av.len() implies path_le(
                    av[p],
                    av[q],
                ) by {
                    if q < j {
                        assert(av[p] == aw[p] && av[q] == aw[q]);
                    } else if q == j {
                        assert(av[p] == aw[p]);
                        assert(path_le(aw[j - 1], entry_anchor(xv)));
                        if p < j - 1 {
                            assert(path_le(aw[p], aw[j - 1]));
                            if aw[p] != aw[j - 1] && aw[j - 1] != entry_anchor(xv) {
                                lemma_path_lt_transitive(aw[p], aw[j - 1], entry_anchor(xv));
                            }
                        }
                    } else if p == j {
                        assert(av[q] == aw[q - 1]);
                        assert(path_lt(entry_anchor(xv), entry_anchor(out@[q]@)));
                    } else if p < j {
                        assert(av[p] == aw[p] && av[q] == aw[q - 1]);
                    } else {
                        assert(av[p] == aw[p - 1] && av[q] == aw[q - 1]);
                    }
                }
                assert forall|k: int| 0 <= k < v.len() implies entry_in_order(#[trigger] v[k]) by {
                    if k < j {
                        assert(v[k] == w[k]);
                    } else if k > j {
                        assert(v[k] == w[k - 1]);
                    }
                }
                assert(entry_bags(v) =~= entry_bags(w).insert(j as int, entry_bag(xv)));
                assert(entry_bags(all.subrange(0, i + 1)) =~= entry_bags(all.subrange(0, i as int)).push(
                    entry_bag(xv),
                ));
            }
            i = i + 1;
        }
        proof {
            assert(all.subrange(0, i as int) =~= all);
        }
        EntrySet { base_path: self.base_path.duplicate(), entries: out }
    }
}

/// Whether entry `a` is named by a path that comes strictly before that of entry `b`.
fn anchor_less(a: &Entry, b: &Entry) -> (r: bool)
    ensures
        r == path_lt(entry_anchor(a@), entry_anchor(b@)),
{
    path_less(anchor_of(a), anchor_of(b))
}

/// The path that names an entry.
fn anchor_of(e: &Entry) -> (r: &FilePath)
    ensures
        r@ == entry_anchor(e@),
{
    match e {
        Entry::File(f) => f,
        Entry::Directory { root_file, .. } => root_file,
        Entry::RenderingDirectory { root_file, .. } => root_file,
    }
}

/// The sorted copy of an optional entry set.
fn sorted_set(s: &Option<EntrySet>) -> (r: Option<EntrySet>)
    ensures
        r is Some <==> s is Some,
        r matches Some(t) ==> t.base_path@ == s->0.base_path@ && entry_bags(
            entries_view(t.entries@),
        ).to_multiset() == entry_bags(entries_view(s->0.entries@)).to_multiset() && entries_in_order(
            entries_view(t.entries@),
        ),
{
    match s {
        Some(t) => Some(t.sorted()),
        None => None,
    }
}

impl Sorted for FileSystem {
    /// The same file system, with its module entry and its entry sets sorted.
    fn sorted(&self) -> (r: FileSystem)
        ensures
            r.root_directory@ == self.root_directory@,
            entry_bag(r.module@) == entry_bag(self.module@),
            entry_in_order(r.module@),
            r.types is Some <==> self.types is Some,
            r.types matches Some(t) ==> t.base_path@ == self.types->0.base_path@ && entry_bags(
                entries_view(t.entries@),
            ).to_multiset() == entry_bags(entries_view(self.types->0.entries@)).to_multiset()
                && entries_in_order(entries_view(t.entries@)),
            r.contents is Some <==> self.contents is Some,
            r.contents matches Some(c) ==> c.base_path@ == self.contents->0.base_path@ && entry_bags(
                entries_view(c.entries@),
            ).to_multiset() == entry_bags(entries_view(self.contents->0.entries@)).to_multiset()
                && entries_in_order(entries_view(c.entries@)),
    {
        FileSystem {
            root_directory: self.root_directory.duplicate(),
            module: self.module.sorted(),
            types: sorted_set(&self.types),
            contents: sorted_set(&self.contents),
        }
    }
}

} // verus!
