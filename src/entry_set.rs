use vstd::prelude::*;
use vstd::string::*;

use crate::entry::{
    Entry, EntryFromNamedPath, EntryView, RENDERING_DIRECTORY, entries_view, rendering_name,
    sparse_entry,
};
use crate::path::{FilePath, is_plain_path, names_view};
use crate::identifier::{IdentifierPaths, identifier_of, underscore};
use crate::tree::{Directory, dir_name, first_named};

verus! {

/// A collection of entries found inside a directory, and the directory they were
/// found in. It does not record how deep each entry is nested.
#[derive(Debug, PartialEq)]
pub struct EntrySet {
    pub base_path: FilePath,
    pub entries: Vec<Entry>,
}

/// The entries that a directory gives by itself, before its subdirectories: the
/// directory as one sparse entry, or else one file entry for each of its files.
pub open spec fn own_entries(d: Directory) -> Seq<EntryView> {
    match sparse_entry(d) {
        Some(e) => seq![e],
        None => Seq::new(
            d.files.len() as nat,
            |i: int| EntryView::File(d.path@.push(names_view(d.files@)[i])),
        ),
    }
}

/// All the entries under a directory: its own, then those of each of its
/// subdirectories in order, rendering directories left out.
pub open spec fn walk(d: Directory) -> Seq<EntryView>
    decreases d, d.directories.len() + 1,
{
    own_entries(d) + walk_nested(d, d.directories.len() as int)
}

/// The entries under the first `n` subdirectories of a directory.
pub open spec fn walk_nested(d: Directory, n: int) -> Seq<EntryView>
    decreases d, n,
{
    if n <= 0 || n > d.directories.len() {
        Seq::empty()
    } else {
        let c = d.directories[n - 1];
        walk_nested(d, n - 1) + if dir_name(c) == rendering_name() {
            Seq::empty()
        } else {
            walk(c)
        }
    }
}

/// Whether no directory under `d`, itself included and rendering directories
/// left out, holds a root-marker file.
pub open spec fn has_no_marker(d: Directory) -> bool
    decreases d, d.directories.len() + 1,
{
    first_named(names_view(d.files@), underscore()) < 0 && nested_have_no_marker(
        d,
        d.directories.len() as int,
    )
}

/// Whether no directory under the first `n` subdirectories of `d` holds a root-marker file.
pub open spec fn nested_have_no_marker(d: Directory, n: int) -> bool
    decreases d, n,
{
    if n <= 0 || n > d.directories.len() {
        true
    } else {
        let c = d.directories[n - 1];
        nested_have_no_marker(d, n - 1) && (dir_name(c) == rendering_name() || has_no_marker(c))
    }
}

/// The number of files under `d`, rendering directories left out.
pub open spec fn reachable_files(d: Directory) -> nat
    decreases d, d.directories.len() + 1,
{
    (d.files.len() + nested_files(d, d.directories.len() as int)) as nat
}

/// The number of files under the first `n` subdirectories of `d`, rendering
/// directories left out.
pub open spec fn nested_files(d: Directory, n: int) -> nat
    decreases d, n,
{
    if n <= 0 || n > d.directories.len() {
        0
    } else {
        let c = d.directories[n - 1];
        (nested_files(d, n - 1) + if dir_name(c) == rendering_name() {
            0
        } else {
            reachable_files(c)
        }) as nat
    }
}

/// When no directory of a tree holds a root-marker file, every file reachable
/// from its root becomes exactly one file entry: the entries are all file
/// entries, as many as there are reachable files.
pub proof fn lemma_unmarked_tree_gives_one_entry_per_file(d: Directory)
    requires
        has_no_marker(d),
    ensures
        walk(d).len() == reachable_files(d),
        forall|i: int| 0 <= i < walk(d).len() ==> (#[trigger] walk(d)[i]) is File,
    decreases d, d.directories.len() + 1,
{
    lemma_unmarked_nested(d, d.directories.len() as int);
    assert(sparse_entry(d) is None);
    let own = own_entries(d);
    let nested = walk_nested(d, d.directories.len() as int);
    assert forall|i: int| 0 <= i < walk(d).len() implies (#[trigger] walk(d)[i]) is File by {
        if i < own.len() {
            assert(walk(d)[i] == own[i]);
        } else {
            assert(walk(d)[i] == nested[i - own.len()]);
        }
    }
}

proof fn lemma_unmarked_nested(d: Directory, n: int)
    requires
        0 <= n <= d.directories.len(),
        nested_have_no_marker(d, n),
    ensures
        walk_nested(d, n).len() == nested_files(d, n),
        forall|i: int| 0 <= i < walk_nested(d, n).len() ==> (#[trigger] walk_nested(d, n)[i]) is File,
    decreases d, n,
{
    if n > 0 {
        let c = d.directories[n - 1];
        assert(decreases_to!(d => d.directories));
        assert(decreases_to!(d.directories => d.directories[n - 1]));
        lemma_unmarked_nested(d, n - 1);
        let before = walk_nested(d, n - 1);
        if dir_name(c) != rendering_name() {
            lemma_unmarked_tree_gives_one_entry_per_file(c);
        }
        let after = walk_nested(d, n);
        assert forall|i: int| 0 <= i < after.len() implies (#[trigger] after[i]) is File by {
            if i < before.len() {
                assert(after[i] == before[i]);
            } else {
                assert(after[i] == walk(c)[i - before.len()]);
            }
        }
    }
}

impl EntrySet {
    /// Extends an EntrySet with entries from another.
    ///
    /// The extended set keeps its own `base_path`.
    pub fn extend_entries(&mut self, extension: EntrySet)
        ensures
            final(self).base_path == old(self).base_path,
            entries_view(final(self).entries@) == entries_view(old(self).entries@)
                + entries_view(extension.entries@),
    {
        let mut more = extension.entries;
        self.entries.append(&mut more);
        assert(entries_view(self.entries@) =~= entries_view(old(self).entries@) + entries_view(
            extension.entries@,
        ));
    }
}

/// The entries of a directory's own files, one file entry each.
fn file_entries(d: &Directory) -> (r: Vec<Entry>)
    ensures
        sparse_entry(*d) is None ==> entries_view(r@) == own_entries(*d),
{
    let mut out: Vec<Entry> = Vec::new();
    let mut i: usize = 0;
    while i < d.files.len()
        invariant
            i <= d.files.len(),
            out.len() == i,
            forall|j: int|
                0 <= j < i ==> (#[trigger] out[j])@ == EntryView::File(
                    d.path@.push(names_view(d.files@)[j]),
                ),
        decreases d.files.len() - i,
    {
        out.push(Entry::File(d.path.join(d.files[i].as_str())));
        i = i + 1;
    }
    assert(sparse_entry(*d) is None ==> entries_view(out@) =~= own_entries(*d));
    out
}

/// Whether a directory is called exactly `rendering`.
fn is_rendering_directory(d: &Directory) -> (r: bool)
    ensures
        r == (dir_name(*d) == rendering_name()),
{
    proof {
        assert(RENDERING_DIRECTORY@ =~= rendering_name()) by {
            reveal_strlit("rendering");
        }
    }
    let n = d.path.parts.len();
    n > 0 && d.path.parts[n - 1] == String::from_str(RENDERING_DIRECTORY)
}

/// Collects all the entries under a directory.
fn collect_entries(d: &Directory) -> (r: EntrySet)
    ensures
        r.base_path@ == d.path@,
        entries_view(r.entries@) == walk(*d),
    decreases d,
{
    let own = match d.to_entry() {
        Some(e) => {
            let v = vec![e];
            assert(entries_view(v@) =~= own_entries(*d));
            v
        },
        None => file_entries(d),
    };
    let mut result = EntrySet { base_path: d.path.duplicate(), entries: own };
    let mut i: usize = 0;
    while i < d.directories.len()
        invariant
            i <= d.directories.len(),
            result.base_path@ == d.path@,
            entries_view(result.entries@) == own_entries(*d) + walk_nested(*d, i as int),
        decreases d.directories.len() - i,
    {
        let c = &d.directories[i];
        if is_rendering_directory(c) {
            assert(walk_nested(*d, i + 1) =~= walk_nested(*d, i as int));
        } else {
            proof {
                assert(decreases_to!(*d => (*d).directories));
                assert(decreases_to!((*d).directories => (*d).directories[i as int]));
            }
            let nested = collect_entries(c);
            result.extend_entries(nested);
            assert(own_entries(*d) + walk_nested(*d, i as int) + walk(*c) =~= own_entries(*d)
                + walk_nested(*d, i + 1));
        }
        i = i + 1;
    }
    result
}

/// The path that names an entry: the file itself, or a sparse directory's root file.
pub open spec fn entry_anchor(e: EntryView) -> Seq<Seq<char>> {
    match e {
        EntryView::File(f) => f,
        EntryView::Directory { root_file, .. } => root_file,
        EntryView::RenderingDirectory { root_file, .. } => root_file,
    }
}

/// The identifier of an entry relative to a base path, when both paths are plain.
pub open spec fn entry_identifier(e: EntryView, base: Seq<Seq<char>>) -> Option<Seq<char>> {
    if is_plain_path(entry_anchor(e)) && is_plain_path(base) {
        Some(identifier_of(entry_anchor(e), base))
    } else {
        None
    }
}

impl Entry {
    /// The identifier of this entry inside an entry set, made from the path of its
    /// file or root file relative to the set's base path.
    pub fn get_id_from_nested_path(&self, entry_set: &EntrySet) -> (r: Option<String>)
        ensures
            match r {
                Some(id) => entry_identifier(self@, entry_set.base_path@) == Some(id@),
                None => entry_identifier(self@, entry_set.base_path@) is None,
            },
    {
        let entry_path = match self {
            Entry::File(f) => f,
            Entry::Directory { root_file, .. } => root_file,
            Entry::RenderingDirectory { root_file, .. } => root_file,
        };
        entry_path.get_id_from_path(&entry_set.base_path)
    }
}

/// Directories that can be mapped to all the entries they hold.
pub trait EntrySetFromPath {
    /// Create an EntrySet from a directory, mapping its subdirectories recursively.
    fn to_entry_set(&self) -> Option<EntrySet>;
}

impl EntrySetFromPath for Directory {
    /// A directory in a snapshot exists, so it always gives an EntrySet: the
    /// directory itself is one sparse entry when it holds a root-marker file, and
    /// otherwise each of its files is an entry; then come the entries of each
    /// subdirectory in order, rendering directories left out.
    fn to_entry_set(&self) -> (r: Option<EntrySet>)
        ensures
            r is Some,
            r->0.base_path@ == self.path@,
            entries_view(r->0.entries@) == walk(*self),
    {
        Some(collect_entries(self))
    }
}

} // verus!
