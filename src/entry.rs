use vstd::prelude::*;
use vstd::string::*;

use crate::identifier::{underscore, UNDERSCORE_FILE_NAME};
use crate::path::{FilePath, duplicate_paths, names_view, paths_view, stem_of};
use crate::tree::{Directory, file_paths, first_dir_named, first_named, lemma_first_named_range};

verus! {

/// The name of the directory that holds the rendering templates of a sparse directory.
pub const RENDERING_DIRECTORY: &'static str = "rendering";

/// The text `rendering`.
pub open spec fn rendering_name() -> Seq<char> {
    seq!['r', 'e', 'n', 'd', 'e', 'r', 'i', 'n', 'g']
}

/// A collection of one or more files that corresponds to a single data value.
#[derive(Debug, PartialEq)]
pub enum Entry {
    /// The data object is represented by a single file.
    File(FilePath),
    /// The data object is represented by a sparse directory,
    /// containing a root file and zero or more additional files.
    Directory { root_file: FilePath, extra_files: Vec<FilePath> },
    /// The data object is represented by a sparse directory,
    /// containing a root file and zero or more additional files for data,
    /// as well as zero or more additional files for rendering templates.
    RenderingDirectory {
        root_file: FilePath,
        extra_files: Vec<FilePath>,
        rendering_files: Vec<FilePath>,
    },
}

/// The model of an [`Entry`].
pub ghost enum EntryView {
    File(Seq<Seq<char>>),
    Directory { root_file: Seq<Seq<char>>, extra_files: Seq<Seq<Seq<char>>> },
    RenderingDirectory {
        root_file: Seq<Seq<char>>,
        extra_files: Seq<Seq<Seq<char>>>,
        rendering_files: Seq<Seq<Seq<char>>>,
    },
}

impl View for Entry {
    type V = EntryView;

    open spec fn view(&self) -> EntryView {
        match self {
            Entry::File(f) => EntryView::File(f@),
            Entry::Directory { root_file, extra_files } => EntryView::Directory {
                root_file: root_file@,
                extra_files: paths_view(extra_files@),
            },
            Entry::RenderingDirectory { root_file, extra_files, rendering_files } => {
                EntryView::RenderingDirectory {
                    root_file: root_file@,
                    extra_files: paths_view(extra_files@),
                    rendering_files: paths_view(rendering_files@),
                }
            },
        }
    }
}

impl Entry {
    /// A copy of this entry.
    pub fn duplicate(&self) -> (r: Entry)
        ensures
            r@ == self@,
    {
        match self {
            Entry::File(f) => Entry::File(f.duplicate()),
            Entry::Directory { root_file, extra_files } => Entry::Directory {
                root_file: root_file.duplicate(),
                extra_files: duplicate_paths(extra_files),
            },
            Entry::RenderingDirectory { root_file, extra_files, rendering_files } => {
                Entry::RenderingDirectory {
                    root_file: root_file.duplicate(),
                    extra_files: duplicate_paths(extra_files),
                    rendering_files: duplicate_paths(rendering_files),
                }
            },
        }
    }
}

/// The files of an entry: the file itself, or a sparse directory's root file,
/// other files and rendering templates.
pub open spec fn entry_files(e: EntryView) -> Seq<Seq<Seq<char>>> {
    match e {
        EntryView::File(f) => seq![f],
        EntryView::Directory { root_file, extra_files } => seq![root_file] + extra_files,
        EntryView::RenderingDirectory { root_file, extra_files, rendering_files } => seq![root_file]
            + extra_files + rendering_files,
    }
}

impl Entry {
    /// The paths of the files whose data this entry needs.
    pub fn files(&self) -> (r: Vec<FilePath>)
        ensures
            paths_view(r@) == entry_files(self@),
    {
        match self {
            Entry::File(f) => {
                let r = vec![f.duplicate()];
                assert(paths_view(r@) =~= entry_files(self@));
                r
            },
            Entry::Directory { root_file, extra_files } => {
                let mut r = vec![root_file.duplicate()];
                let mut more = duplicate_paths(extra_files);
                r.append(&mut more);
                assert(paths_view(r@) =~= entry_files(self@));
                r
            },
            Entry::RenderingDirectory { root_file, extra_files, rendering_files } => {
                let mut r = vec![root_file.duplicate()];
                let mut more = duplicate_paths(extra_files);
                r.append(&mut more);
                let mut templates = duplicate_paths(rendering_files);
                r.append(&mut templates);
                assert(paths_view(r@) =~= entry_files(self@));
                r
            },
        }
    }
}

/// The model of a list of entries.
pub open spec fn entries_view(entries: Seq<Entry>) -> Seq<EntryView> {
    Seq::new(entries.len(), |i: int| entries[i]@)
}

/// The paths of the named files in `dir` whose stem is not `name`.
pub open spec fn paths_not_named(dir: Seq<Seq<char>>, names: Seq<Seq<char>>, name: Seq<char>) -> Seq<
    Seq<Seq<char>>,
>
    decreases names.len(),
{
    if names.len() == 0 {
        Seq::empty()
    } else {
        let rest = paths_not_named(dir, names.drop_last(), name);
        if stem_of(names.last()) == name {
            rest
        } else {
            rest.push(dir.push(names.last()))
        }
    }
}

/// The entry that a directory is as a whole: a sparse directory if it holds a
/// root-marker file, with its rendering templates if it also holds a rendering
/// directory; nothing otherwise.
pub open spec fn sparse_entry(d: Directory) -> Option<EntryView> {
    let names = names_view(d.files@);
    let i = first_named(names, underscore());
    if i < 0 {
        None
    } else {
        let root_file = d.path@.push(names[i]);
        let extra_files = paths_not_named(d.path@, names, underscore());
        let r = first_dir_named(d.directories@, rendering_name());
        if r < 0 {
            Some(EntryView::Directory { root_file, extra_files })
        } else {
            let rendering = d.directories[r];
            Some(
                EntryView::RenderingDirectory {
                    root_file,
                    extra_files,
                    rendering_files: file_paths(rendering.path@, names_view(rendering.files@)),
                },
            )
        }
    }
}

/// The entry that `name` resolves to inside a directory: the first file whose stem
/// is `name`, else the subdirectory called `name` if it is a sparse directory.
pub open spec fn named_entry(d: Directory, name: Seq<char>) -> Option<EntryView> {
    let names = names_view(d.files@);
    let i = first_named(names, name);
    if i >= 0 {
        Some(EntryView::File(d.path@.push(names[i])))
    } else {
        let j = first_dir_named(d.directories@, name);
        if j >= 0 {
            sparse_entry(d.directories[j])
        } else {
            None
        }
    }
}

/// The model of an optional entry.
pub open spec fn option_entry_view(e: Option<Entry>) -> Option<EntryView> {
    match e {
        Some(e) => Some(e@),
        None => None,
    }
}

/// The paths of the files in a directory whose stem is not `name`.
fn file_paths_not_named(d: &Directory, name: &str) -> (r: Vec<FilePath>)
    ensures
        paths_view(r@) == paths_not_named(d.path@, names_view(d.files@), name@),
{
    let ghost names = names_view(d.files@);
    let mut out: Vec<FilePath> = Vec::new();
    let mut i: usize = 0;
    while i < d.files.len()
        invariant
            i <= d.files.len(),
            names == names_view(d.files@),
            paths_view(out@) == paths_not_named(d.path@, names.subrange(0, i as int), name@),
        decreases d.files.len() - i,
    {
        let ghost before = paths_view(out@);
        assert(names.subrange(0, i + 1).drop_last() =~= names.subrange(0, i as int));
        let stem = crate::path::name_without_extension(d.files[i].as_str());
        if !(stem == String::from_str(name)) {
            let p = d.path.join(d.files[i].as_str());
            out.push(p);
            assert(paths_view(out@) =~= before.push(d.path@.push(names[i as int])));
        }
        i = i + 1;
    }
    assert(names.subrange(0, i as int) =~= names);
    out
}

/// Builds the entries of a directory, or of a name inside one.
pub trait EntryFromNamedPath {
    /// Create an Entry from a file or directory inside the path with a given name, if it exists.
    fn has_entry_named(&self, name: String) -> Option<Entry>;

    /// Create an Entry from a file or directory.
    fn to_entry(&self) -> Option<Entry>;
}

impl EntryFromNamedPath for Directory {
    fn has_entry_named(&self, name: String) -> (r: Option<Entry>)
        ensures
            option_entry_view(r) == named_entry(*self, name@),
    {
        match self.first_file_named(name.as_str()) {
            Some(i) => Some(Entry::File(self.path.join(self.files[i].as_str()))),
            None => match self.first_directory_named(name.as_str()) {
                Some(j) => self.directories[j].to_entry(),
                None => None,
            },
        }
    }

    /// A directory is one entry only when it holds a root-marker file.
    fn to_entry(&self) -> (r: Option<Entry>)
        ensures
            option_entry_view(r) == sparse_entry(*self),
    {
        proof {
            assert(UNDERSCORE_FILE_NAME@ =~= underscore()) by {
                reveal_strlit("_");
            }
            assert(RENDERING_DIRECTORY@ =~= rendering_name()) by {
                reveal_strlit("rendering");
            }
            lemma_first_named_range(names_view(self.files@), underscore());
        }
        match self.first_file_named(UNDERSCORE_FILE_NAME) {
            None => None,
            Some(i) => {
                let root_file = self.path.join(self.files[i].as_str());
                let extra_files = file_paths_not_named(self, UNDERSCORE_FILE_NAME);
                match self.first_directory_named(RENDERING_DIRECTORY) {
                    None => Some(Entry::Directory { root_file, extra_files }),
                    Some(r) => Some(
                        Entry::RenderingDirectory {
                            root_file,
                            extra_files,
                            rendering_files: self.directories[r].file_paths(),
                        },
                    ),
                }
            },
        }
    }
}

} // verus!
