use vstd::prelude::*;
use vstd::string::*;

use crate::entry::{Entry, EntryFromNamedPath, EntryView, entries_view, named_entry};
use crate::entry_set::{EntrySet, EntrySetFromPath, walk};
use crate::path::FilePath;
use crate::tree::{Directory, first_dir_named};

verus! {

/// The name of the directory or file that holds the module information.
pub const MODULE: &'static str = "module";

/// The name of the directory that holds the types.
pub const TYPES_DIRECTORY: &'static str = "types";

/// The name of the directory that holds the contents.
pub const CONTENTS_DIRECTORY: &'static str = "contents";

/// The errors that can happen when mapping a directory to a file system.
#[derive(Debug, PartialEq)]
pub enum FileSystemError {
    /// A directory was expected, but the path names a file.
    ExpectedDirectory(String),
    /// The path names nothing that can be read.
    InvalidPath(String),
    /// A required entry is missing.
    MissingRequiredEntry(String),
}

/// A module's files, as found in a directory.
#[derive(Debug, PartialEq)]
pub struct FileSystem {
    /// The root directory this FileSystem was built from.
    pub root_directory: FilePath,
    /// The module information.
    pub module: Entry,
    /// An optional set of entries that define types.
    pub types: Option<EntrySet>,
    /// An optional set of entries that define contents.
    pub contents: Option<EntrySet>,
}

/// The model of an [`EntrySet`]: its base path and its entries.
pub open spec fn entry_set_view(s: EntrySet) -> (Seq<Seq<char>>, Seq<EntryView>) {
    (s.base_path@, entries_view(s.entries@))
}

/// The model of an optional [`EntrySet`].
pub open spec fn optional_entry_set_view(s: Option<EntrySet>) -> Option<(Seq<Seq<char>>, Seq<EntryView>)> {
    match s {
        Some(s) => Some(entry_set_view(s)),
        None => None,
    }
}

/// The model of a [`FileSystem`].
pub ghost struct FileSystemView {
    pub root_directory: Seq<Seq<char>>,
    pub module: EntryView,
    pub types: Option<(Seq<Seq<char>>, Seq<EntryView>)>,
    pub contents: Option<(Seq<Seq<char>>, Seq<EntryView>)>,
}

impl View for FileSystem {
    type V = FileSystemView;

    open spec fn view(&self) -> FileSystemView {
        FileSystemView {
            root_directory: self.root_directory@,
            module: self.module@,
            types: optional_entry_set_view(self.types),
            contents: optional_entry_set_view(self.contents),
        }
    }
}

/// The entries under the subdirectory of `root` called exactly `name`, if there is one.
pub open spec fn entries_under(root: Directory, name: Seq<char>) -> Option<(Seq<Seq<char>>, Seq<EntryView>)> {
    let i = first_dir_named(root.directories@, name);
    if i < 0 {
        None
    } else {
        Some((root.directories[i].path@, walk(root.directories[i])))
    }
}

/// The file system of a module directory: the module entry, and the entries
/// under its `types` and `contents` directories; nothing without a module entry.
pub open spec fn file_system_of(root: Directory) -> Option<FileSystemView> {
    match named_entry(root, MODULE@) {
        None => None,
        Some(module) => Some(
            FileSystemView {
                root_directory: root.path@,
                module,
                types: entries_under(root, TYPES_DIRECTORY@),
                contents: entries_under(root, CONTENTS_DIRECTORY@),
            },
        ),
    }
}

/// The entries under the subdirectory called `name`, if there is one.
fn entry_set_under(root: &Directory, name: &str) -> (r: Option<EntrySet>)
    ensures
        optional_entry_set_view(r) == entries_under(*root, name@),
{
    proof {
        crate::tree::lemma_first_dir_named_range(root.directories@, name@);
    }
    match root.first_directory_named(name) {
        Some(i) => root.directories[i].to_entry_set(),
        None => None,
    }
}

/// What [`FileSystem::try_from`] gives for a directory: the missing-entry error
/// when no module entry resolves, the directory's file system otherwise.
pub open spec fn file_system_outcome(root: Directory, r: Result<FileSystem, FileSystemError>) -> bool {
    match file_system_of(root) {
        None => r matches Err(FileSystemError::MissingRequiredEntry(name)) && name@ == MODULE@,
        Some(fs) => r matches Ok(v) && v@ == fs,
    }
}

impl FileSystem {
    /// A file system holding only the module entry.
    pub fn new(root_directory: FilePath, module: Entry) -> (r: FileSystem)
        ensures
            r.root_directory == root_directory,
            r.module == module,
            r.types is None,
            r.contents is None,
    {
        FileSystem { root_directory, module, types: None, contents: None }
    }

    /// This file system, with the given types.
    pub fn with_types(self, types: EntrySet) -> (r: FileSystem)
        ensures
            r == (FileSystem { types: Some(types), ..self }),
    {
        FileSystem { types: Some(types), ..self }
    }

    /// This file system, with the given contents.
    pub fn with_contents(self, contents: EntrySet) -> (r: FileSystem)
        ensures
            r == (FileSystem { contents: Some(contents), ..self }),
    {
        FileSystem { contents: Some(contents), ..self }
    }

    /// Maps a module directory: it must hold a `module` entry, a file or a sparse
    /// directory; its `types` and `contents` directories, when present, are mapped
    /// to entry sets.
    pub fn try_from(root: &Directory) -> (r: Result<FileSystem, FileSystemError>)
        ensures
            file_system_outcome(*root, r),
    {
        match root.has_entry_named(String::from_str(MODULE)) {
            None => Err(FileSystemError::MissingRequiredEntry(String::from_str(MODULE))),
            Some(module) => {
                let types = entry_set_under(root, TYPES_DIRECTORY);
                let contents = entry_set_under(root, CONTENTS_DIRECTORY);
                Ok(FileSystem { root_directory: root.path.duplicate(), module, types, contents })
            },
        }
    }
}

/// A module directory in which `module` resolves to no entry is refused with the
/// error that names the missing `module` entry, whatever else it holds.
pub proof fn lemma_missing_module_entry(root: Directory, r: Result<FileSystem, FileSystemError>)
    requires
        named_entry(root, MODULE@) is None,
        file_system_outcome(root, r),
    ensures
        r matches Err(FileSystemError::MissingRequiredEntry(name)) && name@ == MODULE@,
{
}

} // verus!
