use vstd::prelude::*;
use vstd::string::*;

use crate::path::{FilePath, names_view, paths_view, stem_of};

verus! {

/// A read-only snapshot of a directory: its path, the names of the files directly
/// inside it and its subdirectories, each list in the order of the listing.
#[derive(Debug, PartialEq)]
pub struct Directory {
    pub path: FilePath,
    pub files: Vec<String>,
    pub directories: Vec<Directory>,
}

/// The paths of the named files inside the directory at `dir`.
pub open spec fn file_paths(dir: Seq<Seq<char>>, names: Seq<Seq<char>>) -> Seq<Seq<Seq<char>>> {
    Seq::new(names.len(), |i: int| dir.push(names[i]))
}

/// The position of the first name whose stem is `name`, or -1.
pub open spec fn first_named(names: Seq<Seq<char>>, name: Seq<char>) -> int
    decreases names.len(),
{
    if names.len() == 0 {
        -1
    } else {
        let r = first_named(names.drop_last(), name);
        if r >= 0 {
            r
        } else if stem_of(names.last()) == name {
            names.len() - 1
        } else {
            -1
        }
    }
}

/// The last name of a directory's path.
pub open spec fn dir_name(d: Directory) -> Seq<char> {
    if d.path@.len() > 0 {
        d.path@.last()
    } else {
        Seq::empty()
    }
}

/// The position of the first directory called exactly `name`, or -1.
pub open spec fn first_dir_named(dirs: Seq<Directory>, name: Seq<char>) -> int
    decreases dirs.len(),
{
    if dirs.len() == 0 {
        -1
    } else {
        let r = first_dir_named(dirs.drop_last(), name);
        if r >= 0 {
            r
        } else if dir_name(dirs.last()) == name {
            dirs.len() - 1
        } else {
            -1
        }
    }
}

pub proof fn lemma_first_named_prefix(names: Seq<Seq<char>>, name: Seq<char>, n: int)
    requires
        0 <= n <= names.len(),
        first_named(names.subrange(0, n), name) >= 0,
    ensures
        first_named(names, name) == first_named(names.subrange(0, n), name),
    decreases names.len() - n,
{
    if n < names.len() {
        assert(names.drop_last().subrange(0, n) =~= names.subrange(0, n));
        lemma_first_named_prefix(names.drop_last(), name, n);
    } else {
        assert(names.subrange(0, n) =~= names);
    }
}

pub proof fn lemma_first_named_range(names: Seq<Seq<char>>, name: Seq<char>)
    ensures
        -1 <= first_named(names, name) < names.len(),
        first_named(names, name) >= 0 ==> stem_of(names[first_named(names, name)]) == name,
    decreases names.len(),
{
    if names.len() > 0 {
        lemma_first_named_range(names.drop_last(), name);
    }
}

proof fn lemma_first_dir_named_prefix(dirs: Seq<Directory>, name: Seq<char>, n: int)
    requires
        0 <= n <= dirs.len(),
        first_dir_named(dirs.subrange(0, n), name) >= 0,
    ensures
        first_dir_named(dirs, name) == first_dir_named(dirs.subrange(0, n), name),
    decreases dirs.len() - n,
{
    if n < dirs.len() {
        assert(dirs.drop_last().subrange(0, n) =~= dirs.subrange(0, n));
        lemma_first_dir_named_prefix(dirs.drop_last(), name, n);
    } else {
        assert(dirs.subrange(0, n) =~= dirs);
    }
}

pub proof fn lemma_first_dir_named_range(dirs: Seq<Directory>, name: Seq<char>)
    ensures
        -1 <= first_dir_named(dirs, name) < dirs.len(),
    decreases dirs.len(),
{
    if dirs.len() > 0 {
        lemma_first_dir_named_range(dirs.drop_last(), name);
    }
}

impl Directory {
    /// The position of the first file whose name without extension is `name`.
    pub fn first_file_named(&self, name: &str) -> (r: Option<usize>)
        ensures
            match r {
                Some(i) => i < self.files.len() && i == first_named(names_view(self.files@), name@),
                None => first_named(names_view(self.files@), name@) == -1,
            },
    {
        let ghost names = names_view(self.files@);
        let mut i: usize = 0;
        while i < self.files.len()
            invariant
                i <= self.files.len(),
                names == names_view(self.files@),
                first_named(names.subrange(0, i as int), name@) == -1,
            decreases self.files.len() - i,
        {
            let ghost next = names.subrange(0, i + 1);
            assert(next.drop_last() =~= names.subrange(0, i as int));
            let stem = crate::path::name_without_extension(self.files[i].as_str());
            if stem == String::from_str(name) {
                proof {
                    lemma_first_named_prefix(names, name@, i + 1);
                }
                return Some(i);
            }
            i = i + 1;
        }
        assert(names.subrange(0, i as int) =~= names);
        None
    }

    /// The position of the first subdirectory called exactly `name`.
    pub fn first_directory_named(&self, name: &str) -> (r: Option<usize>)
        ensures
            match r {
                Some(i) => i < self.directories.len() && i == first_dir_named(
                    self.directories@,
                    name@,
                ),
                None => first_dir_named(self.directories@, name@) == -1,
            },
    {
        let ghost dirs = self.directories@;
        let mut i: usize = 0;
        while i < self.directories.len()
            invariant
                i <= self.directories.len(),
                dirs == self.directories@,
                first_dir_named(dirs.subrange(0, i as int), name@) == -1,
            decreases self.directories.len() - i,
        {
            let ghost next = dirs.subrange(0, i + 1);
            assert(next.drop_last() =~= dirs.subrange(0, i as int));
            let d = &self.directories[i];
            let n = d.path.parts.len();
            let matches = if n > 0 {
                d.path.parts[n - 1] == String::from_str(name)
            } else {
                name.unicode_len() == 0
            };
            proof {
                if n == 0 && matches {
                    assert(name@ =~= Seq::<char>::empty());
                }
            }
            if matches {
                proof {
                    lemma_first_dir_named_prefix(dirs, name@, i + 1);
                }
                return Some(i);
            }
            i = i + 1;
        }
        assert(dirs.subrange(0, i as int) =~= dirs);
        None
    }

    /// The paths of the files directly inside this directory.
    pub fn file_paths(&self) -> (r: Vec<FilePath>)
        ensures
            paths_view(r@) == file_paths(self.path@, names_view(self.files@)),
    {
        let mut out: Vec<FilePath> = Vec::new();
        let mut i: usize = 0;
        while i < self.files.len()
            invariant
                i <= self.files.len(),
                out.len() == i,
                forall|j: int| 0 <= j < i ==> out[j]@ == self.path@.push(#[trigger] self.files[j]@),
            decreases self.files.len() - i,
        {
            out.push(self.path.join(self.files[i].as_str()));
            i = i + 1;
        }
        assert(paths_view(out@) =~= file_paths(self.path@, names_view(self.files@)));
        out
    }
}

/// The children of a directory: its files, then its subdirectories.
pub open spec fn children_of(d: Directory) -> Seq<Seq<Seq<char>>> {
    file_paths(d.path@, names_view(d.files@)) + Seq::new(
        d.directories.len() as nat,
        |i: int| d.directories[i].path@,
    )
}

/// Paths that have children in a directory snapshot.
pub trait ChildrenPaths {
    /// The paths of all entries inside a directory.
    fn get_children(&self) -> Vec<FilePath>;

    /// Finds the first file in a directory with a specific name, regardless of its extension.
    fn get_first_child_named(&self, name: &str) -> Option<FilePath>;
}

impl ChildrenPaths for Directory {
    /// The files come first, then the subdirectories, each in the listing's order.
    fn get_children(&self) -> (r: Vec<FilePath>)
        ensures
            paths_view(r@) == children_of(*self),
    {
        let mut out = self.file_paths();
        let ghost files = paths_view(out@);
        let mut i: usize = 0;
        while i < self.directories.len()
            invariant
                i <= self.directories.len(),
                out.len() == files.len() + i,
                forall|j: int| 0 <= j < files.len() ==> out[j]@ == files[j],
                forall|j: int|
                    0 <= j < i ==> out[files.len() + j]@ == (#[trigger] self.directories[j]).path@,
            decreases self.directories.len() - i,
        {
            out.push(self.directories[i].path.duplicate());
            i = i + 1;
        }
        assert(paths_view(out@) =~= children_of(*self));
        out
    }

    fn get_first_child_named(&self, name: &str) -> (r: Option<FilePath>)
        ensures
            r is Some <==> first_named(names_view(self.files@), name@) >= 0,
            r is Some ==> r->0@ == self.path@.push(
                names_view(self.files@)[first_named(names_view(self.files@), name@)],
            ),
    {
        get_files_with_name(self, name)
    }
}

/// Finds the first file in a directory with a specific name, regardless of its extension.
pub fn get_files_with_name(directory: &Directory, name: &str) -> (r: Option<FilePath>)
    ensures
        r is Some <==> first_named(names_view(directory.files@), name@) >= 0,
        r is Some ==> r->0@ == directory.path@.push(
            names_view(directory.files@)[first_named(names_view(directory.files@), name@)],
        ),
{
    match directory.first_file_named(name) {
        Some(i) => Some(directory.path.join(directory.files[i].as_str())),
        None => None,
    }
}

} // verus!
