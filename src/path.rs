use vstd::prelude::*;
use vstd::string::*;

verus! {

/// A path inside a directory snapshot, as the sequence of names that lead to it
/// from the snapshot's root.
#[derive(Debug, PartialEq, Eq, PartialOrd, Ord, Hash)]
pub struct FilePath {
    pub parts: Vec<String>,
}

/// The model of a list of names.
pub open spec fn names_view(names: Seq<String>) -> Seq<Seq<char>> {
    Seq::new(names.len(), |i: int| names[i]@)
}

/// The model of a list of paths.
pub open spec fn paths_view(paths: Seq<FilePath>) -> Seq<Seq<Seq<char>>> {
    Seq::new(paths.len(), |i: int| paths[i]@)
}

impl View for FilePath {
    type V = Seq<Seq<char>>;

    open spec fn view(&self) -> Seq<Seq<char>> {
        names_view(self.parts@)
    }
}

/// The text `..`.
pub open spec fn parent_dir_name() -> Seq<char> {
    seq!['.', '.']
}

/// The text `.`.
pub open spec fn current_dir_name() -> Seq<char> {
    seq!['.']
}

/// The position of the last `.` in a name, or -1.
pub open spec fn last_dot(name: Seq<char>) -> int
    decreases name.len(),
{
    if name.len() == 0 {
        -1
    } else if name.last() == '.' {
        name.len() - 1
    } else {
        last_dot(name.drop_last())
    }
}

/// Whether a name has an extension: a `.` that is not its first character,
/// the name `..` aside.
pub open spec fn has_extension(name: Seq<char>) -> bool {
    name != parent_dir_name() && last_dot(name) > 0
}

/// A name without its extension.
pub open spec fn stem_of(name: Seq<char>) -> Seq<char> {
    if has_extension(name) {
        name.subrange(0, last_dot(name))
    } else {
        name
    }
}

/// A plain name: not empty, without `/`, and neither `.` nor `..`.
pub open spec fn is_plain_name(name: Seq<char>) -> bool {
    &&& name.len() > 0
    &&& forall|i: int| 0 <= i < name.len() ==> name[i] != '/'
    &&& name != current_dir_name()
    &&& name != parent_dir_name()
}

/// A path all of whose names are plain.
pub open spec fn is_plain_path(p: Seq<Seq<char>>) -> bool {
    forall|i: int| 0 <= i < p.len() ==> is_plain_name(#[trigger] p[i])
}

/// Whether the last name of a path, without its extension, is `name`.
pub open spec fn path_is_named(p: Seq<Seq<char>>, name: Seq<char>) -> bool {
    p.len() > 0 && stem_of(p.last()) == name
}

pub proof fn lemma_last_dot_prefix(name: Seq<char>, n: int)
    requires
        0 <= n <= name.len(),
        forall|j: int| n <= j < name.len() ==> name[j] != '.',
    ensures
        last_dot(name) == last_dot(name.subrange(0, n)),
    decreases name.len() - n,
{
    if n < name.len() {
        assert(name.drop_last().subrange(0, n) =~= name.subrange(0, n));
        lemma_last_dot_prefix(name.drop_last(), n);
    } else {
        assert(name.subrange(0, n) =~= name);
    }
}

proof fn lemma_last_dot_range(name: Seq<char>)
    ensures
        -1 <= last_dot(name) < name.len(),
    decreases name.len(),
{
    if name.len() > 0 {
        lemma_last_dot_range(name.drop_last());
    }
}

/// The position of the last `.` in a name, if any.
fn find_last_dot(name: &str) -> (r: Option<usize>)
    ensures
        match r {
            Some(i) => i == last_dot(name@),
            None => last_dot(name@) == -1,
        },
{
    let n = name.unicode_len();
    let mut i: usize = n;
    while i > 0
        invariant
            i <= n,
            n == name@.len(),
            forall|j: int| i <= j < n ==> name@[j] != '.',
        decreases i,
    {
        if name.get_char(i - 1) == '.' {
            proof {
                lemma_last_dot_prefix(name@, i as int);
            }
            return Some(i - 1);
        }
        i = i - 1;
    }
    proof {
        lemma_last_dot_prefix(name@, 0);
    }
    None
}

/// Whether a name is `..`.
fn is_parent_dir_name(name: &str) -> (r: bool)
    ensures
        r == (name@ == parent_dir_name()),
{
    if name.unicode_len() == 2 && name.get_char(0) == '.' && name.get_char(1) == '.' {
        assert(name@ =~= parent_dir_name());
        true
    } else {
        false
    }
}

/// A file or directory name without its extension.
pub fn name_without_extension(name: &str) -> (r: String)
    ensures
        r@ == stem_of(name@),
{
    proof {
        lemma_last_dot_range(name@);
    }
    match find_last_dot(name) {
        Some(i) => {
            if i > 0 && !is_parent_dir_name(name) {
                String::from_str(name.substring_char(0, i))
            } else {
                String::from_str(name)
            }
        },
        None => String::from_str(name),
    }
}

/// Whether a name is plain: not empty, without `/`, and neither `.` nor `..`.
pub fn is_plain(name: &str) -> (r: bool)
    ensures
        r == is_plain_name(name@),
{
    let n = name.unicode_len();
    if n == 0 || is_parent_dir_name(name) {
        return false;
    }
    if n == 1 && name.get_char(0) == '.' {
        assert(name@ =~= current_dir_name());
        return false;
    }
    let mut i: usize = 0;
    while i < n
        invariant
            i <= n,
            n == name@.len(),
            forall|j: int| 0 <= j < i ==> name@[j] != '/',
        decreases n - i,
    {
        if name.get_char(i) == '/' {
            return false;
        }
        i = i + 1;
    }
    proof {
        if name@ == current_dir_name() {
            assert(name@.len() == 1);
        }
    }
    true
}

/// Checks if a file has a certain name, regardless of its extension.
pub fn is_file_name(path: &FilePath, file_name: &str) -> (r: bool)
    ensures
        r == path_is_named(path@, file_name@),
{
    let n = path.parts.len();
    if n == 0 {
        return false;
    }
    let stem = name_without_extension(path.parts[n - 1].as_str());
    stem == String::from_str(file_name)
}

impl FilePath {
    /// The path of the snapshot's root.
    pub fn root() -> (r: FilePath)
        ensures
            r@ == Seq::<Seq<char>>::empty(),
    {
        let r = FilePath { parts: Vec::new() };
        assert(r@ =~= Seq::<Seq<char>>::empty());
        r
    }

    /// The path made of the given names.
    pub fn new(parts: Vec<String>) -> (r: FilePath)
        ensures
            r@ == names_view(parts@),
    {
        FilePath { parts }
    }

    /// The path of the entry `name` inside this directory.
    pub fn join(&self, name: &str) -> (r: FilePath)
        ensures
            r@ == self@.push(name@),
    {
        let mut parts = self.parts.clone();
        parts.push(String::from_str(name));
        let r = FilePath { parts };
        assert(r@ =~= self@.push(name@));
        r
    }

    /// The path of the directory that holds this one; the root's parent is the root.
    pub fn parent(&self) -> (r: FilePath)
        ensures
            self@.len() > 0 ==> r@ == self@.drop_last(),
            self@.len() == 0 ==> r@ == self@,
    {
        let mut parts = self.parts.clone();
        if parts.len() > 0 {
            parts.pop();
        }
        let r = FilePath { parts };
        assert(r@ =~= if self@.len() > 0 { self@.drop_last() } else { self@ });
        r
    }

    /// A copy of this path.
    pub fn duplicate(&self) -> (r: FilePath)
        ensures
            r@ == self@,
    {
        let r = FilePath { parts: self.parts.clone() };
        assert(r@ =~= self@);
        r
    }

    /// Whether every name of the path is plain.
    pub fn is_plain(&self) -> (r: bool)
        ensures
            r == is_plain_path(self@),
    {
        let mut i: usize = 0;
        while i < self.parts.len()
            invariant
                i <= self.parts.len(),
                forall|j: int| 0 <= j < i ==> is_plain_name(#[trigger] self@[j]),
            decreases self.parts.len() - i,
        {
            if !is_plain(self.parts[i].as_str()) {
                assert(!is_plain_name(self@[i as int]));
                return false;
            }
            i = i + 1;
        }
        true
    }
}

/// Copies a list of paths.
pub fn duplicate_paths(paths: &Vec<FilePath>) -> (r: Vec<FilePath>)
    ensures
        paths_view(r@) == paths_view(paths@),
{
    let mut out: Vec<FilePath> = Vec::new();
    let mut i: usize = 0;
    while i < paths.len()
        invariant
            i <= paths.len(),
            out.len() == i,
            forall|j: int| 0 <= j < i ==> out[j]@ == paths[j]@,
        decreases paths.len() - i,
    {
        out.push(paths[i].duplicate());
        i = i + 1;
    }
    assert(paths_view(out@) =~= paths_view(paths@));
    out
}

/// Paths made of names: the name of a file or directory, and whether it is
/// named a certain way regardless of extension.
pub trait NamePaths {
    /// Checks if a file has a certain name, regardless of its extension.
    fn is_named(&self, file_name: &str) -> bool;

    /// Gets the file or directory name, excluding any file extension.
    fn get_name_without_extension(&self) -> String;
}

impl NamePaths for FilePath {
    fn is_named(&self, file_name: &str) -> (r: bool)
        ensures
            r == path_is_named(self@, file_name@),
    {
        is_file_name(self, file_name)
    }

    /// The root, which has no name, gives the empty string.
    fn get_name_without_extension(&self) -> (r: String)
        ensures
            self@.len() > 0 ==> r@ == stem_of(self@.last()),
            self@.len() == 0 ==> r@ == Seq::<char>::empty(),
    {
        let n = self.parts.len();
        if n == 0 {
            String::new()
        } else {
            name_without_extension(self.parts[n - 1].as_str())
        }
    }
}

} // verus!
