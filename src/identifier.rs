use vstd::prelude::*;
use vstd::string::*;

use crate::path::{
    FilePath, is_plain_name, is_plain_path, names_view, parent_dir_name, current_dir_name, path_is_named,
    stem_of, name_without_extension,
};

verus! {

/// The name of the file that marks the root of a sparse directory.
pub const UNDERSCORE_FILE_NAME: &'static str = "_";

/// The text `_`.
pub open spec fn underscore() -> Seq<char> {
    seq!['_']
}

/// The number of leading names that two paths share.
pub open spec fn common_prefix_len(a: Seq<Seq<char>>, b: Seq<Seq<char>>) -> nat
    decreases a.len(),
{
    if a.len() == 0 || b.len() == 0 || a[0] != b[0] {
        0
    } else {
        1 + common_prefix_len(a.drop_first(), b.drop_first())
    }
}

/// The way from `base` to `path`: one `..` for each name of `base` past what the
/// two share, then the rest of `path`.
pub open spec fn relative_names(path: Seq<Seq<char>>, base: Seq<Seq<char>>) -> Seq<Seq<char>> {
    let k = common_prefix_len(path, base) as int;
    Seq::new((base.len() - k) as nat, |i: int| parent_dir_name()) + path.subrange(k, path.len() as int)
}

/// The names of a path that are neither `.` nor `..`.
pub open spec fn without_noop_names(names: Seq<Seq<char>>) -> Seq<Seq<char>>
    decreases names.len(),
{
    if names.len() == 0 {
        names
    } else {
        let rest = without_noop_names(names.drop_last());
        if names.last() == parent_dir_name() || names.last() == current_dir_name() {
            rest
        } else {
            rest.push(names.last())
        }
    }
}

/// Names joined with `_`.
pub open spec fn join_with_underscore(names: Seq<Seq<char>>) -> Seq<char>
    decreases names.len(),
{
    if names.len() == 0 {
        Seq::empty()
    } else if names.len() == 1 {
        names[0]
    } else {
        join_with_underscore(names.drop_last()) + underscore() + names.last()
    }
}

/// Names with the extension of the last one taken off.
pub open spec fn strip_last_extension(names: Seq<Seq<char>>) -> Seq<Seq<char>> {
    if names.len() == 0 {
        names
    } else {
        names.update(names.len() - 1, stem_of(names.last()))
    }
}

/// The path that stands for an anchor: a root-marker file stands for its directory.
pub open spec fn effective_anchor(anchor: Seq<Seq<char>>) -> Seq<Seq<char>> {
    if path_is_named(anchor, underscore()) {
        anchor.drop_last()
    } else {
        anchor
    }
}

/// The identifier of `anchor` relative to `base`.
pub open spec fn identifier_of(anchor: Seq<Seq<char>>, base: Seq<Seq<char>>) -> Seq<char> {
    let rel = relative_names(effective_anchor(anchor), base);
    join_with_underscore(strip_last_extension(without_noop_names(rel)))
}

/// Relies on pathdiff::diff_paths: for two absolute paths made of plain names it
/// returns the way from the base to the path, one `..` for each name of the base
/// past their longest shared prefix, then the rest of the path. The paths are made
/// absolute here, both from the same root.
#[verifier::external_body]
fn relative_parts(path: &FilePath, base: &FilePath) -> (r: Option<Vec<String>>)
    ensures
        is_plain_path(path@) && is_plain_path(base@) ==> r is Some && names_view(r->0@)
            == relative_names(path@, base@),
{
    let mut p = std::path::PathBuf::from("/");
    p.extend(path.parts.iter());
    let mut b = std::path::PathBuf::from("/");
    b.extend(base.parts.iter());
    pathdiff::diff_paths(&p, &b).map(
        |d| d.components().map(|c| c.as_os_str().to_string_lossy().into_owned()).collect(),
    )
}

proof fn lemma_common_prefix(a: Seq<Seq<char>>, b: Seq<Seq<char>>)
    ensures
        common_prefix_len(a, b) <= a.len(),
        common_prefix_len(a, b) <= b.len(),
    decreases a.len(),
{
    if !(a.len() == 0 || b.len() == 0 || a[0] != b[0]) {
        lemma_common_prefix(a.drop_first(), b.drop_first());
    }
}

proof fn lemma_without_noop_ups(n: nat)
    ensures
        without_noop_names(Seq::new(n, |i: int| parent_dir_name())) == Seq::<Seq<char>>::empty(),
    decreases n,
{
    if n > 0 {
        let s = Seq::new(n, |i: int| parent_dir_name());
        assert(s.drop_last() =~= Seq::new((n - 1) as nat, |i: int| parent_dir_name()));
        lemma_without_noop_ups((n - 1) as nat);
    }
}

proof fn lemma_without_noop_plain(ups: Seq<Seq<char>>, rest: Seq<Seq<char>>)
    requires
        without_noop_names(ups) == Seq::<Seq<char>>::empty(),
        is_plain_path(rest),
    ensures
        without_noop_names(ups + rest) == rest,
    decreases rest.len(),
{
    if rest.len() == 0 {
        assert(ups + rest =~= ups);
    } else {
        assert((ups + rest).drop_last() =~= ups + rest.drop_last());
        lemma_without_noop_plain(ups, rest.drop_last());
        assert(is_plain_name(rest[rest.len() - 1]));
        assert(rest.drop_last().push(rest.last()) =~= rest);
    }
}

/// The names of a relative path, without `.` and `..`.
fn drop_noop_names(names: &Vec<String>) -> (r: Vec<String>)
    ensures
        names_view(r@) == without_noop_names(names_view(names@)),
{
    let mut out: Vec<String> = Vec::new();
    let mut i: usize = 0;
    while i < names.len()
        invariant
            i <= names.len(),
            names_view(out@) == without_noop_names(names_view(names@).subrange(0, i as int)),
        decreases names.len() - i,
    {
        let ghost before = names_view(names@).subrange(0, i as int);
        let ghost next = names_view(names@).subrange(0, i + 1);
        assert(next.drop_last() =~= before);
        let name = names[i].as_str();
        let dotdot = String::from_str("..");
        let dot = String::from_str(".");
        proof {
            reveal_strlit("..");
            reveal_strlit(".");
            assert(dotdot@ =~= parent_dir_name());
            assert(dot@ =~= current_dir_name());
        }
        if !(names[i] == dotdot) && !(names[i] == dot) {
            out.push(String::from_str(name));
            assert(names_view(out@) =~= without_noop_names(before).push(names[i as int]@));
        }
        i = i + 1;
    }
    assert(names_view(names@).subrange(0, names.len() as int) =~= names_view(names@));
    out
}

/// Joins names with `_`, taking the extension off the last one.
fn join_identifier(names: &Vec<String>) -> (r: String)
    ensures
        r@ == join_with_underscore(strip_last_extension(names_view(names@))),
{
    let n = names.len();
    let ghost stripped = strip_last_extension(names_view(names@));
    let mut out = String::new();
    let mut i: usize = 0;
    while i < n
        invariant
            n == names.len(),
            i <= n,
            stripped == strip_last_extension(names_view(names@)),
            stripped.len() == n,
            out@ == join_with_underscore(stripped.subrange(0, i as int)),
        decreases n - i,
    {
        let ghost next = stripped.subrange(0, i + 1);
        assert(next.drop_last() =~= stripped.subrange(0, i as int));
        let part = if i + 1 == n {
            name_without_extension(names[i].as_str())
        } else {
            String::from_str(names[i].as_str())
        };
        assert(part@ == stripped[i as int]);
        if i > 0 {
            out.append("_");
            proof {
                assert("_"@ =~= underscore()) by {
                    reveal_strlit("_");
                }
            }
        } else {
            assert(next =~= seq![stripped[0]]);
        }
        out.append(part.as_str());
        i = i + 1;
    }
    assert(stripped.subrange(0, n as int) =~= stripped);
    out
}

/// Paths that can name an entry relative to a base path.
pub trait IdentifierPaths {
    /// Returns a String identifier for a path, using the relative path between it and a base path.
    fn get_id_from_path(&self, base: &FilePath) -> Option<String>;
}

impl IdentifierPaths for FilePath {
    /// A root-marker file stands for its directory. The identifier joins the names
    /// on the way from `base` to the path with `_`, without `.` and `..`, and
    /// without the extension of the last name. Paths that hold a name that is not
    /// plain have no identifier.
    fn get_id_from_path(&self, base: &FilePath) -> (r: Option<String>)
        ensures
            r is Some <==> is_plain_path(self@) && is_plain_path(base@),
            r is Some ==> r->0@ == identifier_of(self@, base@),
    {
        if !self.is_plain() || !base.is_plain() {
            return None;
        }
        let anchor = if crate::path::is_file_name(self, UNDERSCORE_FILE_NAME) {
            proof {
                assert(UNDERSCORE_FILE_NAME@ =~= underscore()) by {
                    reveal_strlit("_");
                }
            }
            self.parent()
        } else {
            proof {
                assert(UNDERSCORE_FILE_NAME@ =~= underscore()) by {
                    reveal_strlit("_");
                }
            }
            self.duplicate()
        };
        assert(anchor@ == effective_anchor(self@));
        assert(is_plain_path(anchor@)) by {
            assert forall|i: int| 0 <= i < anchor@.len() implies crate::path::is_plain_name(
                #[trigger] anchor@[i],
            ) by {
                assert(anchor@[i] == self@[i]);
            }
        }
        match relative_parts(&anchor, base) {
            Some(rel) => {
                proof {
                    let k = common_prefix_len(anchor@, base@) as int;
                    lemma_common_prefix(anchor@, base@);
                    let ups = Seq::new((base@.len() - k) as nat, |i: int| parent_dir_name());
                    let rest = anchor@.subrange(k, anchor@.len() as int);
                    assert(is_plain_path(rest)) by {
                        assert forall|i: int| 0 <= i < rest.len() implies crate::path::is_plain_name(
                            #[trigger] rest[i],
                        ) by {
                            assert(rest[i] == anchor@[i + k]);
                        }
                    }
                    lemma_without_noop_ups((base@.len() - k) as nat);
                    lemma_without_noop_plain(ups, rest);
                }
                let names = drop_noop_names(&rel);
                Some(join_identifier(&names))
            },
            None => None,
        }
    }
}

} // verus!
