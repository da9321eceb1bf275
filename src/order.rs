use vstd::prelude::*;
use vstd::multiset::Multiset;
use vstd::string::*;

use crate::path::{FilePath, names_view, paths_view};

verus! {

broadcast use vstd::seq_lib::to_multiset_insert, vstd::seq_lib::to_multiset_len,
    vstd::multiset::lemma_multiset_empty_len;

/// Whether name `a` comes strictly before name `b`, character by character.
pub open spec fn name_lt(a: Seq<char>, b: Seq<char>) -> bool
    decreases a.len(),
{
    if a.len() == 0 {
        b.len() > 0
    } else if b.len() == 0 {
        false
    } else if a[0] != b[0] {
        a[0] < b[0]
    } else {
        name_lt(a.drop_first(), b.drop_first())
    }
}

/// Whether name `a` comes before name `b` or is the same name.
pub open spec fn name_le(a: Seq<char>, b: Seq<char>) -> bool {
    a == b || name_lt(a, b)
}

/// Whether names are in order.
pub open spec fn names_in_order(names: Seq<Seq<char>>) -> bool {
    forall|i: int, j: int| 0 <= i < j < names.len() ==> name_le(names[i], names[j])
}

proof fn lemma_lt_transitive(a: Seq<char>, b: Seq<char>, c: Seq<char>)
    requires
        name_lt(a, b),
        name_lt(b, c),
    ensures
        name_lt(a, c),
    decreases a.len(),
{
    if a.len() > 0 && b.len() > 0 && c.len() > 0 && a[0] == b[0] && b[0] == c[0] {
        lemma_lt_transitive(a.drop_first(), b.drop_first(), c.drop_first());
    }
}

proof fn lemma_lt_total(a: Seq<char>, b: Seq<char>)
    ensures
        a == b || name_lt(a, b) || name_lt(b, a),
    decreases a.len(),
{
    if a.len() > 0 && b.len() > 0 && a[0] == b[0] {
        lemma_lt_total(a.drop_first(), b.drop_first());
        if a.drop_first() == b.drop_first() {
            assert(a =~= seq![a[0]] + a.drop_first());
            assert(b =~= seq![b[0]] + b.drop_first());
        }
    } else if a.len() == 0 && b.len() == 0 {
        assert(a =~= b);
    } else if a.len() > 0 && b.len() > 0 {
    }
}

proof fn lemma_lt_prefix(a: Seq<char>, b: Seq<char>, i: int)
    requires
        0 <= i <= a.len(),
        i <= b.len(),
        a.subrange(0, i) == b.subrange(0, i),
    ensures
        name_lt(a, b) == name_lt(a.subrange(i, a.len() as int), b.subrange(i, b.len() as int)),
    decreases i,
{
    if i > 0 {
        assert(a[0] == a.subrange(0, i)[0]);
        assert(b[0] == b.subrange(0, i)[0]);
        assert(a.drop_first().subrange(0, i - 1) =~= a.subrange(0, i).drop_first());
        assert(b.drop_first().subrange(0, i - 1) =~= b.subrange(0, i).drop_first());
        lemma_lt_prefix(a.drop_first(), b.drop_first(), i - 1);
        assert(a.drop_first().subrange(i - 1, a.len() - 1) =~= a.subrange(i, a.len() as int));
        assert(b.drop_first().subrange(i - 1, b.len() - 1) =~= b.subrange(i, b.len() as int));
    } else {
        assert(a.subrange(0, a.len() as int) =~= a);
        assert(b.subrange(0, b.len() as int) =~= b);
    }
}

/// Whether name `a` comes strictly before name `b`.
pub fn name_less(a: &str, b: &str) -> (r: bool)
    ensures
        r == name_lt(a@, b@),
{
    let n = a.unicode_len();
    let m = b.unicode_len();
    let mut i: usize = 0;
    while i < n && i < m
        invariant
            i <= n,
            i <= m,
            n == a@.len(),
            m == b@.len(),
            a@.subrange(0, i as int) == b@.subrange(0, i as int),
        decreases n - i,
    {
        let x = a.get_char(i);
        let y = b.get_char(i);
        if x != y {
            proof {
                lemma_lt_prefix(a@, b@, i as int);
                assert(a@.subrange(i as int, n as int)[0] == x);
                assert(b@.subrange(i as int, m as int)[0] == y);
            }
            return x < y;
        }
        assert(a@.subrange(0, i + 1) =~= a@.subrange(0, i as int).push(x));
        assert(b@.subrange(0, i + 1) =~= b@.subrange(0, i as int).push(y));
        i = i + 1;
    }
    proof {
        lemma_lt_prefix(a@, b@, i as int);
    }
    i == n && i < m
}

/// The names in order, character by character: the order in which a directory's
/// entries are visited.
pub fn sort_names(names: Vec<String>) -> (r: Vec<String>)
    ensures
        r@.to_multiset() == names@.to_multiset(),
        names_in_order(names_view(r@)),
{
    let mut rest = names;
    let mut out: Vec<String> = Vec::new();
    proof {
        assert(out@.to_multiset().len() == 0);
        assert(out@.to_multiset() == Multiset::<String>::empty());
    }
    while rest.len() > 0
        invariant
            out@.to_multiset().add(rest@.to_multiset()) == names@.to_multiset(),
            names_in_order(names_view(out@)),
        decreases rest.len(),
    {
        let ghost before = rest@;
        let x = rest.remove(0);
        proof {
            assert(before =~= rest@.insert(0, x));
        }
        let mut j: usize = out.len();
        while j > 0 && name_less(x.as_str(), out[j - 1].as_str())
            invariant
                j <= out.len(),
                forall|k: int| j <= k < out.len() ==> name_lt(x@, (#[trigger] out[k])@),
            decreases j,
        {
            j = j - 1;
        }
        let ghost old_out = out@;
        let ghost xv = x@;
        proof {
            if j > 0 {
                lemma_lt_total(xv, old_out[j - 1]@);
            }
        }
        out.insert(j, x);
        proof {
            let v = names_view(out@);
            let w = names_view(old_out);
            assert forall|p: int, q: int| 0 <= p < q < v.len() implies name_le(v[p], v[q]) by {
                if q < j {
                    assert(v[p] == w[p] && v[q] == w[q]);
                } else if q == j {
                    assert(v[q] == xv);
                    assert(v[p] == w[p]);
                    assert(name_le(w[j - 1], xv));
                    if p < j - 1 {
                        assert(name_le(w[p], w[j - 1]));
                        if w[p] != w[j - 1] && w[j - 1] != xv {
                            lemma_lt_transitive(w[p], w[j - 1], xv);
                        }
                    }
                } else if p == j {
                    assert(v[p] == xv);
                    assert(v[q] == w[q - 1]);
                    assert(name_lt(xv, old_out[q - 1]@));
                } else if p < j {
                    assert(v[p] == w[p] && v[q] == w[q - 1]);
                } else {
                    assert(v[p] == w[p - 1] && v[q] == w[q - 1]);
                }
            }
            assert(out@.to_multiset() == old_out.to_multiset().insert(x));
            assert(before.to_multiset() == rest@.to_multiset().insert(x));
            assert(out@.to_multiset().add(rest@.to_multiset()) =~= old_out.to_multiset().add(
                before.to_multiset(),
            ));
        }
    }
    proof {
        assert(rest@.to_multiset().len() == 0);
        assert(rest@.to_multiset() == Multiset::<String>::empty());
        assert(out@.to_multiset().add(rest@.to_multiset()) =~= out@.to_multiset());
    }
    out
}

proof fn lemma_lt_irreflexive(a: Seq<char>)
    ensures
        !name_lt(a, a),
    decreases a.len(),
{
    if a.len() > 0 {
        lemma_lt_irreflexive(a.drop_first());
    }
}

/// Whether path `a` comes strictly before path `b`, name by name.
pub open spec fn path_lt(a: Seq<Seq<char>>, b: Seq<Seq<char>>) -> bool
    decreases a.len(),
{
    if a.len() == 0 {
        b.len() > 0
    } else if b.len() == 0 {
        false
    } else if a[0] != b[0] {
        name_lt(a[0], b[0])
    } else {
        path_lt(a.drop_first(), b.drop_first())
    }
}

/// Whether path `a` comes before path `b` or is the same path.
pub open spec fn path_le(a: Seq<Seq<char>>, b: Seq<Seq<char>>) -> bool {
    a == b || path_lt(a, b)
}

/// Whether paths are in order.
pub open spec fn paths_in_order(paths: Seq<Seq<Seq<char>>>) -> bool {
    forall|i: int, j: int| 0 <= i < j < paths.len() ==> path_le(paths[i], paths[j])
}

pub proof fn lemma_path_lt_transitive(a: Seq<Seq<char>>, b: Seq<Seq<char>>, c: Seq<Seq<char>>)
    requires
        path_lt(a, b),
        path_lt(b, c),
    ensures
        path_lt(a, c),
    decreases a.len(),
{
    if a.len() > 0 && b.len() > 0 && c.len() > 0 {
        if a[0] == b[0] && b[0] == c[0] {
            lemma_path_lt_transitive(a.drop_first(), b.drop_first(), c.drop_first());
        } else if a[0] != b[0] && b[0] != c[0] {
            lemma_lt_transitive(a[0], b[0], c[0]);
            if a[0] == c[0] {
                lemma_lt_irreflexive(a[0]);
            }
        }
    }
}

pub proof fn lemma_path_lt_total(a: Seq<Seq<char>>, b: Seq<Seq<char>>)
    ensures
        a == b || path_lt(a, b) || path_lt(b, a),
    decreases a.len(),
{
    if a.len() > 0 && b.len() > 0 && a[0] == b[0] {
        lemma_path_lt_total(a.drop_first(), b.drop_first());
        if a.drop_first() == b.drop_first() {
            assert(a =~= seq![a[0]] + a.drop_first());
            assert(b =~= seq![b[0]] + b.drop_first());
        }
    } else if a.len() == 0 && b.len() == 0 {
        assert(a =~= b);
    } else if a.len() > 0 && b.len() > 0 {
        lemma_lt_total(a[0], b[0]);
    }
}

proof fn lemma_path_lt_prefix(a: Seq<Seq<char>>, b: Seq<Seq<char>>, i: int)
    requires
        0 <= i <= a.len(),
        i <= b.len(),
        a.subrange(0, i) == b.subrange(0, i),
    ensures
        path_lt(a, b) == path_lt(a.subrange(i, a.len() as int), b.subrange(i, b.len() as int)),
    decreases i,
{
    if i > 0 {
        assert(a[0] == a.subrange(0, i)[0]);
        assert(b[0] == b.subrange(0, i)[0]);
        assert(a.drop_first().subrange(0, i - 1) =~= a.subrange(0, i).drop_first());
        assert(b.drop_first().subrange(0, i - 1) =~= b.subrange(0, i).drop_first());
        lemma_path_lt_prefix(a.drop_first(), b.drop_first(), i - 1);
        assert(a.drop_first().subrange(i - 1, a.len() - 1) =~= a.subrange(i, a.len() as int));
        assert(b.drop_first().subrange(i - 1, b.len() - 1) =~= b.subrange(i, b.len() as int));
    } else {
        assert(a.subrange(0, a.len() as int) =~= a);
        assert(b.subrange(0, b.len() as int) =~= b);
    }
}

/// Whether path `a` comes strictly before path `b`.
pub fn path_less(a: &FilePath, b: &FilePath) -> (r: bool)
    ensures
        r == path_lt(a@, b@),
{
    let n = a.parts.len();
    let m = b.parts.len();
    let mut i: usize = 0;
    while i < n && i < m
        invariant
            i <= n,
            i <= m,
            n == a@.len(),
            m == b@.len(),
            a@.subrange(0, i as int) == b@.subrange(0, i as int),
        decreases n - i,
    {
        if !(a.parts[i] == b.parts[i]) {
            proof {
                lemma_path_lt_prefix(a@, b@, i as int);
                assert(a@.subrange(i as int, n as int)[0] == a@[i as int]);
                assert(b@.subrange(i as int, m as int)[0] == b@[i as int]);
            }
            return name_less(a.parts[i].as_str(), b.parts[i].as_str());
        }
        assert(a@.subrange(0, i + 1) =~= a@.subrange(0, i as int).push(a@[i as int]));
        assert(b@.subrange(0, i + 1) =~= b@.subrange(0, i as int).push(b@[i as int]));
        i = i + 1;
    }
    proof {
        lemma_path_lt_prefix(a@, b@, i as int);
    }
    i == n && i < m
}

/// The paths in order, name by name.
pub fn sort_paths(paths: Vec<FilePath>) -> (r: Vec<FilePath>)
    ensures
        paths_view(r@).to_multiset() == paths_view(paths@).to_multiset(),
        paths_in_order(paths_view(r@)),
{
    let mut rest = paths;
    let mut out: Vec<FilePath> = Vec::new();
    proof {
        assert(paths_view(out@).to_multiset().len() == 0);
        assert(paths_view(out@).to_multiset() == Multiset::<Seq<Seq<char>>>::empty());
    }
    while rest.len() > 0
        invariant
            paths_view(out@).to_multiset().add(paths_view(rest@).to_multiset()) == paths_view(
                paths@,
            ).to_multiset(),
            paths_in_order(paths_view(out@)),
        decreases rest.len(),
    {
        let ghost before = paths_view(rest@);
        let x = rest.remove(0);
        proof {
            assert(before =~= paths_view(rest@).insert(0, x@));
        }
        let mut j: usize = out.len();
        while j > 0 && path_less(&x, &out[j - 1])
            invariant
                j <= out.len(),
                forall|k: int| j <= k < out.len() ==> path_lt(x@, (#[trigger] out[k])@),
            decreases j,
        {
            j = j - 1;
        }
        let ghost w = paths_view(out@);
        let ghost xv = x@;
        proof {
            if j > 0 {
                lemma_path_lt_total(xv, w[j - 1]);
            }
        }
        out.insert(j, x);
        proof {
            let v = paths_view(out@);
            assert(v =~= w.insert(j as int, xv));
            assert forall|p: int, q: int| 0 <= p < q < v.len() implies path_le(v[p], v[q]) by {
                if q < j {
                    assert(v[p] == w[p] && v[q] == w[q]);
                } else if q == j {
                    assert(v[q] == xv);
                    assert(v[p] == w[p]);
                    assert(path_le(w[j - 1], xv));
                    if p < j - 1 {
                        assert(path_le(w[p], w[j - 1]));
                        if w[p] != w[j - 1] && w[j - 1] != xv {
                            lemma_path_lt_transitive(w[p], w[j - 1], xv);
                        }
                    }
                } else if p == j {
                    assert(v[p] == xv);
                    assert(v[q] == w[q - 1]);
                    assert(path_lt(xv, out@[q]@));
                } else if p < j {
                    assert(v[p] == w[p] && v[q] == w[q - 1]);
                } else {
                    assert(v[p] == w[p - 1] && v[q] == w[q - 1]);
                }
            }
            assert(v.to_multiset() == w.to_multiset().insert(xv));
            assert(before.to_multiset() == paths_view(rest@).to_multiset().insert(xv));
            assert(v.to_multiset().add(paths_view(rest@).to_multiset()) =~= w.to_multiset().add(
                before.to_multiset(),
            ));
        }
    }
    proof {
        assert(paths_view(rest@).to_multiset().len() == 0);
        assert(paths_view(rest@).to_multiset() == Multiset::<Seq<Seq<char>>>::empty());
        assert(paths_view(out@).to_multiset().add(paths_view(rest@).to_multiset())
            =~= paths_view(out@).to_multiset());
    }
    out
}

} // verus!
