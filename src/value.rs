use vstd::prelude::*;
use vstd::string::*;

verus! {

/// A structured data value, as read from a JSON, YAML or text file.
///
/// Numbers are kept as their textual form; object fields keep their order.
#[derive(Debug, PartialEq)]
pub enum Value {
    Null,
    Bool(bool),
    Number(String),
    String(String),
    Array(Vec<Value>),
    Object(Vec<(String, Value)>),
}

/// The mathematical model of a [`Value`].
pub ghost enum ValueView {
    Null,
    Bool(bool),
    Number(Seq<char>),
    Str(Seq<char>),
    Array(Seq<ValueView>),
    Object(Seq<(Seq<char>, ValueView)>),
}

pub open spec fn value_view(v: &Value) -> ValueView
    decreases v,
{
    match v {
        Value::Null => ValueView::Null,
        Value::Bool(b) => ValueView::Bool(*b),
        Value::Number(n) => ValueView::Number(n@),
        Value::String(s) => ValueView::Str(s@),
        Value::Array(items) => ValueView::Array(
            Seq::new(items.len() as nat, |i: int| if 0 <= i < items.len() { value_view(&items[i]) } else { ValueView::Null }),
        ),
        Value::Object(fields) => ValueView::Object(
            Seq::new(fields.len() as nat, |i: int| if 0 <= i < fields.len() { (fields[i].0@, value_view(&fields[i].1)) } else { (Seq::empty(), ValueView::Null) }),
        ),
    }
}

/// The model of a sequence of named items, in order.
pub open spec fn keyed_view<T: View>(items: Seq<(String, T)>) -> Seq<(Seq<char>, T::V)> {
    Seq::new(items.len(), |i: int| (items[i].0@, items[i].1@))
}

/// The model of an object's fields, in order.
pub open spec fn fields_view(fields: Seq<(String, Value)>) -> Seq<(Seq<char>, ValueView)> {
    keyed_view(fields)
}

/// An object's model is the model of its fields.
pub proof fn lemma_object_view(fields: Vec<(String, Value)>)
    ensures
        Value::Object(fields)@ == ValueView::Object(fields_view(fields@)),
{
    assert(value_view(&Value::Object(fields))->Object_0 =~= fields_view(fields@));
}

/// The position of the last item named `key`, or -1.
pub open spec fn last_key_index<T>(items: Seq<(Seq<char>, T)>, key: Seq<char>) -> int
    decreases items.len(),
{
    if items.len() == 0 {
        -1
    } else if items.last().0 == key {
        items.len() - 1
    } else {
        last_key_index(items.drop_last(), key)
    }
}

/// The items after setting `key` to `v`: an existing item keeps its place and
/// takes the new value, otherwise the item is added at the end.
pub open spec fn with_field<T>(items: Seq<(Seq<char>, T)>, key: Seq<char>, v: T) -> Seq<(Seq<char>, T)> {
    let i = last_key_index(items, key);
    if i < 0 {
        items.push((key, v))
    } else {
        items.update(i, (key, v))
    }
}

/// The value that `key` holds among the items, if any.
pub open spec fn field_value<T>(items: Seq<(Seq<char>, T)>, key: Seq<char>) -> Option<T> {
    let i = last_key_index(items, key);
    if i < 0 {
        None
    } else {
        Some(items[i].1)
    }
}

/// The items as a map; a later item wins over an earlier one of the same name.
pub open spec fn keyed_map<T>(items: Seq<(Seq<char>, T)>) -> Map<Seq<char>, T>
    decreases items.len(),
{
    if items.len() == 0 {
        Map::empty()
    } else {
        keyed_map(items.drop_last()).insert(items.last().0, items.last().1)
    }
}

pub proof fn lemma_last_key_index_prefix<T>(items: Seq<(Seq<char>, T)>, key: Seq<char>, n: int)
    requires
        0 <= n <= items.len(),
        forall|j: int| n <= j < items.len() ==> items[j].0 != key,
    ensures
        last_key_index(items, key) == last_key_index(items.subrange(0, n), key),
    decreases items.len() - n,
{
    if n < items.len() {
        assert(items.drop_last().subrange(0, n) =~= items.subrange(0, n));
        lemma_last_key_index_prefix(items.drop_last(), key, n);
    } else {
        assert(items.subrange(0, n) =~= items);
    }
}

pub proof fn lemma_last_key_index_range<T>(items: Seq<(Seq<char>, T)>, key: Seq<char>)
    ensures
        -1 <= last_key_index(items, key) < items.len(),
        last_key_index(items, key) >= 0 ==> items[last_key_index(items, key)].0 == key,
        forall|j: int| last_key_index(items, key) < j < items.len() ==> items[j].0 != key,
    decreases items.len(),
{
    if items.len() > 0 {
        lemma_last_key_index_range(items.drop_last(), key);
        assert forall|j: int| last_key_index(items, key) < j < items.len() implies items[j].0
            != key by {
            if j < items.len() - 1 {
                assert(items.drop_last()[j] == items[j]);
            }
        }
    }
}

/// Setting an item sets it in the map.
pub proof fn lemma_keyed_map_with_field<T>(items: Seq<(Seq<char>, T)>, key: Seq<char>, v: T)
    ensures
        keyed_map(with_field(items, key, v)) == keyed_map(items).insert(key, v),
    decreases items.len(),
{
    let i = last_key_index(items, key);
    lemma_last_key_index_range(items, key);
    if i < 0 {
        assert(with_field(items, key, v).drop_last() =~= items);
    } else if i == items.len() - 1 {
        let w = with_field(items, key, v);
        assert(w.drop_last() =~= items.drop_last());
        assert(keyed_map(items).insert(key, v) =~= keyed_map(items.drop_last()).insert(key, v));
    } else {
        let w = with_field(items, key, v);
        let d = items.drop_last();
        assert(last_key_index(d, key) == i);
        assert(w.drop_last() =~= with_field(d, key, v));
        lemma_keyed_map_with_field(d, key, v);
        assert(items.last().0 != key);
        assert(keyed_map(w) =~= keyed_map(items).insert(key, v));
    }
}

/// Sets the item `key` of a sequence of named items to `value`.
pub fn insert_field<T: View>(items: &mut Vec<(String, T)>, key: String, value: T)
    ensures
        keyed_view(final(items)@) == with_field(keyed_view(old(items)@), key@, value@),
{
    let ghost before = keyed_view(items@);
    let mut i: usize = items.len();
    while i > 0
        invariant
            i <= items.len(),
            keyed_view(items@) == before,
            items@ == old(items)@,
            forall|j: int| i <= j < items.len() ==> items[j].0@ != key@,
        decreases i,
    {
        if items[i - 1].0 == key {
            proof {
                lemma_last_key_index_prefix(before, key@, i as int);
                assert(before.subrange(0, i as int).last().0 == key@);
            }
            let ghost k = key@;
            let ghost vv = value@;
            items.set(i - 1, (key, value));
            assert(keyed_view(items@) =~= before.update(i - 1, (k, vv)));
            return ;
        }
        i = i - 1;
    }
    proof {
        lemma_last_key_index_prefix(before, key@, 0);
    }
    let ghost k = key@;
    let ghost vv = value@;
    items.push((key, value));
    assert(keyed_view(items@) =~= before.push((k, vv)));
}

/// The position of the last item named `key`, if any.
pub fn find_field<T: View>(items: &Vec<(String, T)>, key: &str) -> (r: Option<usize>)
    ensures
        match r {
            Some(i) => i < items.len() && i == last_key_index(keyed_view(items@), key@),
            None => last_key_index(keyed_view(items@), key@) == -1,
        },
{
    let ghost all = keyed_view(items@);
    let k = String::from_str(key);
    let mut i: usize = items.len();
    while i > 0
        invariant
            i <= items.len(),
            all == keyed_view(items@),
            k@ == key@,
            forall|j: int| i <= j < items.len() ==> items[j].0@ != key@,
        decreases i,
    {
        if items[i - 1].0 == k {
            proof {
                lemma_last_key_index_prefix(all, key@, i as int);
                assert(all.subrange(0, i as int).last().0 == key@);
            }
            return Some(i - 1);
        }
        i = i - 1;
    }
    proof {
        lemma_last_key_index_prefix(all, key@, 0);
    }
    None
}

impl View for Value {
    type V = ValueView;

    open spec fn view(&self) -> ValueView {
        value_view(self)
    }
}

impl Value {
    /// Returns a copy of this value.
    pub fn duplicate(&self) -> (r: Value)
        ensures
            r@ == self@,
        decreases self,
    {
        match self {
            Value::Null => Value::Null,
            Value::Bool(b) => Value::Bool(*b),
            Value::Number(n) => Value::Number(n.clone()),
            Value::String(s) => Value::String(s.clone()),
            Value::Array(items) => {
                let mut out: Vec<Value> = Vec::new();
                let mut i: usize = 0;
                while i < items.len()
                    invariant
                        i <= items.len(),
                        *self == Value::Array(*items),
                        out.len() == i,
                        forall|j: int| 0 <= j < i ==> out[j]@ == items[j]@,
                    decreases items.len() - i,
                {
                    proof {
                        assert(decreases_to!(*self => (*self)->Array_0));
                        assert(decreases_to!(*items => items[i as int]));
                    }
                    out.push(items[i].duplicate());
                    i = i + 1;
                }
                let r = Value::Array(out);
                assert(r@ =~= self@) by {
                    assert(value_view(&r)->Array_0 =~= value_view(self)->Array_0);
                }
                r
            },
            Value::Object(fields) => {
                let mut out: Vec<(String, Value)> = Vec::new();
                let mut i: usize = 0;
                while i < fields.len()
                    invariant
                        i <= fields.len(),
                        *self == Value::Object(*fields),
                        out.len() == i,
                        forall|j: int| 0 <= j < i ==> out[j].0@ == fields[j].0@ && out[j].1@ == fields[j].1@,
                    decreases fields.len() - i,
                {
                    proof {
                        assert(decreases_to!(*self => (*self)->Object_0));
                        assert(decreases_to!(*fields => fields[i as int]));
                        assert(decreases_to!(fields[i as int] => fields[i as int].1));
                    }
                    out.push((fields[i].0.clone(), fields[i].1.duplicate()));
                    i = i + 1;
                }
                let r = Value::Object(out);
                assert(value_view(&r)->Object_0 =~= value_view(self)->Object_0);
                r
            },
        }
    }
}

} // verus!
