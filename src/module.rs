use vstd::prelude::*;
use vstd::string::*;

use crate::data::{FileStore, FileSystemDataError, FileSystemDataErrorView, entry_data};
use crate::entry::{Entry, EntryView, entries_view};
use crate::entry_set::entry_identifier;
use crate::file_system::{FileSystem, FileSystemView, file_system_of};
use crate::tree::Directory;
use crate::module_type::{
    CONTENTS, DESCRIPTION, ModuleType, ModuleTypeView, SOURCE, TITLE, TYPES, decode_type,
    optional_field,
};
use crate::path::FilePath;
use crate::value::{
    Value, ValueView, field_value, fields_view, find_field, insert_field, keyed_map, keyed_view,
    lemma_keyed_map_with_field, lemma_object_view, with_field,
};

verus! {

/// The serialization of the URL that a text parses to, if it is a valid absolute URL.
pub uninterp spec fn parsed_url(text: Seq<char>) -> Option<Seq<char>>;

/// Relies on url::Url::parse: whether the text is a valid absolute URL, and the
/// URL's serialization when it is; both depend on the text alone.
#[verifier::external_body]
fn parse_url(text: &str) -> (r: Option<String>)
    ensures
        match r {
            Some(u) => parsed_url(text@) == Some(u@),
            None => parsed_url(text@) is None,
        },
{
    url::Url::parse(text).ok().map(|u| u.to_string())
}

/// A document that holds a module: its information, its types and its contents.
#[derive(Debug, PartialEq)]
pub struct Module {
    /// The title of the module.
    pub title: String,
    /// The human-readable description of what the module contains.
    pub description: String,
    /// The serialized URL where the module is hosted.
    pub source: String,
    /// The types defined in this module, by identifier.
    pub types: Option<Vec<(String, ModuleType)>>,
    /// The contents defined in this module, by identifier; each is an object.
    pub contents: Option<Vec<(String, Value)>>,
}

/// The model of a [`Module`].
pub ghost struct ModuleView {
    pub title: Seq<char>,
    pub description: Seq<char>,
    pub source: Seq<char>,
    pub types: Option<Seq<(Seq<char>, ModuleTypeView)>>,
    pub contents: Option<Seq<(Seq<char>, ValueView)>>,
}

impl View for Module {
    type V = ModuleView;

    open spec fn view(&self) -> ModuleView {
        ModuleView {
            title: self.title@,
            description: self.description@,
            source: self.source@,
            types: match self.types {
                Some(t) => Some(keyed_view(t@)),
                None => None,
            },
            contents: match self.contents {
                Some(c) => Some(keyed_view(c@)),
                None => None,
            },
        }
    }
}

/// The model of an optional [`Module`].
pub open spec fn optional_module_view(m: Option<Module>) -> Option<ModuleView> {
    match m {
        Some(m) => Some(m@),
        None => None,
    }
}

/// The errors that can happen when building a module.
#[derive(Debug, PartialEq)]
pub enum ModuleError {
    /// The data of an entry could not be read.
    UnableToGetRequiredData(FileSystemDataError),
    /// A value does not have the shape that was expected of it.
    IncompatibleFieldType(Value),
    /// No identifier could be made for an entry.
    InvalidIdentifier(Entry),
}

/// The model of a [`ModuleError`].
pub ghost enum ModuleErrorView {
    UnableToGetRequiredData(FileSystemDataErrorView),
    IncompatibleFieldType(ValueView),
    InvalidIdentifier(EntryView),
}

impl View for ModuleError {
    type V = ModuleErrorView;

    open spec fn view(&self) -> ModuleErrorView {
        match self {
            ModuleError::UnableToGetRequiredData(e) => ModuleErrorView::UnableToGetRequiredData(e@),
            ModuleError::IncompatibleFieldType(v) => ModuleErrorView::IncompatibleFieldType(v@),
            ModuleError::InvalidIdentifier(e) => ModuleErrorView::InvalidIdentifier(e@),
        }
    }
}

/// The text of a module's `source` field, if it is a string.
pub open spec fn source_text(v: ValueView) -> Option<Seq<char>> {
    match v {
        ValueView::Object(fields) => match field_value(fields, SOURCE@) {
            Some(ValueView::Str(s)) => Some(s),
            _ => None,
        },
        _ => None,
    }
}

/// The serialized URL of a module's `source` field, if it is a valid one.
pub open spec fn source_url(v: ValueView) -> Option<Seq<char>> {
    match source_text(v) {
        Some(s) => parsed_url(s),
        None => None,
    }
}

/// The types that the fields describe, if each of them describes one.
pub open spec fn decode_types(fields: Seq<(Seq<char>, ValueView)>) -> Option<Seq<(Seq<char>, ModuleTypeView)>> {
    if forall|i: int| 0 <= i < fields.len() ==> (#[trigger] decode_type(fields[i].1)) is Some {
        Some(Seq::new(fields.len(), |i: int| (fields[i].0, decode_type(fields[i].1)->0)))
    } else {
        None
    }
}

/// Whether every field holds an object.
pub open spec fn all_objects(fields: Seq<(Seq<char>, ValueView)>) -> bool {
    forall|i: int| 0 <= i < fields.len() ==> (#[trigger] fields[i]).1 is Object
}

/// The module that a value describes, given the serialized URL of its `source`:
/// an object with a string `title` and `description`, a `source` that is a valid
/// URL, optional `types` whose fields each describe a type, and optional
/// `contents` whose fields are each an object.
pub open spec fn decode_module(v: ValueView, url: Option<Seq<char>>) -> Option<ModuleView> {
    match v {
        ValueView::Object(fields) => {
            let types = match optional_field(fields, TYPES@) {
                None => Some(None::<Seq<(Seq<char>, ModuleTypeView)>>),
                Some(ValueView::Object(ts)) => match decode_types(ts) {
                    Some(x) => Some(Some(x)),
                    None => None,
                },
                Some(_) => None,
            };
            let contents = match optional_field(fields, CONTENTS@) {
                None => Some(None::<Seq<(Seq<char>, ValueView)>>),
                Some(ValueView::Object(cs)) => if all_objects(cs) {
                    Some(Some(cs))
                } else {
                    None
                },
                Some(_) => None,
            };
            match (
                field_value(fields, TITLE@),
                field_value(fields, DESCRIPTION@),
                field_value(fields, SOURCE@),
                url,
                types,
                contents,
            ) {
                (
                    Some(ValueView::Str(title)),
                    Some(ValueView::Str(description)),
                    Some(ValueView::Str(_)),
                    Some(source),
                    Some(types),
                    Some(contents),
                ) => Some(ModuleView { title, description, source, types, contents }),
                _ => None,
            }
        },
        _ => None,
    }
}

/// The string that a field holds, copied.
fn string_field(fields: &Vec<(String, Value)>, key: &str) -> (r: Option<String>)
    ensures
        match field_value(fields_view(fields@), key@) {
            Some(ValueView::Str(s)) => r matches Some(t) && t@ == s,
            _ => r is None,
        },
{
    match find_field(fields, key) {
        Some(i) => match &fields[i].1 {
            Value::String(s) => Some(s.clone()),
            _ => None,
        },
        None => None,
    }
}

/// The types that the fields describe, if each of them describes one.
fn decode_type_fields(fields: &Vec<(String, Value)>) -> (r: Option<Vec<(String, ModuleType)>>)
    ensures
        match r {
            Some(t) => decode_types(fields_view(fields@)) == Some(keyed_view(t@)),
            None => decode_types(fields_view(fields@)) is None,
        },
{
    let ghost fv = fields_view(fields@);
    let mut out: Vec<(String, ModuleType)> = Vec::new();
    let mut i: usize = 0;
    while i < fields.len()
        invariant
            i <= fields.len(),
            fv == fields_view(fields@),
            out.len() == i,
            forall|j: int| 0 <= j < i ==> (#[trigger] decode_type(fv[j].1)) is Some,
            forall|j: int|
                0 <= j < i ==> (#[trigger] out[j]).0@ == fv[j].0 && Some(out[j].1@) == decode_type(
                    fv[j].1,
                ),
        decreases fields.len() - i,
    {
        match ModuleType::try_from_value(&fields[i].1) {
            Some(t) => {
                out.push((fields[i].0.clone(), t));
            },
            None => {
                assert(decode_type(fv[i as int].1) is None);
                return None;
            },
        }
        i = i + 1;
    }
    assert(keyed_view(out@) =~= Seq::new(fv.len(), |j: int| (fv[j].0, decode_type(fv[j].1)->0)));
    Some(out)
}

/// Copies of the fields, if each of them holds an object.
fn object_fields(fields: &Vec<(String, Value)>) -> (r: Option<Vec<(String, Value)>>)
    ensures
        r is Some <==> all_objects(fields_view(fields@)),
        r is Some ==> keyed_view(r->0@) == fields_view(fields@),
{
    let ghost fv = fields_view(fields@);
    let mut out: Vec<(String, Value)> = Vec::new();
    let mut i: usize = 0;
    while i < fields.len()
        invariant
            i <= fields.len(),
            fv == fields_view(fields@),
            out.len() == i,
            forall|j: int| 0 <= j < i ==> (#[trigger] fv[j]).1 is Object,
            forall|j: int| 0 <= j < i ==> (#[trigger] out[j]).0@ == fv[j].0 && out[j].1@ == fv[j].1,
        decreases fields.len() - i,
    {
        match &fields[i].1 {
            Value::Object(_) => {
                out.push((fields[i].0.clone(), fields[i].1.duplicate()));
            },
            _ => {
                assert(!(fv[i as int].1 is Object));
                return None;
            },
        }
        i = i + 1;
    }
    assert(keyed_view(out@) =~= fv);
    Some(out)
}

/// A copy of named types.
fn copy_types(items: &Vec<(String, ModuleType)>) -> (r: Vec<(String, ModuleType)>)
    ensures
        keyed_view(r@) == keyed_view(items@),
{
    let mut out: Vec<(String, ModuleType)> = Vec::new();
    let mut i: usize = 0;
    while i < items.len()
        invariant
            i <= items.len(),
            out.len() == i,
            forall|j: int| 0 <= j < i ==> (#[trigger] out[j]).0@ == items[j].0@ && out[j].1@ == items[j].1@,
        decreases items.len() - i,
    {
        out.push((items[i].0.clone(), items[i].1.duplicate()));
        i = i + 1;
    }
    assert(keyed_view(out@) =~= keyed_view(items@));
    out
}

/// A copy of named values.
fn copy_values(items: &Vec<(String, Value)>) -> (r: Vec<(String, Value)>)
    ensures
        keyed_view(r@) == keyed_view(items@),
{
    let mut out: Vec<(String, Value)> = Vec::new();
    let mut i: usize = 0;
    while i < items.len()
        invariant
            i <= items.len(),
            out.len() == i,
            forall|j: int| 0 <= j < i ==> (#[trigger] out[j]).0@ == items[j].0@ && out[j].1@ == items[j].1@,
        decreases items.len() - i,
    {
        out.push((items[i].0.clone(), items[i].1.duplicate()));
        i = i + 1;
    }
    assert(keyed_view(out@) =~= keyed_view(items@));
    out
}

impl Module {
    /// A copy of this module.
    pub fn duplicate(&self) -> (r: Module)
        ensures
            r@ == self@,
    {
        let types = match &self.types {
            Some(t) => Some(copy_types(t)),
            None => None,
        };
        let contents = match &self.contents {
            Some(c) => Some(copy_values(c)),
            None => None,
        };
        Module {
            title: self.title.clone(),
            description: self.description.clone(),
            source: self.source.clone(),
            types,
            contents,
        }
    }

    /// A module with no types and no contents; `None` when `source` is not a valid URL.
    pub fn new(title: String, description: String, source: String) -> (r: Option<Module>)
        ensures
            r is Some <==> parsed_url(source@) is Some,
            r matches Some(m) ==> m.title@ == title@ && m.description@ == description@
                && Some(m.source@) == parsed_url(source@) && m.types is None && m.contents is None,
    {
        match parse_url(source.as_str()) {
            Some(url) => Some(Module { title, description, source: url, types: None, contents: None }),
            None => None,
        }
    }

    /// Reads a module from a value, given the serialized URL that its `source`
    /// field parses to; see [`decode_module`].
    pub fn try_from_value_with_url(value: &Value, url: Option<String>) -> (r: Option<Module>)
        ensures
            optional_module_view(r) == decode_module(
                value@,
                match url {
                    Some(u) => Some(u@),
                    None => None,
                },
            ),
    {
        let fields = match value {
            Value::Object(fields) => fields,
            _ => {
                return None;
            },
        };
        proof {
            lemma_object_view(*fields);
        }
        let title = match string_field(fields, TITLE) {
            Some(t) => t,
            None => {
                return None;
            },
        };
        let description = match string_field(fields, DESCRIPTION) {
            Some(d) => d,
            None => {
                return None;
            },
        };
        if string_field(fields, SOURCE).is_none() {
            return None;
        }
        let source = match url {
            Some(u) => u,
            None => {
                return None;
            },
        };
        let types = match find_field(fields, TYPES) {
            None => None,
            Some(i) => match &fields[i].1 {
                Value::Null => None,
                Value::Object(ts) => {
                    proof {
                        lemma_object_view(*ts);
                    }
                    match decode_type_fields(ts) {
                        Some(t) => Some(t),
                        None => {
                            return None;
                        },
                    }
                },
                _ => {
                    return None;
                },
            },
        };
        let contents = match find_field(fields, CONTENTS) {
            None => None,
            Some(i) => match &fields[i].1 {
                Value::Null => None,
                Value::Object(cs) => {
                    proof {
                        lemma_object_view(*cs);
                    }
                    match object_fields(cs) {
                        Some(c) => Some(c),
                        None => {
                            return None;
                        },
                    }
                },
                _ => {
                    return None;
                },
            },
        };
        Some(Module { title, description, source, types, contents })
    }

    /// Reads a module from a value; see [`decode_module`].
    pub fn try_from_value(value: &Value) -> (r: Option<Module>)
        ensures
            optional_module_view(r) == decode_module(value@, source_url(value@)),
    {
        let url = match value {
            Value::Object(fields) => {
                proof {
                    lemma_object_view(*fields);
                }
                match string_field(fields, SOURCE) {
                    Some(s) => parse_url(s.as_str()),
                    None => None,
                }
            },
            _ => None,
        };
        Module::try_from_value_with_url(value, url)
    }
}

/// The items of `extra` set, in order, over those of `base`.
pub open spec fn merge_keyed<T>(base: Seq<(Seq<char>, T)>, extra: Seq<(Seq<char>, T)>) -> Seq<(Seq<char>, T)>
    decreases extra.len(),
{
    if extra.len() == 0 {
        base
    } else {
        with_field(merge_keyed(base, extra.drop_last()), extra.last().0, extra.last().1)
    }
}

/// Optional items extended with more: without items of their own, the new ones
/// are taken as they are.
pub open spec fn extend_optional<T>(base: Option<Seq<(Seq<char>, T)>>, extra: Seq<(Seq<char>, T)>) -> Option<
    Seq<(Seq<char>, T)>,
> {
    match base {
        None => Some(extra),
        Some(b) => Some(merge_keyed(b, extra)),
    }
}

/// The types defined by entries, each under its identifier relative to `base`; a
/// later entry replaces an earlier one of the same identifier. The first entry
/// without an identifier, whose data cannot be read, or whose data is not a type,
/// stops it.
pub open spec fn types_from_entries(
    records: Seq<(FilePath, Result<Value, crate::data::FileDataError>)>,
    base: Seq<Seq<char>>,
    entries: Seq<EntryView>,
) -> Result<Seq<(Seq<char>, ModuleTypeView)>, ModuleErrorView>
    decreases entries.len(),
{
    if entries.len() == 0 {
        Ok(Seq::empty())
    } else {
        match types_from_entries(records, base, entries.drop_last()) {
            Err(e) => Err(e),
            Ok(acc) => {
                let e = entries.last();
                match entry_identifier(e, base) {
                    None => Err(ModuleErrorView::InvalidIdentifier(e)),
                    Some(id) => match entry_data(records, e) {
                        Err(x) => Err(ModuleErrorView::UnableToGetRequiredData(x)),
                        Ok(v) => match decode_type(v) {
                            None => Err(ModuleErrorView::IncompatibleFieldType(v)),
                            Some(t) => Ok(with_field(acc, id, t)),
                        },
                    },
                }
            },
        }
    }
}

/// The contents defined by entries, each under its identifier relative to `base`;
/// a later entry replaces an earlier one of the same identifier. The first entry
/// without an identifier, whose data cannot be read, or whose data is not an
/// object, stops it.
pub open spec fn contents_from_entries(
    records: Seq<(FilePath, Result<Value, crate::data::FileDataError>)>,
    base: Seq<Seq<char>>,
    entries: Seq<EntryView>,
) -> Result<Seq<(Seq<char>, ValueView)>, ModuleErrorView>
    decreases entries.len(),
{
    if entries.len() == 0 {
        Ok(Seq::empty())
    } else {
        match contents_from_entries(records, base, entries.drop_last()) {
            Err(e) => Err(e),
            Ok(acc) => {
                let e = entries.last();
                match entry_identifier(e, base) {
                    None => Err(ModuleErrorView::InvalidIdentifier(e)),
                    Some(id) => match entry_data(records, e) {
                        Err(x) => Err(ModuleErrorView::UnableToGetRequiredData(x)),
                        Ok(v) => if v is Object {
                            Ok(with_field(acc, id, v))
                        } else {
                            Err(ModuleErrorView::IncompatibleFieldType(v))
                        },
                    },
                }
            },
        }
    }
}

/// The module that a file system describes: the module entry's data read as a
/// module, its types extended with those of the types entries, then its contents
/// extended with those of the contents entries.
pub open spec fn assemble(
    records: Seq<(FilePath, Result<Value, crate::data::FileDataError>)>,
    fs: FileSystemView,
) -> Result<ModuleView, ModuleErrorView> {
    match entry_data(records, fs.module) {
        Err(e) => Err(ModuleErrorView::UnableToGetRequiredData(e)),
        Ok(v) => match decode_module(v, source_url(v)) {
            None => Err(ModuleErrorView::IncompatibleFieldType(v)),
            Some(m) => {
                let with_types = match fs.types {
                    None => Ok(m),
                    Some((base, entries)) => match types_from_entries(records, base, entries) {
                        Err(e) => Err(e),
                        Ok(t) => Ok(ModuleView { types: extend_optional(m.types, t), ..m }),
                    },
                };
                match with_types {
                    Err(e) => Err(e),
                    Ok(m) => match fs.contents {
                        None => Ok(m),
                        Some((base, entries)) => match contents_from_entries(
                            records,
                            base,
                            entries,
                        ) {
                            Err(e) => Err(e),
                            Ok(c) => Ok(ModuleView { contents: extend_optional(m.contents, c), ..m }),
                        },
                    },
                }
            },
        },
    }
}

/// The outcome of building a module.
pub open spec fn module_result_view(r: Result<Module, ModuleError>) -> Result<ModuleView, ModuleErrorView> {
    match r {
        Ok(m) => Ok(m@),
        Err(e) => Err(e@),
    }
}

/// Moves each item of `extra`, in order, over the items of `base`.
fn merge_items<T: View>(base: &mut Vec<(String, T)>, extra: Vec<(String, T)>)
    ensures
        keyed_view(final(base)@) == merge_keyed(keyed_view(old(base)@), keyed_view(extra@)),
{
    let ghost all = keyed_view(extra@);
    let ghost start = keyed_view(base@);
    let mut rest = extra;
    let total = rest.len();
    let mut taken: usize = 0;
    assert(all.subrange(0, 0) =~= Seq::<(Seq<char>, T::V)>::empty());
    while rest.len() > 0
        invariant
            taken <= all.len(),
            all.len() == total,
            total == taken + rest.len(),
            keyed_view(rest@) == all.subrange(taken as int, all.len() as int),
            keyed_view(base@) == merge_keyed(start, all.subrange(0, taken as int)),
        decreases rest.len(),
    {
        let ghost before = keyed_view(rest@);
        let (k, v) = rest.remove(0);
        assert(keyed_view(rest@) =~= before.subrange(1, before.len() as int));
        assert(all.subrange(0, taken + 1).drop_last() =~= all.subrange(0, taken as int));
        assert(all.subrange(0, taken + 1).last() == before[0]);
        insert_field(base, k, v);
        taken = taken + 1;
        assert(keyed_view(rest@) =~= all.subrange(taken as int, all.len() as int));
    }
    assert(all.subrange(0, taken as int) =~= all);
}

proof fn lemma_types_error_stays(
    records: Seq<(FilePath, Result<Value, crate::data::FileDataError>)>,
    base: Seq<Seq<char>>,
    entries: Seq<EntryView>,
    n: int,
)
    requires
        0 <= n <= entries.len(),
        types_from_entries(records, base, entries.subrange(0, n)) is Err,
    ensures
        types_from_entries(records, base, entries) == types_from_entries(
            records,
            base,
            entries.subrange(0, n),
        ),
    decreases entries.len() - n,
{
    if n < entries.len() {
        assert(entries.drop_last().subrange(0, n) =~= entries.subrange(0, n));
        lemma_types_error_stays(records, base, entries.drop_last(), n);
    } else {
        assert(entries.subrange(0, n) =~= entries);
    }
}

proof fn lemma_contents_error_stays(
    records: Seq<(FilePath, Result<Value, crate::data::FileDataError>)>,
    base: Seq<Seq<char>>,
    entries: Seq<EntryView>,
    n: int,
)
    requires
        0 <= n <= entries.len(),
        contents_from_entries(records, base, entries.subrange(0, n)) is Err,
    ensures
        contents_from_entries(records, base, entries) == contents_from_entries(
            records,
            base,
            entries.subrange(0, n),
        ),
    decreases entries.len() - n,
{
    if n < entries.len() {
        assert(entries.drop_last().subrange(0, n) =~= entries.subrange(0, n));
        lemma_contents_error_stays(records, base, entries.drop_last(), n);
    } else {
        assert(entries.subrange(0, n) =~= entries);
    }
}

/// Reads the types defined by the entries of a file system's types set.
fn try_populate_types_from_filesystem(filesystem: &FileSystem, store: &FileStore) -> (r: Result<
    Option<Vec<(String, ModuleType)>>,
    ModuleError,
>)
    ensures
        match filesystem@.types {
            None => r matches Ok(None),
            Some((base, entries)) => match types_from_entries(store.files@, base, entries) {
                Ok(t) => r matches Ok(Some(v)) && keyed_view(v@) == t,
                Err(e) => r matches Err(x) && x@ == e,
            },
        },
{
    let fs_types = match &filesystem.types {
        Some(t) => t,
        None => {
            return Ok(None);
        },
    };
    let ghost base = fs_types.base_path@;
    let ghost all = entries_view(fs_types.entries@);
    let mut result: Vec<(String, ModuleType)> = Vec::new();
    let mut i: usize = 0;
    assert(keyed_view(result@) =~= Seq::<(Seq<char>, ModuleTypeView)>::empty());
    assert(all.subrange(0, 0) =~= Seq::<EntryView>::empty());
    while i < fs_types.entries.len()
        invariant
            i <= fs_types.entries.len(),
            base == fs_types.base_path@,
            all == entries_view(fs_types.entries@),
            filesystem@.types == Some((base, all)),
            types_from_entries(store.files@, base, all.subrange(0, i as int)) == Ok::<
                Seq<(Seq<char>, ModuleTypeView)>,
                ModuleErrorView,
            >(keyed_view(result@)),
        decreases fs_types.entries.len() - i,
    {
        assert(all.subrange(0, i + 1).drop_last() =~= all.subrange(0, i as int));
        assert(all.subrange(0, i + 1).last() == fs_types.entries[i as int]@);
        let type_entry = &fs_types.entries[i];
        match type_entry.get_id_from_nested_path(fs_types) {
            None => {
                proof {
                    lemma_types_error_stays(store.files@, base, all, i + 1);
                }
                return Err(ModuleError::InvalidIdentifier(type_entry.duplicate()));
            },
            Some(identifier) => match type_entry.try_get_data(store) {
                Err(e) => {
                    proof {
                        lemma_types_error_stays(store.files@, base, all, i + 1);
                    }
                    return Err(ModuleError::UnableToGetRequiredData(e));
                },
                Ok(data) => match ModuleType::try_from_value(&data) {
                    None => {
                        proof {
                            lemma_types_error_stays(store.files@, base, all, i + 1);
                        }
                        return Err(ModuleError::IncompatibleFieldType(data));
                    },
                    Some(module_type) => {
                        insert_field(&mut result, identifier, module_type);
                    },
                },
            },
        }
        i = i + 1;
    }
    assert(all.subrange(0, i as int) =~= all);
    Ok(Some(result))
}

/// Reads the contents defined by the entries of a file system's contents set.
fn try_populate_contents_from_filesystem(filesystem: &FileSystem, store: &FileStore) -> (r: Result<
    Option<Vec<(String, Value)>>,
    ModuleError,
>)
    ensures
        match filesystem@.contents {
            None => r matches Ok(None),
            Some((base, entries)) => match contents_from_entries(store.files@, base, entries) {
                Ok(c) => r matches Ok(Some(v)) && keyed_view(v@) == c,
                Err(e) => r matches Err(x) && x@ == e,
            },
        },
{
    let fs_contents = match &filesystem.contents {
        Some(c) => c,
        None => {
            return Ok(None);
        },
    };
    let ghost base = fs_contents.base_path@;
    let ghost all = entries_view(fs_contents.entries@);
    let mut result: Vec<(String, Value)> = Vec::new();
    let mut i: usize = 0;
    assert(keyed_view(result@) =~= Seq::<(Seq<char>, ValueView)>::empty());
    assert(all.subrange(0, 0) =~= Seq::<EntryView>::empty());
    while i < fs_contents.entries.len()
        invariant
            i <= fs_contents.entries.len(),
            base == fs_contents.base_path@,
            all == entries_view(fs_contents.entries@),
            filesystem@.contents == Some((base, all)),
            contents_from_entries(store.files@, base, all.subrange(0, i as int)) == Ok::<
                Seq<(Seq<char>, ValueView)>,
                ModuleErrorView,
            >(keyed_view(result@)),
        decreases fs_contents.entries.len() - i,
    {
        assert(all.subrange(0, i + 1).drop_last() =~= all.subrange(0, i as int));
        assert(all.subrange(0, i + 1).last() == fs_contents.entries[i as int]@);
        let content_entry = &fs_contents.entries[i];
        match content_entry.get_id_from_nested_path(fs_contents) {
            None => {
                proof {
                    lemma_contents_error_stays(store.files@, base, all, i + 1);
                }
                return Err(ModuleError::InvalidIdentifier(content_entry.duplicate()));
            },
            Some(identifier) => match content_entry.try_get_data(store) {
                Err(e) => {
                    proof {
                        lemma_contents_error_stays(store.files@, base, all, i + 1);
                    }
                    return Err(ModuleError::UnableToGetRequiredData(e));
                },
                Ok(data) => {
                    if let Value::Object(_) = &data {
                        insert_field(&mut result, identifier, data);
                    } else {
                        proof {
                            lemma_contents_error_stays(store.files@, base, all, i + 1);
                        }
                        return Err(ModuleError::IncompatibleFieldType(data));
                    }
                },
            },
        }
        i = i + 1;
    }
    assert(all.subrange(0, i as int) =~= all);
    Ok(Some(result))
}

impl Module {
    /// Extends the module with the provided types.
    ///
    /// Without types of its own, the module takes the provided ones as they are;
    /// otherwise each provided type is added in order, replacing the type of the
    /// same identifier.
    pub fn extend_types(&mut self, extra_types: Vec<(String, ModuleType)>)
        ensures
            final(self)@ == (ModuleView {
                types: extend_optional(old(self)@.types, keyed_view(extra_types@)),
                ..old(self)@
            }),
    {
        match &mut self.types {
            None => {
                self.types = Some(extra_types);
            },
            Some(types) => {
                merge_items(types, extra_types);
            },
        }
    }

    /// Extends the module with the provided contents.
    ///
    /// Without contents of its own, the module takes the provided ones as they are;
    /// otherwise each provided content is added in order, replacing the content of
    /// the same identifier.
    pub fn extend_contents(&mut self, extra_contents: Vec<(String, Value)>)
        ensures
            final(self)@ == (ModuleView {
                contents: extend_optional(old(self)@.contents, keyed_view(extra_contents@)),
                ..old(self)@
            }),
    {
        match &mut self.contents {
            None => {
                self.contents = Some(extra_contents);
            },
            Some(contents) => {
                merge_items(contents, extra_contents);
            },
        }
    }

    /// Builds a module from a file system, reading the files from the store; see
    /// [`assemble`].
    pub fn try_from_file_system(filesystem: &FileSystem, store: &FileStore) -> (r: Result<
        Module,
        ModuleError,
    >)
        ensures
            module_result_view(r) == assemble(store.files@, filesystem@),
    {
        let module_data = match filesystem.module.try_get_data(store) {
            Ok(d) => d,
            Err(e) => {
                return Err(ModuleError::UnableToGetRequiredData(e));
            },
        };
        let mut result = match Module::try_from_value(&module_data) {
            Some(m) => m,
            None => {
                return Err(ModuleError::IncompatibleFieldType(module_data));
            },
        };
        match try_populate_types_from_filesystem(filesystem, store) {
            Err(e) => {
                return Err(e);
            },
            Ok(Some(fs_types)) => {
                result.extend_types(fs_types);
            },
            Ok(None) => {},
        }
        match try_populate_contents_from_filesystem(filesystem, store) {
            Err(e) => {
                return Err(e);
            },
            Ok(Some(fs_contents)) => {
                result.extend_contents(fs_contents);
            },
            Ok(None) => {},
        }
        Ok(result)
    }
}

/// Merging named items: an item of `extra` wins over the item of `base` with the
/// same name, and items named on one side only are kept.
pub proof fn lemma_merge_keyed_prefers_extra<T>(base: Seq<(Seq<char>, T)>, extra: Seq<(Seq<char>, T)>)
    ensures
        keyed_map(merge_keyed(base, extra)) == keyed_map(base).union_prefer_right(keyed_map(extra)),
    decreases extra.len(),
{
    if extra.len() == 0 {
        assert(keyed_map(base).union_prefer_right(keyed_map(extra)) =~= keyed_map(base));
    } else {
        let rest = extra.drop_last();
        lemma_merge_keyed_prefers_extra(base, rest);
        lemma_keyed_map_with_field(merge_keyed(base, rest), extra.last().0, extra.last().1);
        assert(keyed_map(base).union_prefer_right(keyed_map(rest)).insert(
            extra.last().0,
            extra.last().1,
        ) =~= keyed_map(base).union_prefer_right(keyed_map(extra)));
    }
}

/// Types or contents found in the file system win over those that the module
/// document declares under the same identifier, and are added to them otherwise;
/// a module that declares none takes those of the file system.
pub proof fn lemma_file_system_definitions_win<T>(
    declared: Option<Seq<(Seq<char>, T)>>,
    discovered: Seq<(Seq<char>, T)>,
)
    ensures
        extend_optional(declared, discovered) is Some,
        keyed_map(extend_optional(declared, discovered)->0) == match declared {
            None => keyed_map(discovered),
            Some(d) => keyed_map(d).union_prefer_right(keyed_map(discovered)),
        },
{
    if let Some(d) = declared {
        lemma_merge_keyed_prefers_extra(d, discovered);
    }
}

/// Building a module twice from the same directory snapshot and the same files
/// gives the same outcome, the order of its types and contents included.
pub proof fn lemma_build_is_deterministic(
    root: Directory,
    store: FileStore,
    first_fs: FileSystem,
    second_fs: FileSystem,
    first: Result<Module, ModuleError>,
    second: Result<Module, ModuleError>,
)
    requires
        file_system_of(root) == Some(first_fs@),
        file_system_of(root) == Some(second_fs@),
        module_result_view(first) == assemble(store.files@, first_fs@),
        module_result_view(second) == assemble(store.files@, second_fs@),
    ensures
        module_result_view(first) == module_result_view(second),
{
}

} // verus!
