use vstd::prelude::*;
use vstd::string::*;

use crate::value::{
    Value, ValueView, field_value, fields_view, find_field, keyed_view, lemma_object_view,
};

verus! {

/// The key to the contents property.
pub const CONTENTS: &'static str = "contents";

/// The key to the types property.
pub const TYPES: &'static str = "types";

/// The key to the description property.
pub const DESCRIPTION: &'static str = "description";

/// The key to the schema property.
pub const SCHEMA: &'static str = "schema";

/// The key to the rendering property.
pub const RENDERING: &'static str = "rendering";

/// The key to the title property.
pub const TITLE: &'static str = "title";

/// The key to the source property.
pub const SOURCE: &'static str = "source";

/// The definition of a type of content.
#[derive(Debug, PartialEq)]
pub struct ModuleType {
    /// The human-readable description of what the type represents.
    pub description: String,
    /// The schema used to validate the contents of this type.
    pub schema: Option<Value>,
    /// The rendering template for each supported format.
    pub rendering: Option<Vec<(String, String)>>,
}

/// The model of a [`ModuleType`].
pub ghost struct ModuleTypeView {
    pub description: Seq<char>,
    pub schema: Option<ValueView>,
    pub rendering: Option<Seq<(Seq<char>, Seq<char>)>>,
}

impl View for ModuleType {
    type V = ModuleTypeView;

    open spec fn view(&self) -> ModuleTypeView {
        ModuleTypeView {
            description: self.description@,
            schema: match self.schema {
                Some(s) => Some(s@),
                None => None,
            },
            rendering: match self.rendering {
                Some(r) => Some(keyed_view(r@)),
                None => None,
            },
        }
    }
}

/// The value of an optional field: absent and `null` both mean none.
pub open spec fn optional_field(fields: Seq<(Seq<char>, ValueView)>, key: Seq<char>) -> Option<ValueView> {
    match field_value(fields, key) {
        Some(ValueView::Null) => None,
        other => other,
    }
}

/// Whether every field holds a string.
pub open spec fn all_strings(fields: Seq<(Seq<char>, ValueView)>) -> bool {
    forall|i: int| 0 <= i < fields.len() ==> (#[trigger] fields[i]).1 is Str
}

/// The strings that the fields hold, by name.
pub open spec fn strings_of(fields: Seq<(Seq<char>, ValueView)>) -> Seq<(Seq<char>, Seq<char>)> {
    Seq::new(fields.len(), |i: int| (fields[i].0, fields[i].1->Str_0))
}

/// The type that a value describes: an object with a string `description`, an
/// optional `schema`, and an optional `rendering` object of strings.
pub open spec fn decode_type(v: ValueView) -> Option<ModuleTypeView> {
    match v {
        ValueView::Object(fields) => match field_value(fields, DESCRIPTION@) {
            Some(ValueView::Str(description)) => {
                let schema = optional_field(fields, SCHEMA@);
                match optional_field(fields, RENDERING@) {
                    None => Some(ModuleTypeView { description, schema, rendering: None }),
                    Some(ValueView::Object(templates)) => if all_strings(templates) {
                        Some(
                            ModuleTypeView {
                                description,
                                schema,
                                rendering: Some(strings_of(templates)),
                            },
                        )
                    } else {
                        None
                    },
                    Some(_) => None,
                }
            },
            _ => None,
        },
        _ => None,
    }
}

/// The model of an optional [`ModuleType`].
pub open spec fn optional_type_view(t: Option<ModuleType>) -> Option<ModuleTypeView> {
    match t {
        Some(t) => Some(t@),
        None => None,
    }
}

/// A copy of named strings.
fn copy_strings(items: &Vec<(String, String)>) -> (r: Vec<(String, String)>)
    ensures
        keyed_view(r@) == keyed_view(items@),
{
    let mut out: Vec<(String, String)> = Vec::new();
    let mut i: usize = 0;
    while i < items.len()
        invariant
            i <= items.len(),
            out.len() == i,
            forall|j: int| 0 <= j < i ==> (#[trigger] out[j]).0@ == items[j].0@ && out[j].1@ == items[j].1@,
        decreases items.len() - i,
    {
        out.push((items[i].0.clone(), items[i].1.clone()));
        i = i + 1;
    }
    assert(keyed_view(out@) =~= keyed_view(items@));
    out
}

/// The strings held by every field, if every field holds one.
fn string_fields(fields: &Vec<(String, Value)>) -> (r: Option<Vec<(String, String)>>)
    ensures
        r is Some <==> all_strings(fields_view(fields@)),
        r is Some ==> keyed_view(r->0@) == strings_of(fields_view(fields@)),
{
    let ghost fv = fields_view(fields@);
    let mut out: Vec<(String, String)> = Vec::new();
    let mut i: usize = 0;
    while i < fields.len()
        invariant
            i <= fields.len(),
            fv == fields_view(fields@),
            out.len() == i,
            forall|j: int| 0 <= j < i ==> (#[trigger] fv[j]).1 is Str,
            forall|j: int|
                0 <= j < i ==> (#[trigger] out[j]).0@ == fv[j].0 && out[j].1@ == fv[j].1->Str_0,
        decreases fields.len() - i,
    {
        match &fields[i].1 {
            Value::String(s) => {
                out.push((fields[i].0.clone(), s.clone()));
            },
            _ => {
                assert(!(fv[i as int].1 is Str));
                return None;
            },
        }
        i = i + 1;
    }
    assert(keyed_view(out@) =~= strings_of(fv));
    Some(out)
}

/// The value of an optional field, copied: absent and `null` both give none.
pub fn copy_optional_field(fields: &Vec<(String, Value)>, key: &str) -> (r: Option<Value>)
    ensures
        match r {
            Some(v) => optional_field(fields_view(fields@), key@) == Some(v@),
            None => optional_field(fields_view(fields@), key@) is None,
        },
{
    match find_field(fields, key) {
        None => None,
        Some(i) => match &fields[i].1 {
            Value::Null => None,
            other => Some(other.duplicate()),
        },
    }
}

impl ModuleType {
    /// A copy of this type.
    pub fn duplicate(&self) -> (r: ModuleType)
        ensures
            r@ == self@,
    {
        let schema = match &self.schema {
            Some(s) => Some(s.duplicate()),
            None => None,
        };
        let rendering = match &self.rendering {
            Some(r) => Some(copy_strings(r)),
            None => None,
        };
        ModuleType { description: self.description.clone(), schema, rendering }
    }

    /// Reads a type from a value; see [`decode_type`].
    pub fn try_from_value(value: &Value) -> (r: Option<ModuleType>)
        ensures
            optional_type_view(r) == decode_type(value@),
    {
        match value {
            Value::Object(fields) => {
                proof {
                    lemma_object_view(*fields);
                }
                let description = match find_field(fields, DESCRIPTION) {
                    Some(i) => match &fields[i].1 {
                        Value::String(s) => s.clone(),
                        _ => {
                            return None;
                        },
                    },
                    None => {
                        return None;
                    },
                };
                let schema = copy_optional_field(fields, SCHEMA);
                let rendering = match find_field(fields, RENDERING) {
                    None => None,
                    Some(i) => match &fields[i].1 {
                        Value::Null => None,
                        Value::Object(templates) => {
                            proof {
                                lemma_object_view(*templates);
                            }
                            match string_fields(templates) {
                                Some(t) => Some(t),
                                None => {
                                    return None;
                                },
                            }
                        },
                        _ => {
                            return None;
                        },
                    },
                };
                Some(ModuleType { description, schema, rendering })
            },
            _ => None,
        }
    }
}

} // verus!
