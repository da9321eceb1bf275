use vstd::prelude::*;
use vstd::string::*;

use crate::identifier::underscore;
use crate::module::Module;
use crate::module_type::{ModuleType, ModuleTypeView};
use crate::value::{Value, ValueView, field_value, fields_view, find_field, keyed_view, last_key_index, lemma_object_view};

verus! {

/// The key of a content's field that names its type.
pub const TYPE_KEY: &'static str = "type";

/// The template to be used for a format.
#[derive(Debug, PartialEq, Eq)]
pub struct RenderingContent(pub String);

impl From<String> for RenderingContent {
    fn from(value: String) -> (r: RenderingContent) {
        RenderingContent(value)
    }
}

impl vstd::std_specs::convert::FromSpecImpl<String> for RenderingContent {
    open spec fn obeys_from_spec() -> bool {
        true
    }

    open spec fn from_spec(v: String) -> RenderingContent {
        RenderingContent(v)
    }
}

/// The file format that a template produces.
#[derive(Debug, PartialEq, Eq, Hash)]
pub struct RenderingFormat(pub String);

impl From<String> for RenderingFormat {
    fn from(value: String) -> (r: RenderingFormat) {
        RenderingFormat(value)
    }
}

impl vstd::std_specs::convert::FromSpecImpl<String> for RenderingFormat {
    open spec fn obeys_from_spec() -> bool {
        true
    }

    open spec fn from_spec(v: String) -> RenderingFormat {
        RenderingFormat(v)
    }
}

/// The errors that can happen when preparing or running the rendering of a module.
#[derive(Debug, PartialEq)]
pub enum RenderingError {
    /// The module has no types, so nothing can be rendered.
    NoRenderableTypes,
    /// The content does not name its type.
    ContentHasNoType(Value),
    /// No template was compiled under this name.
    MissingTemplate(String),
    /// A template could not be compiled; the text says why.
    FailedToRegisterTemplate(String),
    /// A template could not be run; the text says why.
    FailedToRender(String),
}

/// The name of the template of a type for a format: the type's identifier and the
/// format joined with `_`.
pub open spec fn template_name(type_key: Seq<char>, format: Seq<char>) -> Seq<char> {
    type_key + underscore() + format
}

/// The templates of one type, each under its name.
pub open spec fn type_templates(type_key: Seq<char>, t: ModuleTypeView) -> Seq<(Seq<char>, Seq<char>)> {
    match t.rendering {
        None => Seq::empty(),
        Some(r) => Seq::new(r.len(), |i: int| (template_name(type_key, r[i].0), r[i].1)),
    }
}

/// The templates of all types, in order, each under its name; types without
/// rendering templates add none.
pub open spec fn template_table(types: Seq<(Seq<char>, ModuleTypeView)>) -> Seq<(Seq<char>, Seq<char>)>
    decreases types.len(),
{
    if types.len() == 0 {
        Seq::empty()
    } else {
        template_table(types.drop_last()) + type_templates(types.last().0, types.last().1)
    }
}

/// A module with the templates of its types, ready to render its contents.
#[derive(Debug)]
pub struct ModuleRenderer {
    pub module: Module,
    /// Template sources, each under its name.
    pub templates: Vec<(String, String)>,
}

/// Joins a type identifier and a format into a template name.
fn make_template_name(type_key: &str, format: &str) -> (r: String)
    ensures
        r@ == template_name(type_key@, format@),
{
    let mut name = String::from_str(type_key);
    name.append("_");
    name.append(format);
    proof {
        reveal_strlit("_");
        assert("_"@ =~= underscore());
    }
    name
}

/// Adds the templates of one type to the table.
fn add_type_templates(table: &mut Vec<(String, String)>, type_key: &String, t: &ModuleType)
    ensures
        keyed_view(final(table)@) == keyed_view(old(table)@) + type_templates(type_key@, t@),
{
    match &t.rendering {
        None => {
            assert(keyed_view(table@) =~= keyed_view(old(table)@) + type_templates(type_key@, t@));
        },
        Some(rendering) => {
            let ghost start = keyed_view(table@);
            let ghost r = keyed_view(rendering@);
            let mut i: usize = 0;
            while i < rendering.len()
                invariant
                    i <= rendering.len(),
                    r == keyed_view(rendering@),
                    t@.rendering == Some(r),
                    table.len() == start.len() + i,
                    forall|j: int| 0 <= j < start.len() ==> (#[trigger] keyed_view(table@)[j]) == start[j],
                    forall|j: int|
                        0 <= j < i ==> (#[trigger] table[start.len() + j]).0@ == template_name(
                            type_key@,
                            r[j].0,
                        ) && table[start.len() + j].1@ == r[j].1,
                    start == keyed_view(old(table)@),
                decreases rendering.len() - i,
            {
                let name = make_template_name(type_key.as_str(), rendering[i].0.as_str());
                let ghost before = keyed_view(table@);
                table.push((name, rendering[i].1.clone()));
                assert forall|j: int| 0 <= j < start.len() implies (#[trigger] keyed_view(table@)[j]) == start[j] by {
                    assert(keyed_view(table@)[j] == before[j]);
                }
                i = i + 1;
            }
            let ghost expected = start + type_templates(type_key@, t@);
            assert forall|j: int| 0 <= j < expected.len() implies #[trigger] keyed_view(table@)[j]
                == expected[j] by {
                if j >= start.len() {
                    let k = j - start.len();
                    assert(table[start.len() + k].0@ == template_name(type_key@, r[k].0));
                }
            }
            assert(keyed_view(table@) =~= expected);
        },
    }
}

/// Modules whose contents can be rendered.
pub trait RenderableModule {
    /// Gathers what is needed to render the module's contents.
    fn get_renderer(&self) -> Result<ModuleRenderer, RenderingError>;
}

impl RenderableModule for Module {
    /// A module without types cannot be rendered. Otherwise the renderer holds a
    /// copy of the module and the templates of all its types, each under the name
    /// of its type and format.
    fn get_renderer(&self) -> (r: Result<ModuleRenderer, RenderingError>)
        ensures
            match self@.types {
                None => r matches Err(RenderingError::NoRenderableTypes),
                Some(types) => r matches Ok(renderer) && renderer.module@ == self@ && keyed_view(
                    renderer.templates@,
                ) == template_table(types),
            },
    {
        let types = match &self.types {
            Some(t) => t,
            None => {
                return Err(RenderingError::NoRenderableTypes);
            },
        };
        let ghost all = keyed_view(types@);
        let mut templates: Vec<(String, String)> = Vec::new();
        let mut i: usize = 0;
        assert(all.subrange(0, 0) =~= Seq::<(Seq<char>, ModuleTypeView)>::empty());
        assert(keyed_view(templates@) =~= Seq::<(Seq<char>, Seq<char>)>::empty());
        while i < types.len()
            invariant
                i <= types.len(),
                all == keyed_view(types@),
                keyed_view(templates@) == template_table(all.subrange(0, i as int)),
            decreases types.len() - i,
        {
            assert(all.subrange(0, i + 1).drop_last() =~= all.subrange(0, i as int));
            add_type_templates(&mut templates, &types[i].0, &types[i].1);
            i = i + 1;
        }
        assert(all.subrange(0, i as int) =~= all);
        Ok(ModuleRenderer { module: self.duplicate(), templates })
    }
}

/// The type that a content names, if its type field holds a string.
pub open spec fn content_type(content: Seq<(Seq<char>, ValueView)>) -> Option<Seq<char>> {
    match field_value(content, TYPE_KEY@) {
        Some(ValueView::Str(t)) => Some(t),
        _ => None,
    }
}

impl ModuleRenderer {
    /// The name of the template that renders a content in a format: the one of the
    /// content's type for that format. A content that does not name its type is
    /// refused, and so is a name under which no template was compiled.
    pub fn template_for(&self, content: &Vec<(String, Value)>, format: &str) -> (r: Result<
        String,
        RenderingError,
    >)
        ensures
            match content_type(fields_view(content@)) {
                None => r matches Err(RenderingError::ContentHasNoType(c)) && c@ == ValueView::Object(
                    fields_view(content@),
                ),
                Some(t) => if last_key_index(keyed_view(self.templates@), template_name(t, format@))
                    >= 0 {
                    r matches Ok(name) && name@ == template_name(t, format@)
                } else {
                    r matches Err(RenderingError::MissingTemplate(name)) && name@ == template_name(
                        t,
                        format@,
                    )
                },
            },
    {
        let type_key = match find_field(content, TYPE_KEY) {
            Some(i) => match &content[i].1 {
                Value::String(s) => s,
                _ => {
                    return Err(RenderingError::ContentHasNoType(copy_content(content)));
                },
            },
            None => {
                return Err(RenderingError::ContentHasNoType(copy_content(content)));
            },
        };
        let name = make_template_name(type_key.as_str(), format);
        match find_field(&self.templates, name.as_str()) {
            Some(_) => Ok(name),
            None => Err(RenderingError::MissingTemplate(name)),
        }
    }
}

/// A content as an object value.
fn copy_content(content: &Vec<(String, Value)>) -> (r: Value)
    ensures
        r@ == ValueView::Object(fields_view(content@)),
{
    let mut fields: Vec<(String, Value)> = Vec::new();
    let mut i: usize = 0;
    while i < content.len()
        invariant
            i <= content.len(),
            fields.len() == i,
            forall|j: int|
                0 <= j < i ==> (#[trigger] fields[j]).0@ == content[j].0@ && fields[j].1@
                    == content[j].1@,
        decreases content.len() - i,
    {
        fields.push((content[i].0.clone(), content[i].1.duplicate()));
        i = i + 1;
    }
    proof {
        lemma_object_view(fields);
    }
    assert(fields_view(fields@) =~= fields_view(content@));
    Value::Object(fields)
}

} // verus!
