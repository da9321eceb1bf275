use powerd6_module::commands::RenderError;
use powerd6_module::data::{FileDataError, FileStore, FileSystemDataError};
use powerd6_module::entry::Entry;
use powerd6_module::entry_set::EntrySet;
use powerd6_module::file_system::{FileSystem, CONTENTS_DIRECTORY, TYPES_DIRECTORY};
use powerd6_module::module::{Module, ModuleError};
use powerd6_module::module_type::ModuleType;
use powerd6_module::path::FilePath;
use powerd6_module::rendering::{
    ModuleRenderer, RenderableModule, RenderingContent, RenderingError, RenderingFormat,
};
use powerd6_module::tree::Directory;
use powerd6_module::value::Value;

fn path(parts: &[&str]) -> FilePath {
    FilePath::new(parts.iter().map(|p| p.to_string()).collect())
}

fn dir(parts: &[&str], files: &[&str], directories: Vec<Directory>) -> Directory {
    Directory {
        path: path(parts),
        files: files.iter().map(|f| f.to_string()).collect(),
        directories,
    }
}

fn text(s: &str) -> Value {
    Value::String(s.to_string())
}

fn obj(fields: Vec<(&str, Value)>) -> Value {
    Value::Object(fields.into_iter().map(|(k, v)| (k.to_string(), v)).collect())
}

fn header() -> Vec<(&'static str, Value)> {
    vec![
        ("title", text("My title")),
        ("description", text("My description")),
        ("source", text("https://powerd6.org")),
    ]
}

fn module_type(description: &str) -> ModuleType {
    ModuleType { description: description.to_string(), schema: None, rendering: None }
}

fn build(root: &Directory, store: &FileStore) -> Result<Module, ModuleError> {
    let fs = FileSystem::try_from(root).unwrap();
    Module::try_from_file_system(&fs, store)
}

#[test]
fn works_with_only_mandatory_files() {
    let root = dir(&["tmp"], &["module.json"], vec![]);
    let mut store = FileStore::new();
    store.record(path(&["tmp", "module.json"]), Ok(obj(header())));
    let expected = Module::new(
        "My title".to_string(),
        "My description".to_string(),
        "https://powerd6.org".to_string(),
    )
    .unwrap();
    assert_eq!(build(&root, &store).unwrap(), expected);
}

#[test]
fn source_is_kept_in_its_serialized_form() {
    let m = Module::new("t".to_string(), "d".to_string(), "https://powerd6.org".to_string())
        .unwrap();
    assert_eq!(m.source, "https://powerd6.org/");
    assert!(Module::new("t".to_string(), "d".to_string(), "not a url".to_string()).is_none());
}

#[test]
fn types_are_populated_from_file_system_and_overwrite_types_from_module() {
    let types = dir(&["tmp", TYPES_DIRECTORY], &["a.json", "b.json"], vec![]);
    let root = dir(&["tmp"], &["module.json"], vec![types]);
    let mut fields = header();
    fields.push(("types", obj(vec![("a", obj(vec![("description", text("my type"))]))])));
    let mut store = FileStore::new();
    store.record(path(&["tmp", "module.json"]), Ok(obj(fields)));
    store.record(
        path(&["tmp", TYPES_DIRECTORY, "a.json"]),
        Ok(obj(vec![("description", text("my replaced type"))])),
    );
    store.record(
        path(&["tmp", TYPES_DIRECTORY, "b.json"]),
        Ok(obj(vec![("description", text("my new type"))])),
    );
    let mut expected = Module::new(
        "My title".to_string(),
        "My description".to_string(),
        "https://powerd6.org".to_string(),
    )
    .unwrap();
    expected.types = Some(vec![
        ("a".to_string(), module_type("my replaced type")),
        ("b".to_string(), module_type("my new type")),
    ]);
    assert_eq!(build(&root, &store).unwrap(), expected);
}

#[test]
fn contents_are_populated_from_file_system_and_overwrite_contents_from_module() {
    let contents = dir(&["tmp", CONTENTS_DIRECTORY], &["a.json", "b.json"], vec![]);
    let root = dir(&["tmp"], &["module.json"], vec![contents]);
    let mut fields = header();
    fields.push(("contents", obj(vec![("a", obj(vec![("key", text("value"))]))])));
    let mut store = FileStore::new();
    store.record(path(&["tmp", "module.json"]), Ok(obj(fields)));
    store.record(
        path(&["tmp", CONTENTS_DIRECTORY, "a.json"]),
        Ok(obj(vec![("key", text("replaced value"))])),
    );
    store.record(path(&["tmp", CONTENTS_DIRECTORY, "b.json"]), Ok(obj(vec![("key", text("value"))])));
    let mut expected = Module::new(
        "My title".to_string(),
        "My description".to_string(),
        "https://powerd6.org".to_string(),
    )
    .unwrap();
    expected.contents = Some(vec![
        ("a".to_string(), obj(vec![("key", text("replaced value"))])),
        ("b".to_string(), obj(vec![("key", text("value"))])),
    ]);
    assert_eq!(build(&root, &store).unwrap(), expected);
}

#[test]
fn building_twice_gives_the_same_module() {
    let t = TYPES_DIRECTORY;
    let b = dir(&["tmp", t, "b"], &["_.json", "description.txt"], vec![]);
    let types = dir(&["tmp", t], &["a.json"], vec![b]);
    let root = dir(&["tmp"], &["module.json"], vec![types]);
    let mut store = FileStore::new();
    store.record(path(&["tmp", "module.json"]), Ok(obj(header())));
    store.record(path(&["tmp", t, "a.json"]), Ok(obj(vec![("description", text("a"))])));
    store.record(path(&["tmp", t, "b", "_.json"]), Ok(obj(vec![])));
    store.record(path(&["tmp", t, "b", "description.txt"]), Ok(text("b")));
    let first = build(&root, &store).unwrap();
    let second = build(&root, &store).unwrap();
    assert_eq!(first, second);
    assert_eq!(
        first.types.unwrap(),
        vec![("a".to_string(), module_type("a")), ("b".to_string(), module_type("b"))]
    );
}

#[test]
fn module_document_without_a_title_is_incompatible() {
    let root = dir(&["tmp"], &["module.json"], vec![]);
    let mut store = FileStore::new();
    let doc = obj(vec![("description", text("d")), ("source", text("https://powerd6.org"))]);
    store.record(path(&["tmp", "module.json"]), Ok(doc.duplicate()));
    assert_eq!(build(&root, &store).unwrap_err(), ModuleError::IncompatibleFieldType(doc));
}

#[test]
fn content_that_is_not_an_object_is_incompatible() {
    let contents = dir(&["tmp", CONTENTS_DIRECTORY], &["a.txt"], vec![]);
    let root = dir(&["tmp"], &["module.json"], vec![contents]);
    let mut store = FileStore::new();
    store.record(path(&["tmp", "module.json"]), Ok(obj(header())));
    store.record(path(&["tmp", CONTENTS_DIRECTORY, "a.txt"]), Ok(text("plain")));
    assert_eq!(
        build(&root, &store).unwrap_err(),
        ModuleError::IncompatibleFieldType(text("plain"))
    );
}

#[test]
fn works_with_only_mandatory_fields() {
    assert_eq!(
        ModuleType::try_from_value(&obj(vec![("description", text("my type"))])).unwrap(),
        module_type("my type")
    );
}

#[test]
fn works_when_all_fields_are_present() {
    let schema = obj(vec![
        ("$schema", text("https://json-schema.org/draft/2020-12/schema")),
        ("type", text("object")),
        (
            "properties",
            obj(vec![
                ("name", obj(vec![("type", text("string"))])),
                (
                    "age",
                    obj(vec![("type", text("integer")), ("minimum", Value::Number("0".to_string()))]),
                ),
            ]),
        ),
    ]);
    let value = obj(vec![
        ("description", text("my type")),
        ("schema", schema.duplicate()),
        ("rendering", obj(vec![("txt", text("my template"))])),
    ]);
    assert_eq!(
        ModuleType::try_from_value(&value).unwrap(),
        ModuleType {
            description: "my type".to_string(),
            schema: Some(schema),
            rendering: Some(vec![("txt".to_string(), "my template".to_string())])
        }
    );
}

#[test]
fn type_with_non_string_template_is_refused() {
    let value = obj(vec![
        ("description", text("my type")),
        ("rendering", obj(vec![("txt", Value::Bool(true))])),
    ]);
    assert!(ModuleType::try_from_value(&value).is_none());
}

#[test]
fn renderer_names_templates_by_type_and_format() {
    let mut m = Module::new("t".to_string(), "d".to_string(), "https://my.source".to_string())
        .unwrap();
    m.types = Some(vec![
        (
            "spell".to_string(),
            ModuleType {
                description: "s".to_string(),
                schema: None,
                rendering: Some(vec![("md".to_string(), "# {{self.name}}".to_string())]),
            },
        ),
        ("item".to_string(), module_type("i")),
    ]);
    let renderer: ModuleRenderer = m.get_renderer().unwrap();
    assert_eq!(
        renderer.templates,
        vec![("spell_md".to_string(), "# {{self.name}}".to_string())]
    );
    let spell = vec![("type".to_string(), text("spell")), ("name".to_string(), text("x"))];
    assert_eq!(renderer.template_for(&spell, "md").unwrap(), "spell_md");
    assert_eq!(
        renderer.template_for(&spell, "txt").unwrap_err(),
        RenderingError::MissingTemplate("spell_txt".to_string())
    );
    let untyped = vec![("name".to_string(), text("x"))];
    assert_eq!(
        renderer.template_for(&untyped, "md").unwrap_err(),
        RenderingError::ContentHasNoType(obj(vec![("name", text("x"))]))
    );
}

#[test]
fn module_without_types_cannot_be_rendered() {
    let m = Module::new("t".to_string(), "d".to_string(), "https://my.source".to_string())
        .unwrap();
    assert_eq!(m.get_renderer().unwrap_err(), RenderingError::NoRenderableTypes);
}

#[test]
fn rendering_wrappers_hold_their_text() {
    assert_eq!(RenderingContent::from("Hello!".to_string()).0, "Hello!");
    assert_eq!(RenderingFormat::from("md".to_string()).0, "md");
}

#[test]
fn unreadable_type_file_stops_the_build() {
    let types = dir(&["tmp", TYPES_DIRECTORY], &["a.json"], vec![]);
    let root = dir(&["tmp"], &["module.json"], vec![types]);
    let mut store = FileStore::new();
    store.record(path(&["tmp", "module.json"]), Ok(obj(header())));
    let a = path(&["tmp", TYPES_DIRECTORY, "a.json"]);
    store.record(a.duplicate(), Err(FileDataError::InvalidFileContents(a.duplicate(), "eof".to_string())));
    assert_eq!(
        build(&root, &store).unwrap_err(),
        ModuleError::UnableToGetRequiredData(FileSystemDataError::UnableToReadFile(
            FileDataError::InvalidFileContents(a, "eof".to_string())
        ))
    );
}

#[test]
fn entry_without_identifier_stops_the_build() {
    let mut store = FileStore::new();
    store.record(path(&["tmp", "module.json"]), Ok(obj(header())));
    let odd = Entry::File(path(&["tmp", "types", "..", "a.json"]));
    let fs = FileSystem::new(path(&["tmp"]), Entry::File(path(&["tmp", "module.json"]))).with_types(
        EntrySet { base_path: path(&["tmp", "types"]), entries: vec![odd.duplicate()] },
    );
    assert_eq!(
        Module::try_from_file_system(&fs, &store).unwrap_err(),
        ModuleError::InvalidIdentifier(odd)
    );
}

#[test]
fn module_without_contents_has_nothing_to_render() {
    let m = Module::new("t".to_string(), "d".to_string(), "https://my.source".to_string())
        .unwrap();
    assert_eq!(m.contents_to_render().unwrap_err(), RenderError::MissingContents);
}
