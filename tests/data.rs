use powerd6_module::data::{FileDataError, FileStore, FileSystemDataError};
use powerd6_module::entry::Entry;
use powerd6_module::file_type::{FileDataType, FileType};
use powerd6_module::path::FilePath;
use powerd6_module::value::{insert_field, Value};

fn path(parts: &[&str]) -> FilePath {
    FilePath::new(parts.iter().map(|p| p.to_string()).collect())
}

fn text(s: &str) -> Value {
    Value::String(s.to_string())
}

fn num(n: &str) -> Value {
    Value::Number(n.to_string())
}

fn obj(fields: Vec<(&str, Value)>) -> Value {
    Value::Object(fields.into_iter().map(|(k, v)| (k.to_string(), v)).collect())
}

fn store(files: Vec<(FilePath, Value)>) -> FileStore {
    let mut s = FileStore::new();
    for (p, v) in files {
        s.record(p, Ok(v));
    }
    s
}

#[test]
fn single_file() {
    let file = path(&["tmp", "a.json"]);
    let s = store(vec![(file.duplicate(), obj(vec![("a", num("1"))]))]);
    assert_eq!(Entry::File(file).try_get_data(&s).unwrap(), obj(vec![("a", num("1"))]));
}

#[test]
fn file_gets_parsed_and_returned() {
    let file = path(&["tmp", "a.json"]);
    let s = store(vec![(file.duplicate(), obj(vec![("a", num("1"))]))]);
    assert_eq!(Entry::File(file).try_get_data(&s).unwrap(), obj(vec![("a", num("1"))]));
}

#[test]
fn multiple_files() {
    let root_file = path(&["tmp", "a.json"]);
    let extra_txt = path(&["tmp", "text.txt"]);
    let extra_data = path(&["tmp", "more_data.json"]);
    let s = store(vec![
        (root_file.duplicate(), obj(vec![("a", num("1"))])),
        (extra_txt.duplicate(), text("simple text")),
        (extra_data.duplicate(), obj(vec![("b", num("2"))])),
    ]);
    assert_eq!(
        Entry::Directory { root_file, extra_files: vec![extra_txt, extra_data] }
            .try_get_data(&s)
            .unwrap(),
        obj(vec![
            ("a", num("1")),
            ("text", text("simple text")),
            ("more_data", obj(vec![("b", num("2"))]))
        ])
    );
}

#[test]
fn multiple_files_and_rendering_directory() {
    let root_file = path(&["tmp", "a.json"]);
    let extra_txt = path(&["tmp", "text.txt"]);
    let extra_data = path(&["tmp", "more_data.json"]);
    let rendering_txt = path(&["tmp", "rendering", "txt.hjs"]);
    let s = store(vec![
        (root_file.duplicate(), obj(vec![("a", num("1"))])),
        (extra_txt.duplicate(), text("simple text")),
        (extra_data.duplicate(), obj(vec![("b", num("2"))])),
        (rendering_txt.duplicate(), text("my render template")),
    ]);
    assert_eq!(
        Entry::RenderingDirectory {
            root_file,
            extra_files: vec![extra_txt, extra_data],
            rendering_files: vec![rendering_txt]
        }
        .try_get_data(&s)
        .unwrap(),
        obj(vec![
            ("a", num("1")),
            ("text", text("simple text")),
            ("more_data", obj(vec![("b", num("2"))])),
            ("rendering", obj(vec![("txt", text("my render template"))]))
        ])
    );
}

#[test]
fn directory_uses_extra_files_as_new_keys() {
    let root_file = path(&["tmp", "_.json"]);
    let extra_file = path(&["tmp", "b.txt"]);
    let s = store(vec![
        (root_file.duplicate(), obj(vec![("a", num("1")), ("b", num("0"))])),
        (extra_file.duplicate(), text("test")),
    ]);
    assert_eq!(
        Entry::Directory { root_file, extra_files: vec![extra_file] }.try_get_data(&s).unwrap(),
        obj(vec![("a", num("1")), ("b", text("test"))])
    );
}

#[test]
fn rendering_directory_uses_extra_files_as_new_keys() {
    let root_file = path(&["tmp", "_.json"]);
    let extra_file = path(&["tmp", "b.txt"]);
    let rendering_file = path(&["tmp", "rendering", "md.hjs"]);
    let s = store(vec![
        (root_file.duplicate(), obj(vec![("a", num("1")), ("b", num("0"))])),
        (extra_file.duplicate(), text("test")),
        (rendering_file.duplicate(), text("")),
    ]);
    assert_eq!(
        Entry::RenderingDirectory {
            root_file,
            extra_files: vec![extra_file],
            rendering_files: vec![rendering_file]
        }
        .try_get_data(&s)
        .unwrap(),
        obj(vec![
            ("a", num("1")),
            ("b", text("test")),
            ("rendering", obj(vec![("md", text(""))]))
        ])
    );
}

#[test]
fn rendering_key_of_the_root_is_replaced() {
    let root_file = path(&["tmp", "_.json"]);
    let rendering_file = path(&["tmp", "rendering", "md.hjs"]);
    let s = store(vec![
        (root_file.duplicate(), obj(vec![("rendering", num("3"))])),
        (rendering_file.duplicate(), text("x")),
    ]);
    assert_eq!(
        Entry::RenderingDirectory {
            root_file,
            extra_files: vec![],
            rendering_files: vec![rendering_file]
        }
        .try_get_data(&s)
        .unwrap(),
        obj(vec![("rendering", obj(vec![("md", text("x"))]))])
    );
}

#[test]
fn each_path_becomes_an_entry() {
    let files: Vec<FilePath> =
        ["a.txt", "b.txt", "c.txt", "d.txt"].iter().map(|f| path(&["tmp", f])).collect();
    let s = store(vec![
        (path(&["tmp", "a.txt"]), text("a")),
        (path(&["tmp", "b.txt"]), text("b")),
        (path(&["tmp", "c.txt"]), text("c")),
        (path(&["tmp", "d.txt"]), text("d")),
    ]);
    assert_eq!(
        s.try_get_files_data(&files).unwrap(),
        obj(vec![("a", text("a")), ("b", text("b")), ("c", text("c")), ("d", text("d"))])
    );
}

#[test]
fn root_that_is_not_an_object_is_refused() {
    let root_file = path(&["tmp", "_.json"]);
    let extra_file = path(&["tmp", "b.txt"]);
    let s = store(vec![
        (root_file.duplicate(), text("just a string")),
        (extra_file.duplicate(), text("test")),
    ]);
    assert_eq!(
        Entry::Directory { root_file: root_file.duplicate(), extra_files: vec![extra_file] }
            .try_get_data(&s)
            .unwrap_err(),
        FileSystemDataError::UnableToExtendRootFile(root_file)
    );
}

#[test]
fn unreadable_sibling_fails_the_entry() {
    let root_file = path(&["tmp", "_.json"]);
    let broken = path(&["tmp", "b.json"]);
    let mut s = store(vec![(root_file.duplicate(), obj(vec![]))]);
    s.record(broken.duplicate(), Err(FileDataError::InvalidFileContents(broken.duplicate(), "eof".to_string())));
    assert_eq!(
        Entry::Directory { root_file, extra_files: vec![broken.duplicate()] }
            .try_get_data(&s)
            .unwrap_err(),
        FileSystemDataError::UnableToReadFile(FileDataError::InvalidFileContents(
            broken,
            "eof".to_string()
        ))
    );
}

#[test]
fn file_missing_from_the_store_cannot_be_opened() {
    let s = FileStore::new();
    let err = Entry::File(path(&["tmp", "a.json"])).try_get_data(&s).unwrap_err();
    match err {
        FileSystemDataError::UnableToReadFile(e) => assert!(e.is_unable_to_open_file()),
        other => panic!("unexpected error {:?}", other),
    }
}

#[test]
fn insert_field_replaces_in_place_or_appends() {
    let mut fields = vec![("a".to_string(), num("1")), ("b".to_string(), num("2"))];
    insert_field(&mut fields, "a".to_string(), num("3"));
    insert_field(&mut fields, "c".to_string(), num("4"));
    assert_eq!(
        fields,
        vec![
            ("a".to_string(), num("3")),
            ("b".to_string(), num("2")),
            ("c".to_string(), num("4"))
        ]
    );
}

#[test]
fn value_duplicate_is_equal() {
    let v = obj(vec![
        ("list", Value::Array(vec![Value::Null, Value::Bool(true), num("1.5")])),
        ("nested", obj(vec![("k", text("v"))])),
    ]);
    assert_eq!(v.duplicate(), v);
}

#[test]
fn fails_for_non_files() {
    assert!(path(&["tmp"]).try_get_file_type().unwrap_err().is_unsupported_file_type());
}

#[test]
fn fails_for_unsupported_extensions() {
    assert!(path(&["tmp", "a.abc"]).try_get_file_type().unwrap_err().is_unsupported_file_type());
}

#[test]
fn file_types_follow_the_extension() {
    assert_eq!(path(&["a.json"]).try_get_file_type().unwrap(), FileType::JSON);
    assert_eq!(path(&["a.yaml"]).try_get_file_type().unwrap(), FileType::YAML);
    assert_eq!(path(&["a.yml"]).try_get_file_type().unwrap(), FileType::YAML);
    assert_eq!(path(&["a.txt"]).try_get_file_type().unwrap(), FileType::TEXT);
    assert_eq!(path(&["a.md"]).try_get_file_type().unwrap(), FileType::TEXT);
    assert_eq!(path(&["rendering", "md.hjs"]).try_get_file_type().unwrap(), FileType::TEXT);
    assert!(path(&[".json"]).try_get_file_type().is_err());
    assert!(path(&[]).try_get_file_type().is_err());
}
