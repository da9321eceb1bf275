use powerd6_module::entry::{Entry, EntryFromNamedPath};
use powerd6_module::entry_set::{EntrySet, EntrySetFromPath};
use powerd6_module::file_system::{
    FileSystem, FileSystemError, CONTENTS_DIRECTORY, MODULE, TYPES_DIRECTORY,
};
use powerd6_module::identifier::{IdentifierPaths, UNDERSCORE_FILE_NAME};
use powerd6_module::path::{is_file_name, name_without_extension, FilePath, NamePaths};
use powerd6_module::sorted::Sorted;
use powerd6_module::tree::{get_files_with_name, ChildrenPaths, Directory};
use powerd6_module::entry::RENDERING_DIRECTORY;
use powerd6_module::order::{name_less, sort_names};

fn path(parts: &[&str]) -> FilePath {
    FilePath::new(parts.iter().map(|p| p.to_string()).collect())
}

fn dir(parts: &[&str], files: &[&str], directories: Vec<Directory>) -> Directory {
    Directory {
        path: path(parts),
        files: files.iter().map(|f| f.to_string()).collect(),
        directories,
    }
}

fn underscore_json() -> String {
    format!("{}.json", UNDERSCORE_FILE_NAME)
}

#[test]
fn returns_file_when_file_named_exists() {
    let d = dir(&["tmp"], &["file_name"], vec![]);
    assert_eq!(
        d.has_entry_named("file_name".to_string()).unwrap(),
        Entry::File(path(&["tmp", "file_name"]))
    );
}

#[test]
fn returns_none_when_named_subdirectory_exists_but_has_no_underscore_file() {
    let some_dir = dir(&["tmp", "some_dir"], &["a.json"], vec![]);
    let d = dir(&["tmp"], &[], vec![some_dir]);
    assert!(d.has_entry_named("some_dir".to_string()).is_none());
}

#[test]
fn returns_directory_when_named_subdirectory_exists_and_has_underscore_file() {
    let u = underscore_json();
    let some_dir = dir(&["tmp", "some_dir"], &[u.as_str(), "a.json"], vec![]);
    let d = dir(&["tmp"], &[], vec![some_dir]);
    assert_eq!(
        d.has_entry_named("some_dir".to_string()).unwrap(),
        Entry::Directory {
            root_file: path(&["tmp", "some_dir", u.as_str()]),
            extra_files: vec![path(&["tmp", "some_dir", "a.json"])]
        }
    );
}

#[test]
fn maps_folder_with_underscore_file_as_single_entry() {
    let u = underscore_json();
    let d = dir(&["tmp"], &[u.as_str(), "a.json"], vec![]);
    assert_eq!(
        d.to_entry_set().unwrap(),
        EntrySet {
            base_path: path(&["tmp"]),
            entries: vec![Entry::Directory {
                root_file: path(&["tmp", u.as_str()]),
                extra_files: vec![path(&["tmp", "a.json"])]
            }]
        }
    );
}

#[test]
fn maps_folder_without_underscore_file_as_multiple_entries() {
    let d = dir(&["tmp"], &["a.json", "b.json"], vec![]);
    assert_eq!(
        d.to_entry_set().unwrap(),
        EntrySet {
            base_path: path(&["tmp"]),
            entries: vec![
                Entry::File(path(&["tmp", "a.json"])),
                Entry::File(path(&["tmp", "b.json"]))
            ]
        }
    );
}

#[test]
fn maps_rendering_subdirectory_to_parent_entry() {
    let u = underscore_json();
    let rendering = dir(&["tmp", RENDERING_DIRECTORY], &["txt.hjs"], vec![]);
    let d = dir(&["tmp"], &[u.as_str(), "a.json"], vec![rendering]);
    assert_eq!(
        d.to_entry_set().unwrap(),
        EntrySet {
            base_path: path(&["tmp"]),
            entries: vec![Entry::RenderingDirectory {
                root_file: path(&["tmp", u.as_str()]),
                extra_files: vec![path(&["tmp", "a.json"])],
                rendering_files: vec![path(&["tmp", RENDERING_DIRECTORY, "txt.hjs"])]
            }]
        }
    );
}

#[test]
fn maps_nested_directories() {
    let first = dir(&["tmp", "first"], &["a.json"], vec![]);
    let second = dir(&["tmp", "second"], &["b.json"], vec![]);
    let d = dir(&["tmp"], &[], vec![first, second]);
    assert_eq!(
        d.to_entry_set().unwrap(),
        EntrySet {
            base_path: path(&["tmp"]),
            entries: vec![
                Entry::File(path(&["tmp", "first", "a.json"])),
                Entry::File(path(&["tmp", "second", "b.json"]))
            ]
        }
    );
}

#[test]
fn unmarked_tree_gives_one_entry_per_reachable_file() {
    let rendering = dir(&["tmp", "b", RENDERING_DIRECTORY], &["x.hjs"], vec![]);
    let deep = dir(&["tmp", "b", "c"], &["d.json", "e.yaml"], vec![]);
    let b = dir(&["tmp", "b"], &["f.txt"], vec![deep, rendering]);
    let d = dir(&["tmp"], &["a.json", "z.md"], vec![b]);
    let set = d.to_entry_set().unwrap();
    assert_eq!(set.entries.len(), 5);
    assert_eq!(
        set.entries,
        vec![
            Entry::File(path(&["tmp", "a.json"])),
            Entry::File(path(&["tmp", "z.md"])),
            Entry::File(path(&["tmp", "b", "f.txt"])),
            Entry::File(path(&["tmp", "b", "c", "d.json"])),
            Entry::File(path(&["tmp", "b", "c", "e.yaml"])),
        ]
    );
}

#[test]
fn empty_directory_gives_an_empty_entry_set() {
    let d = dir(&["tmp"], &[], vec![]);
    assert_eq!(d.to_entry_set().unwrap().entries, vec![]);
}

#[test]
fn extend_entries_appends_and_keeps_the_base_path() {
    let mut first = EntrySet {
        base_path: path(&["a"]),
        entries: vec![Entry::File(path(&["a", "x.json"]))],
    };
    first.extend_entries(EntrySet {
        base_path: path(&["b"]),
        entries: vec![Entry::File(path(&["b", "y.json"]))],
    });
    assert_eq!(first.base_path, path(&["a"]));
    assert_eq!(
        first.entries,
        vec![
            Entry::File(path(&["a", "x.json"])),
            Entry::File(path(&["b", "y.json"]))
        ]
    );
}

#[test]
fn cannot_create_if_no_module_entry_exists() {
    let d = dir(&["tmp"], &[], vec![]);
    assert_eq!(
        FileSystem::try_from(&d).unwrap_err(),
        FileSystemError::MissingRequiredEntry(MODULE.to_string())
    );
}

#[test]
fn it_fails_on_empty_directory() {
    let d = dir(&["tmp", "empty"], &[], vec![]);
    assert_eq!(
        FileSystem::try_from(&d).unwrap_err(),
        FileSystemError::MissingRequiredEntry(MODULE.to_string())
    );
}

#[test]
fn missing_module_entry_is_reported_even_with_types() {
    let types = dir(&["tmp", TYPES_DIRECTORY], &["a.json"], vec![]);
    let d = dir(&["tmp"], &["modules.json"], vec![types]);
    assert_eq!(
        FileSystem::try_from(&d).unwrap_err(),
        FileSystemError::MissingRequiredEntry(MODULE.to_string())
    );
}

#[test]
fn creates_with_only_module() {
    let module_file = format!("{}.json", MODULE);
    let d = dir(&["tmp"], &[module_file.as_str()], vec![]);
    assert_eq!(
        FileSystem::try_from(&d).unwrap(),
        FileSystem {
            root_directory: path(&["tmp"]),
            module: Entry::File(path(&["tmp", module_file.as_str()])),
            types: None,
            contents: None
        }
    );
}

#[test]
fn it_works_with_only_module_file() {
    let module_file = format!("{}.json", MODULE);
    let d = dir(&["tmp"], &[module_file.as_str()], vec![]);
    assert_eq!(
        FileSystem::try_from(&d).unwrap(),
        FileSystem::new(path(&["tmp"]), Entry::File(path(&["tmp", module_file.as_str()])))
    );
}

#[test]
fn it_works_with_only_module_as_directory() {
    let u = underscore_json();
    let module_dir = dir(&["tmp", MODULE], &[u.as_str(), "description.txt"], vec![]);
    let d = dir(&["tmp"], &[], vec![module_dir]);
    assert_eq!(
        FileSystem::try_from(&d).unwrap(),
        FileSystem::new(
            path(&["tmp"]),
            Entry::Directory {
                root_file: path(&["tmp", MODULE, u.as_str()]),
                extra_files: vec![path(&["tmp", MODULE, "description.txt"])]
            }
        )
    );
}

#[test]
fn creates_with_optional_types_and_contents() {
    let module_file = format!("{}.json", MODULE);
    let contents = dir(&["tmp", CONTENTS_DIRECTORY], &["a.json"], vec![]);
    let types = dir(&["tmp", TYPES_DIRECTORY], &["a.json"], vec![]);
    let d = dir(&["tmp"], &[module_file.as_str()], vec![contents, types]);
    assert_eq!(
        FileSystem::try_from(&d).unwrap(),
        FileSystem {
            root_directory: path(&["tmp"]),
            module: Entry::File(path(&["tmp", module_file.as_str()])),
            types: Some(EntrySet {
                base_path: path(&["tmp", TYPES_DIRECTORY]),
                entries: vec![Entry::File(path(&["tmp", TYPES_DIRECTORY, "a.json"]))]
            }),
            contents: Some(EntrySet {
                base_path: path(&["tmp", CONTENTS_DIRECTORY]),
                entries: vec![Entry::File(path(&["tmp", CONTENTS_DIRECTORY, "a.json"]))]
            }),
        }
    );
}

#[test]
fn it_works_with_types() {
    let u = underscore_json();
    let module_file = format!("{}.json", MODULE);
    let t = TYPES_DIRECTORY;
    let b_rendering = dir(&["tmp", t, "b", RENDERING_DIRECTORY], &["txt.hjs", "md.hjs"], vec![]);
    let b = dir(&["tmp", t, "b"], &[u.as_str(), "description.txt"], vec![b_rendering]);
    let c = dir(&["tmp", t, "c"], &[u.as_str(), "description.txt"], vec![]);
    let types = dir(&["tmp", t], &["a.json"], vec![b, c]);
    let d = dir(&["tmp"], &[module_file.as_str()], vec![types]);
    assert_eq!(
        FileSystem::try_from(&d).unwrap().sorted(),
        FileSystem::new(path(&["tmp"]), Entry::File(path(&["tmp", module_file.as_str()])))
            .with_types(EntrySet {
                base_path: path(&["tmp", t]),
                entries: vec![
                    Entry::File(path(&["tmp", t, "a.json"])),
                    Entry::RenderingDirectory {
                        root_file: path(&["tmp", t, "b", u.as_str()]),
                        extra_files: vec![path(&["tmp", t, "b", "description.txt"])],
                        rendering_files: vec![
                            path(&["tmp", t, "b", RENDERING_DIRECTORY, "txt.hjs"]),
                            path(&["tmp", t, "b", RENDERING_DIRECTORY, "md.hjs"])
                        ],
                    },
                    Entry::Directory {
                        root_file: path(&["tmp", t, "c", u.as_str()]),
                        extra_files: vec![path(&["tmp", t, "c", "description.txt"])],
                    },
                ]
            })
            .sorted()
    );
}

#[test]
fn it_works_with_contents() {
    let u = underscore_json();
    let module_file = format!("{}.json", MODULE);
    let c = CONTENTS_DIRECTORY;
    let b_c = dir(&["tmp", c, "b", "c"], &["b-c.json"], vec![]);
    let b = dir(&["tmp", c, "b"], &[u.as_str(), "description.txt"], vec![b_c]);
    let contents = dir(&["tmp", c], &["a.json"], vec![b]);
    let d = dir(&["tmp"], &[module_file.as_str()], vec![contents]);
    assert_eq!(
        FileSystem::try_from(&d).unwrap().sorted(),
        FileSystem::new(path(&["tmp"]), Entry::File(path(&["tmp", module_file.as_str()])))
            .with_contents(EntrySet {
                base_path: path(&["tmp", c]),
                entries: vec![
                    Entry::File(path(&["tmp", c, "a.json"])),
                    Entry::Directory {
                        root_file: path(&["tmp", c, "b", u.as_str()]),
                        extra_files: vec![path(&["tmp", c, "b", "description.txt"])]
                    },
                    Entry::File(path(&["tmp", c, "b", "c", "b-c.json"])),
                ]
            })
            .sorted()
    );
}

#[test]
fn path_utils_files_and_subdirectories_are_returned() {
    let sub = dir(&["tmp", "sub_directory"], &[], vec![]);
    let d = dir(&["tmp"], &["a.json"], vec![sub]);
    assert_eq!(
        d.get_children(),
        vec![path(&["tmp", "a.json"]), path(&["tmp", "sub_directory"])]
    );
}

#[test]
fn utils_files_and_subdirectories_are_returned() {
    let sub = dir(&["tmp", "sub_directory"], &[], vec![]);
    let d = dir(&["tmp"], &["a.json"], vec![sub]);
    assert_eq!(
        d.get_children(),
        [path(&["tmp", "a.json"]), path(&["tmp", "sub_directory"])]
    );
}

#[test]
fn nested_files_and_subdirectories_are_returned() {
    let sub = dir(&["tmp", "subdirectory"], &[], vec![]);
    let d = dir(&["tmp"], &["file.json"], vec![sub]);
    assert_eq!(
        d.get_children(),
        [path(&["tmp", "file.json"]), path(&["tmp", "subdirectory"])]
    );
}

#[test]
fn returns_first_file_alphabetically_when_multiple_options_are_present() {
    let d = dir(&["tmp"], &["file.a", "file.b"], vec![]);
    assert_eq!(d.get_first_child_named("file").unwrap(), path(&["tmp", "file.a"]));
}

#[test]
fn path_utils_it_detects_file_names_correctly() {
    assert!(path(&["tmp", "a.txt"]).is_named("a"));
    assert!(path(&["tmp", "b.txt"]).is_named("b"));
    assert!(path(&["tmp", "a.json"]).is_named("a"));
}

#[test]
fn utils_it_detects_file_names_correctly() {
    assert!(is_file_name(&path(&["tmp", "a.txt"]), "a"));
    assert!(is_file_name(&path(&["tmp", "b.txt"]), "b"));
    assert!(is_file_name(&path(&["tmp", "a.json"]), "a"));
}

#[test]
fn a_longer_name_is_not_the_same_name() {
    assert!(!is_file_name(&path(&["tmp", "ab.txt"]), "a"));
    assert!(!is_file_name(&path(&[]), "a"));
}

#[test]
fn it_returns_names_without_extensions_correctly() {
    assert_eq!(path(&["tmp", "a.txt"]).get_name_without_extension(), "a");
    assert_eq!(path(&["tmp", "b.txt"]).get_name_without_extension(), "b");
    assert_eq!(path(&["tmp", "a.json"]).get_name_without_extension(), "a");
}

#[test]
fn file_names_are_extracted_without_extension() {
    assert_eq!(path(&["tmp", "first.json"]).get_name_without_extension(), "first");
    assert_eq!(path(&["tmp", "second.yaml"]).get_name_without_extension(), "second");
}

#[test]
fn directory_names_are_extracted_unchanged() {
    assert_eq!(path(&["tmp", "first"]).get_name_without_extension(), "first");
    assert_eq!(path(&["tmp", "second"]).get_name_without_extension(), "second");
}

#[test]
fn only_the_last_extension_is_taken_off() {
    assert_eq!(name_without_extension("a.b.json"), "a.b");
    assert_eq!(name_without_extension(".hidden"), ".hidden");
    assert_eq!(name_without_extension(".."), "..");
    assert_eq!(name_without_extension("trailing."), "trailing");
}

#[test]
fn file_names_are_correct() {
    assert!(path(&["tmp", "first.json"]).is_named("first"));
    assert!(path(&["tmp", "first.yaml"]).is_named("first"));
    assert!(path(&["tmp", "second.json"]).is_named("second"));
}

#[test]
fn directory_names_are_correct() {
    assert!(path(&["tmp", "first"]).is_named("first"));
    assert!(path(&["tmp", "second"]).is_named("second"));
}

#[test]
fn path_utils_it_finds_files_by_name() {
    let d = dir(&["tmp"], &["a.json", "b.json"], vec![]);
    assert_eq!(d.get_first_child_named("a").unwrap(), path(&["tmp", "a.json"]));
    assert_eq!(d.get_first_child_named("b").unwrap(), path(&["tmp", "b.json"]));
}

#[test]
fn utils_it_finds_files_by_name() {
    let d = dir(&["tmp"], &["a.json", "b.json"], vec![]);
    assert_eq!(get_files_with_name(&d, "a").unwrap(), path(&["tmp", "a.json"]));
    assert_eq!(get_files_with_name(&d, "b").unwrap(), path(&["tmp", "b.json"]));
}

#[test]
fn path_utils_it_finds_the_first_file_when_multiple_share_the_same_name() {
    let d = dir(&["tmp"], &["a.json", "a.yaml"], vec![]);
    assert!(d.get_first_child_named("a").is_some());
    assert_eq!(d.get_first_child_named("a").unwrap(), path(&["tmp", "a.json"]));
}

#[test]
fn utils_it_finds_the_first_file_when_multiple_share_the_same_name() {
    let d = dir(&["tmp"], &["a.json", "a.yaml"], vec![]);
    assert!(get_files_with_name(&d, "a").is_some());
    assert_eq!(get_files_with_name(&d, "a").unwrap(), path(&["tmp", "a.json"]));
}

#[test]
fn sibling_files_have_correct_nested_id() {
    let base = path(&["tmp", "a.json"]);
    let sibling = path(&["tmp", "something.json"]);
    assert_eq!(sibling.get_id_from_path(&base).unwrap(), String::from("something"));
}

#[test]
fn underscore_files_have_correct_nested_id() {
    let base = path(&["tmp", "a"]);
    let u = underscore_json();
    let nested = path(&["tmp", "a", "b", u.as_str()]);
    assert_eq!(nested.get_id_from_path(&base).unwrap(), String::from("b"));
}

#[test]
fn deeply_nested_files_have_correct_nested_id() {
    let base = path(&["tmp", "a"]);
    let nested = path(&["tmp", "a", "b", "c", "something.yaml"]);
    assert_eq!(nested.get_id_from_path(&base).unwrap(), String::from("b_c_something"));
}

#[test]
fn getting_identifier_of_sibling_files_returns_the_file_name() {
    let base = path(&["tmp", "a.json"]);
    let sibling = path(&["tmp", "sibling.json"]);
    assert_eq!(sibling.get_id_from_path(&base).unwrap(), String::from("sibling"));
}

#[test]
fn getting_identifier_for_file_named_underscore_returns_its_parent_name() {
    let base = path(&["tmp"]);
    let underscore = path(&["tmp", "a", "_.json"]);
    assert_eq!(underscore.get_id_from_path(&base).unwrap(), String::from("a"));
}

#[test]
fn identifier_of_deeply_nested_files_include_all_levels() {
    let base = path(&["tmp"]);
    let nested = path(&["tmp", "a", "b", "filename.json"]);
    assert_eq!(nested.get_id_from_path(&base).unwrap(), String::from("a_b_filename"));
}

#[test]
fn identifier_keeps_dots_inside_directory_names() {
    let base = path(&["tmp"]);
    let nested = path(&["tmp", "v1.json", "x.json"]);
    assert_eq!(nested.get_id_from_path(&base).unwrap(), String::from("v1.json_x"));
}

#[test]
fn paths_with_dot_names_have_no_identifier() {
    let base = path(&["tmp"]);
    assert!(path(&["tmp", "..", "x.json"]).get_id_from_path(&base).is_none());
    assert!(path(&["tmp", "x.json"]).get_id_from_path(&path(&["tmp", "."])).is_none());
    assert!(path(&["tmp", "a/b"]).get_id_from_path(&base).is_none());
}

#[test]
fn entry_identifier_uses_the_root_file_of_a_sparse_directory() {
    let set = EntrySet { base_path: path(&["types"]), entries: vec![] };
    let entry = Entry::Directory {
        root_file: path(&["types", "weapon", "_.yaml"]),
        extra_files: vec![],
    };
    assert_eq!(entry.get_id_from_nested_path(&set).unwrap(), "weapon");
    let file = Entry::File(path(&["types", "armor", "light.json"]));
    assert_eq!(file.get_id_from_nested_path(&set).unwrap(), "armor_light");
}

#[test]
fn entry_lists_the_files_it_needs() {
    let entry = Entry::RenderingDirectory {
        root_file: path(&["t", "_.json"]),
        extra_files: vec![path(&["t", "b.txt"])],
        rendering_files: vec![path(&["t", "rendering", "md.hjs"])],
    };
    assert_eq!(
        entry.files(),
        vec![
            path(&["t", "_.json"]),
            path(&["t", "b.txt"]),
            path(&["t", "rendering", "md.hjs"])
        ]
    );
}

#[test]
fn names_are_sorted_character_by_character() {
    let names = vec!["b.json", "_.json", "a.yaml", "a.json", "B", "ab"]
        .into_iter()
        .map(String::from)
        .collect();
    assert_eq!(sort_names(names), vec!["B", "_.json", "a.json", "a.yaml", "ab", "b.json"]);
    assert!(name_less("a", "ab"));
    assert!(!name_less("ab", "a"));
    assert!(!name_less("a", "a"));
}

#[test]
fn sorting_orders_files_and_entries_by_path() {
    let entry = Entry::Directory {
        root_file: path(&["t", "_.json"]),
        extra_files: vec![path(&["t", "z.txt"]), path(&["t", "b.txt"]), path(&["t", "a", "x.txt"])],
    };
    assert_eq!(
        entry.sorted(),
        Entry::Directory {
            root_file: path(&["t", "_.json"]),
            extra_files: vec![path(&["t", "a", "x.txt"]), path(&["t", "b.txt"]), path(&["t", "z.txt"])],
        }
    );
    let set = EntrySet {
        base_path: path(&["t"]),
        entries: vec![Entry::File(path(&["t", "b.json"])), Entry::File(path(&["t", "a.json"]))],
    };
    assert_eq!(
        set.sorted().entries,
        vec![Entry::File(path(&["t", "a.json"])), Entry::File(path(&["t", "b.json"]))]
    );
}
