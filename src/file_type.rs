use vstd::prelude::*;
use vstd::string::*;

use crate::data::{FileDataError, FileDataErrorView};
use crate::path::{FilePath, has_extension, last_dot};

verus! {

/// The ways a file can be read into a value. These are not file formats: each
/// names how the file's contents are parsed.
#[derive(Debug, PartialEq, Eq, Clone, Copy)]
pub enum FileType {
    JSON,
    YAML,
    TEXT,
}

/// The extension of a name, if it has one.
pub open spec fn extension_of(name: Seq<char>) -> Option<Seq<char>> {
    if has_extension(name) {
        Some(name.subrange(last_dot(name) + 1, name.len() as int))
    } else {
        None
    }
}

/// The file type that an extension stands for: `json`; `yaml` or `yml`; `txt`,
/// `md` or `hjs`.
pub open spec fn file_type_of_extension(ext: Seq<char>) -> Option<FileType> {
    if ext == seq!['j', 's', 'o', 'n'] {
        Some(FileType::JSON)
    } else if ext == seq!['y', 'a', 'm', 'l'] || ext == seq!['y', 'm', 'l'] {
        Some(FileType::YAML)
    } else if ext == seq!['t', 'x', 't'] || ext == seq!['m', 'd'] || ext == seq!['h', 'j', 's'] {
        Some(FileType::TEXT)
    } else {
        None
    }
}

/// The file type of a path, from the extension of its last name.
pub open spec fn file_type_of(p: Seq<Seq<char>>) -> Option<FileType> {
    if p.len() == 0 {
        None
    } else {
        match extension_of(p.last()) {
            Some(ext) => file_type_of_extension(ext),
            None => None,
        }
    }
}

/// The extension of a name, if it has one.
pub fn name_extension(name: &str) -> (r: Option<String>)
    ensures
        match r {
            Some(e) => extension_of(name@) == Some(e@),
            None => extension_of(name@) is None,
        },
{
    let n = name.unicode_len();
    let mut i: usize = n;
    while i > 0
        invariant
            i <= n,
            n == name@.len(),
            forall|j: int| i <= j < n ==> name@[j] != '.',
        decreases i,
    {
        if name.get_char(i - 1) == '.' {
            proof {
                crate::path::lemma_last_dot_prefix(name@, i as int);
            }
            let dot = i - 1;
            let is_parent = n == 2 && name.get_char(0) == '.' && name.get_char(1) == '.';
            proof {
                if n == 2 && name@[0] == '.' && name@[1] == '.' {
                    assert(name@ =~= crate::path::parent_dir_name());
                }
                if name@ == crate::path::parent_dir_name() {
                    assert(name@.len() == 2);
                }
            }
            if dot == 0 || is_parent {
                return None;
            }
            return Some(String::from_str(name.substring_char(dot + 1, n)));
        }
        i = i - 1;
    }
    proof {
        crate::path::lemma_last_dot_prefix(name@, 0);
    }
    None
}

/// The file type that an extension stands for.
fn file_type_of_ext(ext: &String) -> (r: Option<FileType>)
    ensures
        r == file_type_of_extension(ext@),
{
    proof {
        reveal_strlit("json");
        reveal_strlit("yaml");
        reveal_strlit("yml");
        reveal_strlit("txt");
        reveal_strlit("md");
        reveal_strlit("hjs");
        assert("json"@ =~= seq!['j', 's', 'o', 'n']);
        assert("yaml"@ =~= seq!['y', 'a', 'm', 'l']);
        assert("yml"@ =~= seq!['y', 'm', 'l']);
        assert("txt"@ =~= seq!['t', 'x', 't']);
        assert("md"@ =~= seq!['m', 'd']);
        assert("hjs"@ =~= seq!['h', 'j', 's']);
    }
    if *ext == String::from_str("json") {
        Some(FileType::JSON)
    } else if *ext == String::from_str("yaml") || *ext == String::from_str("yml") {
        Some(FileType::YAML)
    } else if *ext == String::from_str("txt") || *ext == String::from_str("md") || *ext
        == String::from_str("hjs") {
        Some(FileType::TEXT)
    } else {
        None
    }
}

/// Paths whose file type can be told from their name.
pub trait FileDataType {
    /// Attempts to identify the FileType.
    fn try_get_file_type(&self) -> Result<FileType, FileDataError>;
}

impl FileDataType for FilePath {
    /// A path without an extension, or with one that stands for no file type, is
    /// unsupported.
    fn try_get_file_type(&self) -> (r: Result<FileType, FileDataError>)
        ensures
            match file_type_of(self@) {
                Some(t) => r == Ok::<FileType, FileDataError>(t),
                None => r matches Err(e) && e@ == FileDataErrorView::UnsupportedFileType(self@),
            },
    {
        let n = self.parts.len();
        if n == 0 {
            return Err(FileDataError::UnsupportedFileType(self.duplicate()));
        }
        let found = match name_extension(self.parts[n - 1].as_str()) {
            Some(ext) => file_type_of_ext(&ext),
            None => None,
        };
        match found {
            Some(t) => Ok(t),
            None => Err(FileDataError::UnsupportedFileType(self.duplicate())),
        }
    }
}

} // verus!
