use vstd::prelude::*;
use vstd::string::*;

use crate::entry::{Entry, EntryView, RENDERING_DIRECTORY, rendering_name};
use crate::path::{FilePath, NamePaths, paths_view, stem_of};
use crate::value::{Value, ValueView, fields_view, insert_field, lemma_object_view, with_field};

verus! {

/// The errors that can happen when reading a file into data.
#[derive(Debug, PartialEq)]
pub enum FileDataError {
    /// The file's extension names no supported format.
    UnsupportedFileType(FilePath),
    /// The file could not be opened; the text says why.
    UnableToOpenFile(FilePath, String),
    /// The file's contents could not be parsed; the text says why.
    InvalidFileContents(FilePath, String),
}

/// The model of a [`FileDataError`].
pub ghost enum FileDataErrorView {
    UnsupportedFileType(Seq<Seq<char>>),
    UnableToOpenFile(Seq<Seq<char>>, Seq<char>),
    InvalidFileContents(Seq<Seq<char>>, Seq<char>),
}

impl View for FileDataError {
    type V = FileDataErrorView;

    open spec fn view(&self) -> FileDataErrorView {
        match self {
            FileDataError::UnsupportedFileType(p) => FileDataErrorView::UnsupportedFileType(p@),
            FileDataError::UnableToOpenFile(p, m) => FileDataErrorView::UnableToOpenFile(p@, m@),
            FileDataError::InvalidFileContents(p, m) => FileDataErrorView::InvalidFileContents(
                p@,
                m@,
            ),
        }
    }
}

impl FileDataError {
    pub fn is_unsupported_file_type(&self) -> (r: bool)
        ensures
            r == (self is UnsupportedFileType),
    {
        matches!(self, FileDataError::UnsupportedFileType(_))
    }

    pub fn is_unable_to_open_file(&self) -> (r: bool)
        ensures
            r == (self is UnableToOpenFile),
    {
        matches!(self, FileDataError::UnableToOpenFile(_, _))
    }

    pub fn is_invalid_file_contents(&self) -> (r: bool)
        ensures
            r == (self is InvalidFileContents),
    {
        matches!(self, FileDataError::InvalidFileContents(_, _))
    }

    /// A copy of this error.
    pub fn duplicate(&self) -> (r: FileDataError)
        ensures
            r@ == self@,
    {
        match self {
            FileDataError::UnsupportedFileType(p) => FileDataError::UnsupportedFileType(
                p.duplicate(),
            ),
            FileDataError::UnableToOpenFile(p, m) => FileDataError::UnableToOpenFile(
                p.duplicate(),
                m.clone(),
            ),
            FileDataError::InvalidFileContents(p, m) => FileDataError::InvalidFileContents(
                p.duplicate(),
                m.clone(),
            ),
        }
    }
}

/// The errors that can happen when reading the data of an entry.
#[derive(Debug, PartialEq)]
pub enum FileSystemDataError {
    /// The root file of a sparse directory is not an object, and therefore
    /// can't be extended with the other files.
    UnableToExtendRootFile(FilePath),
    /// One of the entry's files could not be read.
    UnableToReadFile(FileDataError),
}

/// The model of a [`FileSystemDataError`].
pub ghost enum FileSystemDataErrorView {
    UnableToExtendRootFile(Seq<Seq<char>>),
    UnableToReadFile(FileDataErrorView),
}

impl View for FileSystemDataError {
    type V = FileSystemDataErrorView;

    open spec fn view(&self) -> FileSystemDataErrorView {
        match self {
            FileSystemDataError::UnableToExtendRootFile(p) => {
                FileSystemDataErrorView::UnableToExtendRootFile(p@)
            },
            FileSystemDataError::UnableToReadFile(e) => FileSystemDataErrorView::UnableToReadFile(
                e@,
            ),
        }
    }
}

/// The outcome of reading one file.
pub open spec fn read_view(r: Result<Value, FileDataError>) -> Result<ValueView, FileDataErrorView> {
    match r {
        Ok(v) => Ok(v@),
        Err(e) => Err(e@),
    }
}

/// The outcome of reading an entry.
pub open spec fn data_view(r: Result<Value, FileSystemDataError>) -> Result<
    ValueView,
    FileSystemDataErrorView,
> {
    match r {
        Ok(v) => Ok(v@),
        Err(e) => Err(e@),
    }
}

/// The outcomes of reading files, each recorded under the file's path.
///
/// The data of entries is taken from here; a file that was never recorded could
/// not be opened.
#[derive(Debug)]
pub struct FileStore {
    pub files: Vec<(FilePath, Result<Value, FileDataError>)>,
}

/// The text given for a file that was never read.
pub open spec fn not_read_text() -> Seq<char> {
    seq!['n', 'o', 't', ' ', 'r', 'e', 'a', 'd']
}

/// The position of the first record for `path`, or -1.
pub open spec fn first_record(records: Seq<(FilePath, Result<Value, FileDataError>)>, path: Seq<Seq<char>>) -> int
    decreases records.len(),
{
    if records.len() == 0 {
        -1
    } else {
        let r = first_record(records.drop_last(), path);
        if r >= 0 {
            r
        } else if records.last().0@ == path {
            records.len() - 1
        } else {
            -1
        }
    }
}

/// The outcome of reading `path` from the records: the first one recorded for it.
pub open spec fn stored_read(records: Seq<(FilePath, Result<Value, FileDataError>)>, path: Seq<Seq<char>>) -> Result<
    ValueView,
    FileDataErrorView,
> {
    let i = first_record(records, path);
    if i < 0 {
        Err(FileDataErrorView::UnableToOpenFile(path, not_read_text()))
    } else {
        read_view(records[i].1)
    }
}

proof fn lemma_first_record_prefix(records: Seq<(FilePath, Result<Value, FileDataError>)>, path: Seq<Seq<char>>, n: int)
    requires
        0 <= n <= records.len(),
        first_record(records.subrange(0, n), path) >= 0,
    ensures
        first_record(records, path) == first_record(records.subrange(0, n), path),
    decreases records.len() - n,
{
    if n < records.len() {
        assert(records.drop_last().subrange(0, n) =~= records.subrange(0, n));
        lemma_first_record_prefix(records.drop_last(), path, n);
    } else {
        assert(records.subrange(0, n) =~= records);
    }
}

/// Whether two paths are the same.
fn same_path(a: &FilePath, b: &FilePath) -> (r: bool)
    ensures
        r == (a@ == b@),
{
    if a.parts.len() != b.parts.len() {
        assert(a@.len() != b@.len());
        return false;
    }
    let mut i: usize = 0;
    while i < a.parts.len()
        invariant
            i <= a.parts.len(),
            a.parts.len() == b.parts.len(),
            forall|j: int| 0 <= j < i ==> a@[j] == b@[j],
        decreases a.parts.len() - i,
    {
        if !(a.parts[i] == b.parts[i]) {
            assert(a@[i as int] != b@[i as int]);
            return false;
        }
        i = i + 1;
    }
    assert(a@ =~= b@);
    true
}

impl FileStore {
    /// A store with nothing recorded.
    pub fn new() -> (r: FileStore)
        ensures
            r.files@.len() == 0,
    {
        FileStore { files: Vec::new() }
    }

    /// Records the outcome of reading the file at `path`.
    pub fn record(&mut self, path: FilePath, outcome: Result<Value, FileDataError>)
        ensures
            final(self).files@ == old(self).files@.push((path, outcome)),
    {
        self.files.push((path, outcome));
    }

    /// The outcome of reading the file at `path`: a copy of the first outcome
    /// recorded for it, or a failure to open it if none was.
    pub fn read(&self, path: &FilePath) -> (r: Result<Value, FileDataError>)
        ensures
            read_view(r) == stored_read(self.files@, path@),
    {
        let mut i: usize = 0;
        while i < self.files.len()
            invariant
                i <= self.files.len(),
                first_record(self.files@.subrange(0, i as int), path@) == -1,
            decreases self.files.len() - i,
        {
            assert(self.files@.subrange(0, i + 1).drop_last() =~= self.files@.subrange(0, i as int));
            if same_path(&self.files[i].0, path) {
                proof {
                    lemma_first_record_prefix(self.files@, path@, i + 1);
                }
                return match &self.files[i].1 {
                    Ok(v) => Ok(v.duplicate()),
                    Err(e) => Err(e.duplicate()),
                };
            }
            i = i + 1;
        }
        assert(self.files@.subrange(0, i as int) =~= self.files@);
        proof {
            reveal_strlit("not read");
            assert("not read"@ =~= not_read_text());
        }
        Err(FileDataError::UnableToOpenFile(path.duplicate(), String::from_str("not read")))
    }
}

/// The key under which a file's data is added: its name without extension.
pub open spec fn path_stem(p: Seq<Seq<char>>) -> Seq<char> {
    if p.len() > 0 {
        stem_of(p.last())
    } else {
        Seq::empty()
    }
}

/// Adds the data of each file, in order, to the fields, each under its file's
/// name without extension; the first file that cannot be read stops it.
pub open spec fn merge_files(
    records: Seq<(FilePath, Result<Value, FileDataError>)>,
    fields: Seq<(Seq<char>, ValueView)>,
    files: Seq<Seq<Seq<char>>>,
) -> Result<Seq<(Seq<char>, ValueView)>, FileDataErrorView>
    decreases files.len(),
{
    if files.len() == 0 {
        Ok(fields)
    } else {
        match merge_files(records, fields, files.drop_last()) {
            Err(e) => Err(e),
            Ok(acc) => match stored_read(records, files.last()) {
                Err(e) => Err(e),
                Ok(v) => Ok(with_field(acc, path_stem(files.last()), v)),
            },
        }
    }
}

/// The data of an entry: a file's value, or a sparse directory's root object
/// extended with its other files, and with its rendering templates under
/// `rendering`.
pub open spec fn entry_data(records: Seq<(FilePath, Result<Value, FileDataError>)>, entry: EntryView) -> Result<
    ValueView,
    FileSystemDataErrorView,
> {
    match entry {
        EntryView::File(f) => match stored_read(records, f) {
            Ok(v) => Ok(v),
            Err(e) => Err(FileSystemDataErrorView::UnableToReadFile(e)),
        },
        EntryView::Directory { root_file, extra_files } => match stored_read(records, root_file) {
            Err(e) => Err(FileSystemDataErrorView::UnableToReadFile(e)),
            Ok(ValueView::Object(fields)) => match merge_files(records, fields, extra_files) {
                Err(e) => Err(FileSystemDataErrorView::UnableToReadFile(e)),
                Ok(merged) => Ok(ValueView::Object(merged)),
            },
            Ok(_) => Err(FileSystemDataErrorView::UnableToExtendRootFile(root_file)),
        },
        EntryView::RenderingDirectory { root_file, extra_files, rendering_files } => match stored_read(
            records,
            root_file,
        ) {
            Err(e) => Err(FileSystemDataErrorView::UnableToReadFile(e)),
            Ok(ValueView::Object(fields)) => match merge_files(records, fields, extra_files) {
                Err(e) => Err(FileSystemDataErrorView::UnableToReadFile(e)),
                Ok(merged) => match merge_files(records, Seq::empty(), rendering_files) {
                    Err(e) => Err(FileSystemDataErrorView::UnableToReadFile(e)),
                    Ok(templates) => Ok(
                        ValueView::Object(
                            with_field(merged, rendering_name(), ValueView::Object(templates)),
                        ),
                    ),
                },
            },
            Ok(_) => Err(FileSystemDataErrorView::UnableToExtendRootFile(root_file)),
        },
    }
}

proof fn lemma_merge_error_stays(
    records: Seq<(FilePath, Result<Value, FileDataError>)>,
    fields: Seq<(Seq<char>, ValueView)>,
    files: Seq<Seq<Seq<char>>>,
    n: int,
)
    requires
        0 <= n <= files.len(),
        merge_files(records, fields, files.subrange(0, n)) is Err,
    ensures
        merge_files(records, fields, files) == merge_files(records, fields, files.subrange(0, n)),
    decreases files.len() - n,
{
    if n < files.len() {
        assert(files.drop_last().subrange(0, n) =~= files.subrange(0, n));
        lemma_merge_error_stays(records, fields, files.drop_last(), n);
    } else {
        assert(files.subrange(0, n) =~= files);
    }
}

/// Adds the data of each file to the fields; see [`merge_files`].
fn merge_file_data(fields: &mut Vec<(String, Value)>, files: &Vec<FilePath>, store: &FileStore) -> (r: Result<(), FileDataError>)
    ensures
        match r {
            Ok(()) => merge_files(store.files@, fields_view(old(fields)@), paths_view(files@))
                == Ok::<Seq<(Seq<char>, ValueView)>, FileDataErrorView>(fields_view(final(fields)@)),
            Err(e) => merge_files(store.files@, fields_view(old(fields)@), paths_view(files@))
                == Err::<Seq<(Seq<char>, ValueView)>, FileDataErrorView>(e@),
        },
{
    let ghost start = fields_view(fields@);
    let ghost all = paths_view(files@);
    let mut i: usize = 0;
    assert(all.subrange(0, 0) =~= Seq::<Seq<Seq<char>>>::empty());
    while i < files.len()
        invariant
            i <= files.len(),
            start == fields_view(old(fields)@),
            all == paths_view(files@),
            merge_files(store.files@, start, all.subrange(0, i as int)) == Ok::<
                Seq<(Seq<char>, ValueView)>,
                FileDataErrorView,
            >(fields_view(fields@)),
        decreases files.len() - i,
    {
        assert(all.subrange(0, i + 1).drop_last() =~= all.subrange(0, i as int));
        assert(all.subrange(0, i + 1).last() == files[i as int]@);
        match store.read(&files[i]) {
            Ok(v) => {
                let key = files[i].get_name_without_extension();
                insert_field(fields, key, v);
            },
            Err(e) => {
                proof {
                    lemma_merge_error_stays(store.files@, start, all, i + 1);
                }
                return Err(e);
            },
        }
        i = i + 1;
    }
    assert(all.subrange(0, i as int) =~= all);
    Ok(())
}

impl FileStore {
    /// The data of the files as one object, each file's value under its name
    /// without extension, in order; the first file that cannot be read stops it.
    pub fn try_get_files_data(&self, files: &Vec<FilePath>) -> (r: Result<Value, FileDataError>)
        ensures
            match merge_files(self.files@, Seq::empty(), paths_view(files@)) {
                Ok(f) => r matches Ok(v) && v@ == ValueView::Object(f),
                Err(e) => r matches Err(x) && x@ == e,
            },
    {
        let mut fields: Vec<(String, Value)> = Vec::new();
        assert(fields_view(fields@) =~= Seq::<(Seq<char>, ValueView)>::empty());
        match merge_file_data(&mut fields, files, self) {
            Ok(()) => {
                proof {
                    lemma_object_view(fields);
                }
                Ok(Value::Object(fields))
            },
            Err(e) => Err(e),
        }
    }
}

impl Entry {
    /// Reads the data of this entry from the store.
    ///
    /// A file gives its own value. A sparse directory gives its root file's object,
    /// with the value of each other file set under that file's name without
    /// extension, in order; a rendering directory adds, under `rendering`, an
    /// object of its templates keyed the same way. A root file that is not an
    /// object fails with [`FileSystemDataError::UnableToExtendRootFile`]; the first
    /// file that cannot be read fails the whole entry.
    pub fn try_get_data(&self, store: &FileStore) -> (r: Result<Value, FileSystemDataError>)
        ensures
            data_view(r) == entry_data(store.files@, self@),
    {
        match self {
            Entry::File(f) => match store.read(f) {
                Ok(v) => Ok(v),
                Err(e) => Err(FileSystemDataError::UnableToReadFile(e)),
            },
            Entry::Directory { root_file, extra_files } => match store.read(root_file) {
                Err(e) => Err(FileSystemDataError::UnableToReadFile(e)),
                Ok(Value::Object(fields)) => {
                    proof {
                        lemma_object_view(fields);
                    }
                    let mut fields = fields;
                    match merge_file_data(&mut fields, extra_files, store) {
                        Ok(()) => {
                            proof {
                                lemma_object_view(fields);
                            }
                            Ok(Value::Object(fields))
                        },
                        Err(e) => Err(FileSystemDataError::UnableToReadFile(e)),
                    }
                },
                Ok(_) => Err(FileSystemDataError::UnableToExtendRootFile(root_file.duplicate())),
            },
            Entry::RenderingDirectory { root_file, extra_files, rendering_files } => match store.read(
                root_file,
            ) {
                Err(e) => Err(FileSystemDataError::UnableToReadFile(e)),
                Ok(Value::Object(fields)) => {
                    proof {
                        lemma_object_view(fields);
                    }
                    let mut fields = fields;
                    match merge_file_data(&mut fields, extra_files, store) {
                        Err(e) => Err(FileSystemDataError::UnableToReadFile(e)),
                        Ok(()) => {
                            let mut templates: Vec<(String, Value)> = Vec::new();
                            assert(fields_view(templates@) =~= Seq::<(Seq<char>, ValueView)>::empty());
                            match merge_file_data(&mut templates, rendering_files, store) {
                                Err(e) => Err(FileSystemDataError::UnableToReadFile(e)),
                                Ok(()) => {
                                    proof {
                                        assert(RENDERING_DIRECTORY@ =~= rendering_name()) by {
                                            reveal_strlit("rendering");
                                        }
                                        lemma_object_view(templates);
                                    }
                                    insert_field(
                                        &mut fields,
                                        String::from_str(RENDERING_DIRECTORY),
                                        Value::Object(templates),
                                    );
                                    proof {
                                        lemma_object_view(fields);
                                    }
                                    Ok(Value::Object(fields))
                                },
                            }
                        },
                    }
                },
                Ok(_) => Err(FileSystemDataError::UnableToExtendRootFile(root_file.duplicate())),
            },
        }
    }
}

/// A sparse directory whose root file reads as anything but an object fails
/// with the shape error that names that root file.
pub proof fn lemma_non_object_root_is_refused(
    records: Seq<(FilePath, Result<Value, FileDataError>)>,
    entry: EntryView,
)
    requires
        !(entry is File),
        stored_read(records, crate::entry_set::entry_anchor(entry)) matches Ok(v) && !(v is Object),
    ensures
        entry_data(records, entry) == Err::<ValueView, FileSystemDataErrorView>(
            FileSystemDataErrorView::UnableToExtendRootFile(crate::entry_set::entry_anchor(entry)),
        ),
{
}

} // verus!
