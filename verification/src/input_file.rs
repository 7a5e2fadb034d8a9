//! The two file-bearing sum types: [`InputFile`], a new file to be uploaded
//! (a local path or an in-memory named byte buffer), and [`FileUpload`], which
//! is either such a pending file or a reference string the remote side already
//! understands.

use vstd::prelude::*;
use vstd::string::StringExecFns;

use crate::names::{attach_token, attach_token_string, indexed_name, indexed_name_string};

verus! {

/// The mathematical value of an [`InputFile`].
pub enum InputFileView {
    Path(Seq<char>),
    Memory { file_name: Seq<char>, data: Seq<u8> },
}

/// A new file to be uploaded as a binary part of the request: either a path on
/// local storage, read at send time by the transport, or an in-memory buffer
/// with a display file name.
#[derive(Debug)]
pub enum InputFile {
    Path(String),
    Memory { file_name: String, data: Vec<u8> },
}

impl View for InputFile {
    type V = InputFileView;

    open spec fn view(&self) -> InputFileView {
        match self {
            InputFile::Path(path) => InputFileView::Path(path@),
            InputFile::Memory { file_name, data } => InputFileView::Memory {
                file_name: file_name@,
                data: data@,
            },
        }
    }
}

impl InputFile {
    /// Build a file from a path on local storage.
    pub fn from_path(path: &str) -> (f: Self)
        ensures
            f@ == InputFileView::Path(path@),
    {
        InputFile::Path(String::from_str(path))
    }

    /// Build a file from in-memory data under a display file name.
    pub fn memory(file_name: &str, data: Vec<u8>) -> (f: Self)
        ensures
            f@ == (InputFileView::Memory { file_name: file_name@, data: data@ }),
    {
        InputFile::Memory { file_name: String::from_str(file_name), data }
    }
}

fn bytes_eq(a: &Vec<u8>, b: &Vec<u8>) -> (r: bool)
    ensures
        r == (a@ == b@),
{
    if a.len() != b.len() {
        proof {
            assert(a@ != b@);
        }
        return false;
    }
    let n = a.len();
    let mut i: usize = 0;
    while i < n
        invariant
            n == a@.len() == b@.len(),
            i <= n,
            forall|j: int| 0 <= j < i ==> a@[j] == b@[j],
        decreases n - i,
    {
        if a[i] != b[i] {
            return false;
        }
        i += 1;
    }
    proof {
        assert(a@ =~= b@);
    }
    true
}

impl Clone for InputFile {
    /// A clone has the same value.
    fn clone(&self) -> (r: Self)
        ensures
            r@ == self@,
    {
        match self {
            InputFile::Path(path) => InputFile::Path(path.clone()),
            InputFile::Memory { file_name, data } => InputFile::Memory {
                file_name: file_name.clone(),
                data: data.clone(),
            },
        }
    }
}

impl PartialEq for InputFile {
    /// Equality is structural: path equality, or file-name and data equality.
    fn eq(&self, other: &Self) -> (r: bool) {
        match (self, other) {
            (InputFile::Path(a), InputFile::Path(b)) => *a == *b,
            (
                InputFile::Memory { file_name: na, data: da },
                InputFile::Memory { file_name: nb, data: db },
            ) => *na == *nb && bytes_eq(da, db),
            _ => false,
        }
    }
}

impl Eq for InputFile {

}

impl vstd::std_specs::cmp::PartialEqSpecImpl for InputFile {
    open spec fn obeys_eq_spec() -> bool {
        true
    }

    open spec fn eq_spec(&self, other: &Self) -> bool {
        self@ == other@
    }
}

/// The mathematical value of a [`FileUpload`]: a reference the remote side
/// understands, or a file still pending upload.
pub enum FileUploadView {
    Reference(Seq<char>),
    Pending(InputFileView),
}

/// A file-bearing request field: either a reference string (a remote file id,
/// a URL, or an `attach://<name>` token left by a prior extraction pass) or a
/// new file pending upload.
#[derive(Debug)]
pub enum FileUpload {
    String(String),
    InputFile(InputFile),
}

impl View for FileUpload {
    type V = FileUploadView;

    open spec fn view(&self) -> FileUploadView {
        match self {
            FileUpload::String(reference) => FileUploadView::Reference(reference@),
            FileUpload::InputFile(file) => FileUploadView::Pending(file@),
        }
    }
}

impl Clone for FileUpload {
    /// A clone has the same value.
    fn clone(&self) -> (r: Self)
        ensures
            r@ == self@,
    {
        match self {
            FileUpload::String(reference) => FileUpload::String(reference.clone()),
            FileUpload::InputFile(file) => FileUpload::InputFile(file.clone()),
        }
    }
}

impl PartialEq for FileUpload {
    /// Equality is structural.
    fn eq(&self, other: &Self) -> (r: bool) {
        match (self, other) {
            (FileUpload::String(a), FileUpload::String(b)) => *a == *b,
            (FileUpload::InputFile(a), FileUpload::InputFile(b)) => *a == *b,
            _ => false,
        }
    }
}

impl Eq for FileUpload {

}

impl vstd::std_specs::cmp::PartialEqSpecImpl for FileUpload {
    open spec fn obeys_eq_spec() -> bool {
        true
    }

    open spec fn eq_spec(&self, other: &Self) -> bool {
        self@ == other@
    }
}

impl From<InputFile> for FileUpload {
    /// A file becomes an upload pending extraction.
    fn from(file: InputFile) -> (u: Self)
        ensures
            u == FileUpload::InputFile(file),
    {
        FileUpload::InputFile(file)
    }
}

impl vstd::std_specs::convert::FromSpecImpl<InputFile> for FileUpload {
    open spec fn obeys_from_spec() -> bool {
        true
    }

    open spec fn from_spec(file: InputFile) -> Self {
        FileUpload::InputFile(file)
    }
}

impl From<String> for FileUpload {
    /// A plain string is a reference the remote side already understands.
    fn from(reference: String) -> (u: Self)
        ensures
            u == FileUpload::String(reference),
    {
        FileUpload::String(reference)
    }
}

impl vstd::std_specs::convert::FromSpecImpl<String> for FileUpload {
    open spec fn obeys_from_spec() -> bool {
        true
    }

    open spec fn from_spec(reference: String) -> Self {
        FileUpload::String(reference)
    }
}

impl From<String> for InputFile {
    /// A plain string names a path on local storage.
    fn from(path: String) -> (f: Self)
        ensures
            f == InputFile::Path(path),
    {
        InputFile::Path(path)
    }
}

impl vstd::std_specs::convert::FromSpecImpl<String> for InputFile {
    open spec fn obeys_from_spec() -> bool {
        true
    }

    open spec fn from_spec(path: String) -> Self {
        InputFile::Path(path)
    }
}

impl FileUpload {

    /// If the field holds a pending file, move the file out, leave the token
    /// `attach://<name>` behind, and return the file; a reference field is
    /// left untouched.
    pub fn replace_attach(&mut self, name: &str) -> (r: Option<InputFile>)
        ensures
            match *old(self) {
                FileUpload::String(_) => r is None && *final(self) == *old(self),
                FileUpload::InputFile(file) => r == Some(file) && final(self)@
                    == FileUploadView::Reference(attach_token(name@)),
            },
    {
        match self {
            FileUpload::InputFile(_) => {
                let mut taken = FileUpload::String(attach_token_string(name));
                core::mem::swap(self, &mut taken);
                match taken {
                    FileUpload::InputFile(file) => Some(file),
                    FileUpload::String(_) => unreached(),
                }
            },
            FileUpload::String(_) => None,
        }
    }

    /// If the field holds a pending file, ask `index` for the next free slot
    /// `i`, move the file out, leave `attach://file<i>` behind, and return the
    /// name `file<i>` with the file.  A reference field is left untouched and
    /// `index` is not invoked for it: the contract only demands that `index`
    /// be callable when the field is pending.
    pub fn replace_attach_dyn<F: FnOnce() -> usize>(&mut self, index: F) -> (r: Option<
        (String, InputFile),
    >)
        requires
            old(self) matches FileUpload::InputFile(_) ==> call_requires(index, ()),
        ensures
            match *old(self) {
                FileUpload::String(_) => r is None && *final(self) == *old(self),
                FileUpload::InputFile(file) => exists|i: usize|
                    {
                        &&& #[trigger] call_ensures(index, (), i)
                        &&& r matches Some(p) && p.0@ == indexed_name(i as nat) && p.1 == file
                        &&& final(self)@ == FileUploadView::Reference(
                            attach_token(indexed_name(i as nat)),
                        )
                    },
            },
    {
        match self {
            FileUpload::InputFile(_) => {
                let i = index();
                let name = indexed_name_string(i);
                let mut taken = FileUpload::String(attach_token_string(name.as_str()));
                core::mem::swap(self, &mut taken);
                match taken {
                    FileUpload::InputFile(file) => Some((name, file)),
                    FileUpload::String(_) => unreached(),
                }
            },
            FileUpload::String(_) => None,
        }
    }
}

/// [`FileUpload::replace_attach`] lifted to an optional field: an absent field
/// yields nothing and stays absent.
pub fn replace_attach_opt(field: &mut Option<FileUpload>, name: &str) -> (r: Option<InputFile>)
    ensures
        match *old(field) {
            Some(FileUpload::InputFile(file)) => r == Some(file) && (*final(field) matches Some(v)
                && v@ == FileUploadView::Reference(attach_token(name@))),
            _ => r is None && *final(field) == *old(field),
        },
{
    match field {
        Some(upload) => upload.replace_attach(name),
        None => None,
    }
}

/// [`FileUpload::replace_attach_dyn`] lifted to an optional field: an absent
/// field yields nothing, stays absent, and does not invoke `index`.
pub fn replace_attach_dyn_opt<F: FnOnce() -> usize>(
    field: &mut Option<FileUpload>,
    index: F,
) -> (r: Option<(String, InputFile)>)
    requires
        *old(field) matches Some(FileUpload::InputFile(_)) ==> call_requires(index, ()),
    ensures
        match *old(field) {
            Some(FileUpload::InputFile(file)) => exists|i: usize|
                {
                    &&& #[trigger] call_ensures(index, (), i)
                    &&& r matches Some(p) && p.0@ == indexed_name(i as nat) && p.1 == file
                    &&& (*final(field) matches Some(v) && v@ == FileUploadView::Reference(
                        attach_token(indexed_name(i as nat)),
                    ))
                },
            _ => r is None && *final(field) == *old(field),
        },
{
    match field {
        Some(upload) => upload.replace_attach_dyn(index),
        None => None,
    }
}

} // verus!

