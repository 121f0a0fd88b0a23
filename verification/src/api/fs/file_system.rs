//! The filesystem data shapes, and the decisions around reading, saving and
//! choosing files.
//!
//! The OS calls themselves — reads, writes, native choosers — are the
//! runner's work; what stands here classifies their results, validates
//! their inputs, and turns a dismissed chooser into the expected error
//! rather than a crash.

use vstd::prelude::*;

use crate::codec::str_eq;
use crate::VeloxError;

verus! {

/// Metadata of a file or folder, reduced to what the front-end needs.
#[derive(Debug, Clone, PartialEq, Eq)]
pub struct Metadata {
    /// Whether the path points to a folder.
    pub is_dir: bool,
    /// Whether the path points to a file.
    pub is_file: bool,
    /// Whether the contents look like text.
    pub is_text: bool,
    /// Whether the contents look like binary data.
    pub is_binary: bool,
    /// The length of the file in bytes.
    pub size: u64,
}

impl Metadata {
    /// Builds metadata from what the runner read off the filesystem and the
    /// content classification.
    pub fn from(size: u64, is_dir: bool, is_file: bool, is_text: bool, is_binary: bool) -> (r:
        Metadata)
        ensures
            r == (Metadata { is_dir, is_file, is_text, is_binary, size }),
    {
        Metadata { is_dir, is_file, is_text, is_binary, size }
    }
}

/// A file read in full: its path, bytes and metadata.
#[derive(Debug, Clone, PartialEq, Eq)]
pub struct FileResult {
    /// Path of the file.
    pub path: String,
    /// Data of the file in bytes.
    pub bytes: Vec<u8>,
    /// Metadata of the file.
    pub metadata: Metadata,
}

impl FileResult {
    /// Constructs a file result.
    pub fn new(path: String, bytes: Vec<u8>, metadata: Metadata) -> (r: FileResult)
        ensures
            r.path == path,
            r.bytes == bytes,
            r.metadata == metadata,
    {
        FileResult { path, bytes, metadata }
    }
}

/// One directory entry: its name and metadata.
#[derive(Debug, Clone, PartialEq, Eq)]
pub struct File {
    pub name: String,
    pub metadata: Metadata,
}

impl File {
    /// Constructs a directory entry.
    pub fn new(name: String, metadata: Metadata) -> (r: File)
        ensures
            r.name == name,
            r.metadata == metadata,
    {
        File { name, metadata }
    }
}

/// What a file chooser handed back: one path, or several.
#[derive(Debug, Clone, PartialEq, Eq)]
pub enum FilePath {
    /// Path of a selected file.
    Single(String),
    /// List of selected file paths.
    Multiple(Vec<String>),
}

/// Whether a buffer holds binary rather than textual content.
pub uninterp spec fn binary_content(bytes: Seq<u8>) -> bool;

/// Relies on `content_inspector::inspect`: the classification is a function
/// of the buffer's bytes alone, and an empty buffer is reported as text.
#[verifier::external_body]
fn inspect_is_binary(bytes: &Vec<u8>) -> (r: bool)
    ensures
        r == binary_content(bytes@),
        bytes@.len() == 0 ==> !r,
{
    content_inspector::inspect(bytes.as_slice()).is_binary()
}

/// Assembles the result of reading a file: the bytes the runner read, with
/// their content classification and metadata.
pub fn read_file(path: String, bytes: Vec<u8>, size: u64, is_dir: bool, is_file: bool) -> (r:
    FileResult)
    ensures
        r.path == path,
        r.bytes == bytes,
        r.metadata.size == size,
        r.metadata.is_dir == is_dir,
        r.metadata.is_file == is_file,
        r.metadata.is_binary == binary_content(bytes@),
        r.metadata.is_text == !binary_content(bytes@),
{
    let is_binary = inspect_is_binary(&bytes);
    let metadata = Metadata::from(size, is_dir, is_file, !is_binary, is_binary);
    FileResult::new(path, bytes, metadata)
}

/// Turns a file chooser's outcome into a result.
///
/// A dismissed chooser is a normal outcome, reported as a dialog error the
/// page's error callback receives — never a crash.
pub fn open_dialog(selection: Option<FilePath>) -> (r: Result<FilePath, VeloxError>)
    ensures
        selection matches Some(p) ==> (r matches Ok(p2) && p2 == p),
        selection is None ==> (r matches Err(e) && e is DialogError && e.detail_text()
            == "User did not selected any file."@),
{
    match selection {
        Some(p) => Ok(p),
        None => Err(
            VeloxError::DialogError { detail: "User did not selected any file.".to_owned() },
        ),
    }
}

/// Turns a folder chooser's outcome into a result, like `open_dialog`.
pub fn select_folder(selection: Option<String>) -> (r: Result<String, VeloxError>)
    ensures
        selection matches Some(p) ==> (r matches Ok(p2) && p2 == p),
        selection is None ==> (r matches Err(e) && e is DialogError && e.detail_text()
            == "User did not selected any file."@),
{
    match selection {
        Some(p) => Ok(p),
        None => Err(
            VeloxError::DialogError { detail: "User did not selected any file.".to_owned() },
        ),
    }
}

/// Turns the save chooser's outcome into a result.
///
/// Dismissing the save chooser is a normal outcome too, with its own
/// message for the error callback.
pub fn save_dialog(selection: Option<String>) -> (r: Result<String, VeloxError>)
    ensures
        selection matches Some(p) ==> (r matches Ok(p2) && p2 == p),
        selection is None ==> (r matches Err(e) && e is DialogError && e.detail_text()
            == "User did not save the file."@),
{
    match selection {
        Some(p) => Ok(p),
        None => Err(
            VeloxError::DialogError { detail: "User did not save the file.".to_owned() },
        ),
    }
}

/// How a save request is to proceed.
#[derive(Debug, Clone, Copy, PartialEq, Eq, Structural)]
pub enum SavePlan {
    /// The target exists as a file: write it, appending or truncating.
    WriteExisting { append: bool },
    /// The target does not exist as a file: ask the user where to save.
    AskUser,
}

/// Decides how to save data at a path.
///
/// Writing an existing file takes mode `w` to overwrite or `a` to append;
/// any other mode is an invalid-mode error.  A path that is not an existing
/// file goes through the native save chooser instead.
pub fn save_file(path_exists_as_file: bool, mode: &str) -> (r: Result<SavePlan, VeloxError>)
    ensures
        path_exists_as_file && mode@ == "w"@ ==> r == Ok::<SavePlan, VeloxError>(
            SavePlan::WriteExisting { append: false },
        ),
        path_exists_as_file && mode@ == "a"@ ==> r == Ok::<SavePlan, VeloxError>(
            SavePlan::WriteExisting { append: true },
        ),
        path_exists_as_file && mode@ != "w"@ && mode@ != "a"@ ==> (r matches Err(e) && e
            is IoError && e.detail_text() == "Invalid mode."@),
        !path_exists_as_file ==> r == Ok::<SavePlan, VeloxError>(SavePlan::AskUser),
{
    proof {
        reveal_strlit("w");
        reveal_strlit("a");
        crate::codec::lemma_str_neq("w"@, "a"@, 0);
    }
    if path_exists_as_file {
        if str_eq(mode, "w") {
            Ok(SavePlan::WriteExisting { append: false })
        } else if str_eq(mode, "a") {
            Ok(SavePlan::WriteExisting { append: true })
        } else {
            Err(VeloxError::IoError { detail: "Invalid mode.".to_owned() })
        }
    } else {
        Ok(SavePlan::AskUser)
    }
}

/// Assembles a directory listing from the entries the runner read: name,
/// size, and whether each is a folder or a file.
pub fn read_dir(entries: Vec<(String, u64, bool, bool)>) -> (r: Vec<File>)
    ensures
        r@.len() == entries@.len(),
        forall|i: int|
            0 <= i < entries@.len() ==> (#[trigger] r@[i]).name == entries@[i].0 && r@[i].metadata
                == (Metadata {
                is_dir: entries@[i].2,
                is_file: entries@[i].3,
                is_text: false,
                is_binary: false,
                size: entries@[i].1,
            }),
{
    let mut out: Vec<File> = Vec::new();
    let n = entries.len();
    let mut i: usize = 0;
    while i < n
        invariant
            i <= n,
            n == entries@.len(),
            out@.len() == i,
            forall|k: int|
                0 <= k < i ==> (#[trigger] out@[k]).name == entries@[k].0 && out@[k].metadata
                    == (Metadata {
                    is_dir: entries@[k].2,
                    is_file: entries@[k].3,
                    is_text: false,
                    is_binary: false,
                    size: entries@[k].1,
                }),
        decreases n - i,
    {
        let e = &entries[i];
        let name = e.0.clone();
        out.push(File::new(name, Metadata::from(e.1, e.2, e.3, false, false)));
        i = i + 1;
    }
    out
}

} // verus!
