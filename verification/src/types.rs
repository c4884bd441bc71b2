//! The data model: categories, discovery inputs and results, per-file read
//! outcomes, and the report structures that presentation layers consume.

use vstd::prelude::*;

verus! {

/// The closed set of file categories. A file belongs to a category when its
/// name starts with the category's prefix.
#[derive(Debug, Clone, Copy, PartialEq, Eq, Structural)]
pub enum FileType {
    Bead,
    Motor,
}

/// A progress notification emitted while a folder is combined: running
/// per-category counts during discovery, then one event per processed file.
#[derive(Debug)]
pub enum ProgressEvent {
    Discovery { bead_files: usize, motor_files: usize },
    Combine {
        processed_files: usize,
        total_files: usize,
        file_type: FileType,
        current_file: String,
    },
}

/// One direct entry of the folder being scanned, as the caller saw it:
/// its file name and whether it is a regular file.
#[derive(Debug)]
pub struct FolderEntry {
    pub name: String,
    pub is_file: bool,
}

/// The outcome of reading one input file: the path that was opened, the bytes
/// that were obtained, and the error message if reading stopped early.
/// A file that could not be opened at all has empty content and an error.
#[derive(Debug)]
pub struct FileRead {
    pub path: String,
    pub content: Vec<u8>,
    pub error: Option<String>,
}

/// Per-category ordered lists of discovered file paths, sorted by file name.
#[derive(Debug)]
pub struct DiscoveredFiles {
    pub bead_files: Vec<String>,
    pub motor_files: Vec<String>,
}

/// A non-fatal per-file condition, such as a header mismatch.
#[derive(Debug)]
pub struct Warning {
    pub file: String,
    pub message: String,
}

/// The record of an I/O failure. `file` is absent for folder-level errors.
#[derive(Debug)]
pub struct Error {
    pub file: Option<String>,
    pub message: String,
}

/// The result of combining one category's files into one output.
#[derive(Debug)]
pub struct GroupSummary {
    pub file_type: FileType,
    pub input_files: usize,
    pub output_path: Option<String>,
    pub data_lines: usize,
    pub header: Option<Vec<u8>>,
    pub warnings: Vec<Warning>,
    pub errors: Vec<Error>,
}

/// The aggregate result of combining a whole folder.
#[derive(Debug)]
pub struct CombineReport {
    pub folder: String,
    pub bead_files: usize,
    pub motor_files: usize,
    pub bead: Option<GroupSummary>,
    pub motor: Option<GroupSummary>,
    pub errors: Vec<Error>,
}

/// The character sequences of a sequence of strings.
pub open spec fn views_of_strings(s: Seq<String>) -> Seq<Seq<char>> {
    Seq::new(s.len(), |i: int| s[i]@)
}

/// The byte sequences of a sequence of byte vectors.
pub open spec fn views_of_lines(s: Seq<Vec<u8>>) -> Seq<Seq<u8>> {
    Seq::new(s.len(), |i: int| s[i]@)
}

/// The byte sequence held by an optional byte vector.
pub open spec fn view_of_opt_bytes(o: Option<Vec<u8>>) -> Option<Seq<u8>> {
    match o {
        Some(v) => Some(v@),
        None => None,
    }
}

/// The character sequence held by an optional string.
pub open spec fn view_of_opt_string(o: Option<String>) -> Option<Seq<char>> {
    match o {
        Some(s) => Some(s@),
        None => None,
    }
}

/// The character sequence held by an optional string slice.
pub open spec fn view_of_opt_str(o: Option<&str>) -> Option<Seq<char>> {
    match o {
        Some(s) => Some(s@),
        None => None,
    }
}

/// What a warning records: the file it concerns and the message.
pub open spec fn warning_is(w: Warning, file: Seq<char>, message: Seq<char>) -> bool {
    w.file@ == file && w.message@ == message
}

/// What an error records: the optional file it concerns and the message.
pub open spec fn error_is(e: Error, file: Option<Seq<char>>, message: Seq<char>) -> bool {
    view_of_opt_string(e.file) == file && e.message@ == message
}

} // verus!
