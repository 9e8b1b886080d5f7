//! Content-addressing pipeline for static web assets.
//!
//! Given a tree of files, each file is loaded, optionally transformed
//! (CSS is minified), renamed after the BLAKE3 hash of its final bytes,
//! and recorded in a manifest that maps each original root-relative path
//! to its hashed output path.  The verified core works on plain values
//! (path strings and byte vectors); reading and writing the files
//! themselves is left to the caller.

use vstd::prelude::*;

pub mod css;
pub mod hash;
pub mod manifest;
pub mod paths;
pub mod pipeline;

use crate::paths::str_eq;

verus! {

/// The detected kind of a file, always a pure function of the file
/// extension (see [`detect_file_type`]).
#[derive(Debug, PartialEq, Eq, Structural, Clone, Copy)]
pub enum FileType {
    Image,
    CSS,
    JS,
    Other,
}

/// One unit of work in the pipeline.
#[derive(Debug)]
pub struct File {
    /// The file's root-relative path, `/`-separated; a bare file name
    /// when the file sits directly under the root.
    pub filename: String,
    /// The detected type of the file.
    pub file_type: FileType,
    /// The raw file contents.
    pub contents: Vec<u8>,
}

/// The errors a run can end with.  Every variant carries a message that
/// names the offending path or the underlying failure.
#[derive(Debug)]
pub enum StaticPreprocessingError {
    /// The input root is not a directory, or a directory read failed.
    TraversalError(String),
    /// A file read, file write, or directory creation failed.
    IOError(String),
    /// Content that must parse (CSS) was malformed, or was not valid text.
    ParsingError(String),
    /// The minifier failed on syntactically valid input.
    MinificationError(String),
    /// A path without a file-name component where one is required.
    InvalidPathError(String),
}

/// The message carried by an error, whatever its kind.
pub open spec fn error_message_spec(e: StaticPreprocessingError) -> Seq<char> {
    match e {
        StaticPreprocessingError::TraversalError(s) => s@,
        StaticPreprocessingError::IOError(s) => s@,
        StaticPreprocessingError::ParsingError(s) => s@,
        StaticPreprocessingError::MinificationError(s) => s@,
        StaticPreprocessingError::InvalidPathError(s) => s@,
    }
}

/// Where an output file is placed under the output root: directly under
/// it, or under the original file's subdirectory.  Flatten is the
/// zero-depth case of preserve.
#[derive(Debug, PartialEq, Eq, Structural, Clone, Copy)]
pub enum OutputLayout {
    Flatten,
    Preserve,
}

/// The type assigned to a file extension: the only non-`Other` cases are
/// `css`, `js`, and the common image formats, matched case-sensitively.
pub open spec fn file_type_of_ext(ext: Seq<char>) -> FileType {
    if ext == "css"@ {
        FileType::CSS
    } else if ext == "js"@ {
        FileType::JS
    } else if ext == "webp"@ || ext == "jpg"@ || ext == "jpeg"@ || ext == "png"@ || ext
        == "avif"@ {
        FileType::Image
    } else {
        FileType::Other
    }
}

/// Determines the [`FileType`] from a file extension (without the dot).
///
/// `css` and `js` map to their own types; `webp`, `jpg`, `jpeg`, `png`
/// and `avif` map to [`FileType::Image`]; every other extension maps to
/// [`FileType::Other`].
pub fn detect_file_type(ext: &str) -> (t: FileType)
    ensures
        t == file_type_of_ext(ext@),
{
    if str_eq(ext, "css") {
        FileType::CSS
    } else if str_eq(ext, "js") {
        FileType::JS
    } else if str_eq(ext, "webp") || str_eq(ext, "jpg")
        || str_eq(ext, "jpeg") || str_eq(ext, "png")
        || str_eq(ext, "avif") {
        FileType::Image
    } else {
        FileType::Other
    }
}

} // verus!
