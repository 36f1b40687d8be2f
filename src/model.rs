//! The values that cross the loader's boundary: what a window holds, how a
//! delimited file is laid out, and what can go wrong.
use vstd::prelude::*;

verus! {

/// How a delimited-text file is laid out.
#[derive(Debug, Clone, Copy, PartialEq, Eq, Structural)]
pub enum FileStructure {
    /// The first record is the header.
    Simple,
    /// The header is the record at `header_line` (0-based); the records
    /// before it are a preamble that is never surfaced.
    Mixed { header_line: usize },
}

/// Why a load request failed.
#[derive(Debug, Clone)]
pub enum LoadError {
    /// The delimited-text source holds no record at all.
    EmptySource,
    /// A record could not be parsed or decoded.
    DecodeError(String),
    /// The workbook holds no sheet.
    NoSheets,
    /// The named sheet could not be read.
    SheetReadError { sheet: String, detail: String },
    /// The file's extension names no supported format; it carries the extension.
    UnsupportedFormat(String),
    /// The background execution context could not run the task.
    BackgroundTaskFailure(String),
}

/// One window of a file: the header row when the window is the first one,
/// the data rows of the window, the sheet catalog, and whether the data ended
/// inside the window.
#[derive(Debug, Clone)]
pub struct LoadResult {
    pub headers: Vec<String>,
    pub rows: Vec<Vec<String>>,
    pub sheet_names: Vec<String>,
    pub end_of_data: bool,
}

} // verus!
