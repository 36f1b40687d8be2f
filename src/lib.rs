//! Incremental loading of tabular files: header detection for delimited
//! text, row windows for delimited text and workbooks, routing by file
//! extension, and the per-session pagination state.
mod detect;
mod dispatch;
mod model;
mod scan;
mod session;
mod text;
mod workbook;

pub use detect::{detect_file_structure, find_header_with_regex, is_mixed_structure, SAMPLE_LIMIT};
pub use model::{FileStructure, LoadError, LoadResult};
pub use text::{contains_chars, text_contains};
pub use scan::{DelimitedScan, RecordEvent, ScanStep, DELIMITED_SHEET_NAME};
pub use workbook::{select_sheet, workbook_window};
pub use dispatch::{file_extension, select_backend, Backend, DataLoader};
pub use session::{LoadRequest, Session, SessionStatus, WINDOW_INCREMENT};
