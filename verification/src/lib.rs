//! Detection of invisible, ambiguous and direction-changing Unicode
//! characters in text files.
//!
//! The classifier says which code points are flagged and why; the scanner
//! turns a text into detections with exact positions; the path filter says
//! which files are left out; the collector adds up a run over many files; the
//! report renders the result. Reading files and walking directories is left
//! to the caller.

pub mod classifier;
pub mod cli;
pub mod collector;
pub mod path_filter;
pub mod report;
pub mod scanner;
pub mod text;

pub use classifier::{
    get_suspicious_chars, is_private_use_area, is_suspicious_control_char, Classification,
    Classifier,
};
pub use cli::{parse_args, ScanConfig};
pub use collector::{
    collect_candidates, open_pattern, pattern_outcome, Candidate, PathAction, ScanError, ScanTally,
};
pub use path_filter::{
    is_bundle_component, is_ignored_component, should_ignore_path, split_components,
};
pub use report::{exit_code, fatal_exit_code, format_text_output};
pub use scanner::{detect_invisible_characters, Detection};
