//! Searching subtitle files for text that matches a regular expression.
//!
//! The format of a file is detected from its extension and content, its cues
//! are read in file order, and each cue is searched for the first occurrence
//! of the pattern.

pub mod cue;
pub mod error;
pub mod format;
pub mod limits;
pub mod matcher;
pub mod parser;
pub mod pipeline;
pub mod record;
pub mod scan;

pub use cue::{parse, parse_or_report, SubtitleEntry};
pub use error::{AppError, ExtractError};
pub use format::{detect, sniff, SubtitleFormat};
pub use matcher::{match_entries, match_entry};
pub use parser::Parser;
pub use pipeline::{compile_pattern, extract_matches};
pub use record::Match;
