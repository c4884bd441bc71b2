//! Combines same-kind delimited text files found in a folder into one
//! concatenated output file per category, deduplicating a shared header line
//! and collecting per-file warnings and errors.

pub mod types;
pub mod text;
pub mod classify;
pub mod lines;
pub mod discover;
pub mod combine;
pub mod folder;
pub mod report;
pub mod cli;

pub use types::CombineReport;
pub use types::DiscoveredFiles;
pub use types::Error;
pub use types::FileRead;
pub use types::FileType;
pub use types::FolderEntry;
pub use types::GroupSummary;
pub use types::ProgressEvent;
pub use types::Warning;
pub use classify::output_filename;
pub use discover::discover_files;
pub use discover::discover_files_with_progress;
pub use combine::combine_group;
pub use folder::combine_folder;
pub use folder::combine_folder_with_progress;
pub use report::collect_errors;
pub use report::collect_warnings;
pub use report::format_group_output;
pub use report::render_report;
