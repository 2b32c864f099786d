//! Sorts the files of a directory by their extension: images go to
//! `TestPics` and videos to `TestVids` under the user's home directory, and
//! everything else stays where it is.
//!
//! The library decides; it touches no file. A caller lists the source
//! directory, hands the listing to [`process_files`], carries out the moves
//! that come back, and has the outcomes counted by [`tally`].

pub mod args;
pub mod destination;
pub mod error;
pub mod file_type;
pub mod walker;

pub use args::{accept_source, parse_path_args, PathArgs};
pub use destination::{home_from, home_path, join_paths, resolve, sort_into, sort_under};
pub use error::SortError;
pub use file_type::{extension, FileType};
pub use walker::{exit_code, plan_entry, process_files, tally, Entry, Outcome, Report, Step};
