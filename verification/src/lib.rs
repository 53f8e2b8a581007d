//! Clipboard-history core: an ordered store of recorded text entries and a
//! resolver that turns user-facing offset patterns (`3`, `~`, `~2`) into
//! concrete indices, with proved bounds checking and error reporting.

pub mod error;
pub mod history;
pub mod resolver;
