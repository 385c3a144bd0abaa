//! The declared format of a source.

use vstd::prelude::*;

verus! {

/// How the lines of a source are written.
#[derive(Clone, Copy, Debug, PartialEq, Eq)]
pub enum FileType {
    /// One JSON value on each line.
    JSON,
    /// A header line, then one row of comma-separated fields on each line.
    CSV,
    /// Reserved: no source of this format can be opened yet.
    PARQUET,
}

} // verus!
