//! What can go wrong while a source is read.

use vstd::prelude::*;

verus! {

/// A failure of the source. Each one ends the transfer.
#[derive(Clone, Copy, Debug, PartialEq, Eq)]
pub enum SourceError {
    /// A line is not UTF-8 text.
    InvalidText,
    /// A line of a JSON source is not one JSON value.
    MalformedJson,
    /// A line of a CSV source cannot be read as a row under the header.
    MalformedCsv,
    /// A line of a CSV source holds no row.
    MissingRow,
    /// A CSV source has no header line.
    MissingHeader,
    /// The format is declared but cannot be decoded yet.
    UnsupportedFormat,
}

impl SourceError {
    /// The sentence that says what went wrong.
    pub open spec fn text(self) -> Seq<char> {
        match self {
            SourceError::InvalidText => "a line of the source is not UTF-8 text"@,
            SourceError::MalformedJson => "a line of the source is not a JSON value"@,
            SourceError::MalformedCsv => "a line of the source is not a row under the header"@,
            SourceError::MissingRow => "a line of the source holds no row"@,
            SourceError::MissingHeader => "the source has no header line"@,
            SourceError::UnsupportedFormat => "sources of this format cannot be read yet"@,
        }
    }

    /// A sentence for the person who started the transfer.
    pub fn message(&self) -> (message: String)
        ensures
            message@ == self.text(),
    {
        let message = match self {
            SourceError::InvalidText => "a line of the source is not UTF-8 text",
            SourceError::MalformedJson => "a line of the source is not a JSON value",
            SourceError::MalformedCsv => "a line of the source is not a row under the header",
            SourceError::MissingRow => "a line of the source holds no row",
            SourceError::MissingHeader => "the source has no header line",
            SourceError::UnsupportedFormat => "sources of this format cannot be read yet",
        };
        message.to_owned()
    }
}

} // verus!
