//! What can go wrong in the store.

use vstd::prelude::*;

verus! {

/// Why a text could not be read as records.
#[derive(Debug, PartialEq, Eq)]
pub enum FormatError {
    /// The text is not well-formed comma-separated text; the reader's message.
    Malformed(String),
    /// The header row lacks this column, or holds it more than once.
    Column(String),
    /// The data row at this position (0-based) holds a date that does not
    /// read as `YYYY-MM-DD`; the date's text.
    Date { row: usize, text: String },
}

/// An error of the record store.
#[derive(Debug, PartialEq, Eq)]
pub enum StoreError {
    /// The file could not be opened, created or written.
    Io(String),
    /// A row could not be read as a record.
    Format(FormatError),
    /// An edit or deletion named a position past the end of the sequence.
    IndexOutOfBounds(usize),
    /// The identifier generator has too few identifiers left.
    IdsExhausted,
    /// A date given for a record does not read as `YYYY-MM-DD`; its text.
    InvalidDate(String),
}

} // verus!
