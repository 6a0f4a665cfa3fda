//! The error taxonomy: user-input errors are caught before any state
//! changes; data corruption and I/O failures name the file they came
//! from. Rendering the variants as text is the caller's concern.

use vstd::prelude::*;

verus! {

#[derive(Debug, Clone, PartialEq, Eq)]
pub enum TuskError {
    /// The task text was empty after trimming.
    EmptyText,
    /// A 1-based position that is 0 or beyond the end of the list.
    IndexOutOfRange { index: usize },
    /// A date string that is not `YYYY-MM-DD` nor a recognized token.
    InvalidDate { input: String },
    /// A relative date token stepped outside the representable years.
    DateOutOfRange,
    /// Migration was asked to move items from a day onto itself.
    SameMigrationDate,
    /// An existing day-file did not parse as the day-file schema; the
    /// fields carry where reading stopped and what was looked for.
    DataCorruption { path: String, offset: usize, detail: String },
    /// The file could not be read for a reason other than absence.
    IoFailure { path: String, detail: String },
}

} // verus!
