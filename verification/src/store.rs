//! The day-file store's decision logic: what a load of a date's file
//! means, given what the attempt to read the file produced. The reading
//! and writing themselves happen outside; the rules live here: a missing
//! file becomes an empty day-file that must be persisted, content that
//! does not parse is data corruption and is never discarded or repaired,
//! and any other failure is reported with the path.

use vstd::prelude::*;

use crate::date::{Date, date_valid};
use crate::dayfile::{DayFile, dayfile_valid, spec_empty_dayfile};
use crate::errors::TuskError;
use crate::parse::{ParseFault, parse_dayfile, spec_parse_dayfile};
use vstd::string::StringExecFns;

verus! {

/// What the attempt to read a day-file's path produced: its full text,
/// nothing because the file does not exist, or a failure for any other
/// reason, with the reason's text.
#[derive(Debug, Clone, PartialEq, Eq)]
pub enum ReadOutcome {
    Content(String),
    Missing,
    Unreadable(String),
}

/// A loaded day-file; `created` says the state is fresh and must be
/// persisted so that the path exists from now on.
#[derive(Debug, Clone, PartialEq, Eq)]
pub struct LoadedDayFile {
    pub dayfile: DayFile,
    pub created: bool,
}

/// Turns a read outcome into the day's state. A missing file yields the
/// empty day-file for the date, to be persisted by the caller; existing
/// content must parse as the schema, and is never discarded or repaired
/// when it does not.
pub fn load_or_create_dayfile(path: &str, outcome: ReadOutcome, date: Date) -> (r: Result<
    LoadedDayFile,
    TuskError,
>)
    requires
        date_valid(date),
    ensures
        outcome is Missing ==> (r matches Ok(l) && l.dayfile@ == spec_empty_dayfile(date)
            && l.created),
        outcome matches ReadOutcome::Content(text) ==> match spec_parse_dayfile(text@) {
            Some(v) => (r matches Ok(l) && l.dayfile@ == v && !l.created),
            None => (r matches Err(e) && (e matches TuskError::DataCorruption { path: p, .. }
                && p@ == path@)),
        },
        outcome matches ReadOutcome::Unreadable(detail) ==> (r matches Err(e) && (e matches
            TuskError::IoFailure { path: p, detail: d2 } && p@ == path@ && d2@ == detail@)),
        r matches Ok(l) ==> (dayfile_valid(l.dayfile@) && (l.created <==> outcome is Missing)),
{
    match outcome {
        ReadOutcome::Missing => Ok(
            LoadedDayFile { dayfile: DayFile::empty(date), created: true },
        ),
        ReadOutcome::Content(text) => match parse_dayfile(text.as_str()) {
            Ok(df) => Ok(LoadedDayFile { dayfile: df, created: false }),
            Err(ParseFault { offset, expected }) => Err(
                TuskError::DataCorruption {
                    path: String::from_str(path),
                    offset,
                    detail: expected,
                },
            ),
        },
        ReadOutcome::Unreadable(detail) => Err(
            TuskError::IoFailure { path: String::from_str(path), detail },
        ),
    }
}

} // verus!
