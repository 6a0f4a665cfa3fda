//! Tusk: a verified day-file store and migration engine for a daily
//! todo list. Each calendar day owns an ordered list of items persisted
//! as a JSON document; this crate holds the data model, the on-disk
//! codec, the path resolution rules and the migration algorithm, each
//! with a machine-checked contract.

use vstd::prelude::*;

mod codec;
mod date;
mod dayfile;
mod errors;
mod helpers;
mod item;
mod laws;
mod migrate;
mod ops;
mod paths;
mod render;
mod parse;
mod store;
mod strings;
mod sys;

pub use codec::{serialize_dayfile, serialize_item};
pub use parse::{ParseFault, parse_dayfile};
pub use date::{Date, Timestamp, now_timestamp, parse_ymd, today_date};
pub use dayfile::DayFile;
pub use errors::TuskError;
pub use helpers::{extract_tags, get_item_priority, sanitise_str, validate_index};
pub use migrate::{migrate_commit, migrate_dry_run, prepare_to_migrate_items};
pub use ops::{add_item, edit_item, filter_by_tags, remove_item, set_done};
pub use paths::{normalise_or_default, resolve_day_file_path};
pub use render::{RenderOpts, abbrev_id, repeat_char};
pub use store::{LoadedDayFile, ReadOutcome, load_or_create_dayfile};
pub use item::{Item, ItemPriority};

verus! {

} // verus!
