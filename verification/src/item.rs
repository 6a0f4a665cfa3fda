//! The task entity: identity, text, priority, tags, timestamps, optional
//! notes, and optional migration provenance. The mathematical face of an
//! item is [`ItemView`], with every string as a sequence of characters.

use vstd::prelude::*;

use crate::date::{Date, Timestamp, timestamp_valid};
use crate::sys;

verus! {

/// Task priority; anything a user writes that is not recognized maps to
/// `Low` (see [`crate::helpers::get_item_priority`]).
#[derive(Clone, Copy, Debug, PartialEq, Eq, Structural)]
pub enum ItemPriority {
    High,
    Medium,
    Low,
}

/// One task of one day.
#[derive(Debug, Clone, PartialEq, Eq)]
pub struct Item {
    /// Short random identifier, assigned at creation, immutable.
    pub id: String,
    /// Non-empty, whitespace-trimmed description.
    pub text: String,
    /// Set once at creation.
    pub created_at: Timestamp,
    /// `None` while the task is open, `Some(t)` once completed at `t`.
    pub done_at: Option<Timestamp>,
    pub priority: ItemPriority,
    /// `#word` tokens of the text at creation time, in order, `#` stripped.
    pub tags: Vec<String>,
    /// Reserved; always `None` in the current scope.
    pub due: Option<Timestamp>,
    /// Free-text block, authored externally.
    pub notes: Option<String>,
    /// The source date this item was last migrated from; `None` for items
    /// created directly on their day.
    pub migrated_from: Option<Date>,
}

/// The mathematical value of an [`Item`].
pub ghost struct ItemView {
    pub id: Seq<char>,
    pub text: Seq<char>,
    pub created_at: Timestamp,
    pub done_at: Option<Timestamp>,
    pub priority: ItemPriority,
    pub tags: Seq<Seq<char>>,
    pub due: Option<Timestamp>,
    pub notes: Option<Seq<char>>,
    pub migrated_from: Option<Date>,
}

impl View for Item {
    type V = ItemView;

    open spec fn view(&self) -> ItemView {
        ItemView {
            id: self.id@,
            text: self.text@,
            created_at: self.created_at,
            done_at: self.done_at,
            priority: self.priority,
            tags: self.tags.deep_view(),
            due: self.due,
            notes: self.notes.deep_view(),
            migrated_from: self.migrated_from,
        }
    }
}

impl DeepView for Item {
    type V = ItemView;

    open spec fn deep_view(&self) -> ItemView {
        self.view()
    }
}

fn timestamp_ok(t: Timestamp) -> (r: bool)
    ensures
        r == timestamp_valid(t),
{
    t.date.is_valid() && t.hour <= 23 && t.minute <= 59 && t.second <= 59
}

fn opt_timestamp_ok(o: &Option<Timestamp>) -> (r: bool)
    ensures
        r == (o matches Some(t) ==> timestamp_valid(*t)),
{
    match o {
        Some(t) => timestamp_ok(*t),
        None => true,
    }
}

/// Timestamps in range; the shape every item read from or written to
/// disk satisfies.
pub open spec fn item_valid(i: ItemView) -> bool {
    &&& timestamp_valid(i.created_at)
    &&& (i.done_at matches Some(t) ==> timestamp_valid(t))
    &&& (i.due matches Some(t) ==> timestamp_valid(t))
    &&& (i.migrated_from matches Some(d) ==> crate::date::date_valid(d))
}

impl Item {
    /// Whether every timestamp and date of the item is in range;
    /// decidable at run time for callers outside verified code.
    pub fn is_valid(&self) -> (r: bool)
        ensures
            r == item_valid(self@),
    {
        timestamp_ok(self.created_at) && opt_timestamp_ok(&self.done_at) && opt_timestamp_ok(
            &self.due,
        ) && match self.migrated_from {
            Some(d) => d.is_valid(),
            None => true,
        }
    }

    /// A copy with the very same value, field for field.
    pub fn duplicate(&self) -> (r: Item)
        ensures
            r@ == self@,
    {
        Item {
            id: self.id.clone(),
            text: self.text.clone(),
            created_at: self.created_at,
            done_at: self.done_at,
            priority: self.priority,
            tags: crate::strings::clone_strings(&self.tags),
            due: self.due,
            notes: match &self.notes {
                Some(s) => Some(s.clone()),
                None => None,
            },
            migrated_from: self.migrated_from,
        }
    }

    /// A fresh item: new random id, created now, open, no provenance.
    pub fn new(text: String, priority: ItemPriority, tags: Vec<String>, notes: Option<String>) -> (r: Item)
        ensures
            r@.text == text@,
            r@.priority == priority,
            r@.tags == tags.deep_view(),
            r@.notes == notes.deep_view(),
            r@.done_at is None,
            r@.due is None,
            r@.migrated_from is None,
            r@.id.len() == 6,
            timestamp_valid(r@.created_at),
            item_valid(r@),
    {
        Item {
            id: sys::fresh_item_id(),
            text,
            created_at: crate::date::now_timestamp(),
            done_at: None,
            priority,
            tags,
            due: None,
            notes,
            migrated_from: None,
        }
    }
}

} // verus!
