//! One calendar day's state: the date and the ordered list of its items.
//! Order is display/insertion order; nothing here sorts.

use vstd::prelude::*;

use crate::date::{Date, date_valid};
use crate::item::{Item, ItemView, item_valid};

verus! {

/// One day's items, as persisted in one file.
#[derive(Debug, Clone, PartialEq, Eq)]
pub struct DayFile {
    /// The calendar date this file represents.
    pub date: Date,
    /// Ordered items; addressed externally by 1-based position.
    pub items: Vec<Item>,
}

/// The mathematical value of a [`DayFile`].
pub ghost struct DayFileView {
    pub date: Date,
    pub items: Seq<ItemView>,
}

impl View for DayFile {
    type V = DayFileView;

    open spec fn view(&self) -> DayFileView {
        DayFileView { date: self.date, items: self.items.deep_view() }
    }
}

impl DeepView for DayFile {
    type V = DayFileView;

    open spec fn deep_view(&self) -> DayFileView {
        self.view()
    }
}

/// Date and every item in range; what the codec writes and what it
/// hands back.
pub open spec fn dayfile_valid(df: DayFileView) -> bool {
    &&& date_valid(df.date)
    &&& forall|k: int| 0 <= k < df.items.len() ==> item_valid(#[trigger] df.items[k])
}

/// The state a never-before-requested date starts from.
pub open spec fn spec_empty_dayfile(date: Date) -> DayFileView {
    DayFileView { date, items: Seq::empty() }
}

impl DayFile {
    /// Whether date and every item are in range; what
    /// [`crate::serialize_dayfile`] asks of its argument, decidable at
    /// run time for callers outside verified code.
    pub fn is_valid(&self) -> (r: bool)
        ensures
            r == dayfile_valid(self@),
    {
        if !self.date.is_valid() {
            return false;
        }
        let n = self.items.len();
        let mut k: usize = 0;
        while k < n
            invariant
                k <= n == self.items@.len(),
                forall|j: int| 0 <= j < k ==> item_valid(#[trigger] self@.items[j]),
            decreases n - k,
        {
            proof {
                assert(self.items.deep_view()[k as int] == self.items@[k as int]@);
            }
            if !self.items[k].is_valid() {
                proof {
                    assert(!item_valid(self@.items[k as int]));
                }
                return false;
            }
            k = k + 1;
        }
        true
    }

    /// An empty day-file for `date`.
    pub fn empty(date: Date) -> (r: DayFile)
        ensures
            r@ == spec_empty_dayfile(date),
    {
        let r = DayFile { date, items: Vec::new() };
        proof {
            assert(r@.items =~= Seq::<ItemView>::empty());
        }
        r
    }
}

} // verus!
