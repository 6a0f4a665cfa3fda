//! The item lifecycle operations that the commands perform on a loaded
//! day-file: add, complete and reopen, remove, edit, and the tag filter
//! of the listing. Every mutation says exactly how the new list relates
//! to the old one; user errors leave the day-file untouched.

use vstd::prelude::*;

use crate::date::Timestamp;
use crate::dayfile::DayFile;
use crate::errors::TuskError;
use crate::helpers::{extract_tags, get_item_priority, sanitise_str, spec_priority, spec_tags,
    spec_trim, validate_index};
use crate::item::{Item, ItemPriority, ItemView, item_valid};
use crate::strings::{chars_eq, lower_chars, spec_lower};

verus! {

/// An option of a borrowed string, as a mathematical value.
pub open spec fn view_opt_str(p: Option<&str>) -> Option<Seq<char>> {
    match p {
        Option::Some(s) => Option::Some(s@),
        Option::None => Option::None,
    }
}

/// Appends a fresh item made from the arguments; empty text after
/// trimming is refused before anything changes. The new item's text is
/// the trimmed text, its tags are the `#word` tokens of the raw text,
/// and it starts open, without due date or provenance.
pub fn add_item(df: &mut DayFile, text: &str, priority: Option<&str>, notes: Option<String>) -> (r:
    Result<(), TuskError>)
    ensures
        r is Ok <==> spec_trim(text@).len() > 0,
        r matches Err(e) ==> e == TuskError::EmptyText && final(df)@ == old(df)@,
        r is Ok ==> {
            &&& final(df)@.date == old(df)@.date
            &&& final(df)@.items.len() == old(df)@.items.len() + 1
            &&& final(df)@.items.take(old(df)@.items.len() as int) == old(df)@.items
            &&& final(df)@.items.last().text == spec_trim(text@)
            &&& final(df)@.items.last().tags == spec_tags(text@)
            &&& final(df)@.items.last().priority == spec_priority(view_opt_str(priority))
            &&& final(df)@.items.last().notes == notes.deep_view()
            &&& final(df)@.items.last().done_at is None
            &&& final(df)@.items.last().due is None
            &&& final(df)@.items.last().migrated_from is None
            &&& final(df)@.items.last().id.len() == 6
            &&& item_valid(final(df)@.items.last())
        },
{
    let trimmed = match sanitise_str(text) {
        Err(e) => {
            return Err(e);
        },
        Ok(t) => t,
    };
    let tags = extract_tags(text);
    let it = Item::new(trimmed, get_item_priority(priority), tags, notes);
    let ghost before = df@.items;
    proof {
        assert(df.items.deep_view().len() == df.items@.len());
    }
    df.items.push(it);
    proof {
        assert(df@.items =~= before.push(it@));
        assert(df@.items.take(before.len() as int) =~= before);
    }
    Ok(())
}

/// The item with its completion changed: marking done keeps an existing
/// stamp and otherwise records `now`; reopening clears the stamp
/// unconditionally.
pub open spec fn spec_with_done(i: ItemView, mark: bool, now: Timestamp) -> ItemView {
    ItemView {
        done_at: if mark {
            if i.done_at is Some {
                i.done_at
            } else {
                Some(now)
            }
        } else {
            None
        },
        ..i
    }
}

/// The item list after completing or reopening the item at `pos`.
pub open spec fn spec_set_done(
    items: Seq<ItemView>,
    pos: int,
    mark: bool,
    now: Timestamp,
) -> Seq<ItemView> {
    items.update(pos, spec_with_done(items[pos], mark, now))
}

/// Marks the item at the 1-based `index` done at `now`, or reopens it.
/// Marking an already-done item keeps its original stamp.
pub fn set_done(df: &mut DayFile, index: usize, mark_done: bool, now: Timestamp) -> (r: Result<
    (),
    TuskError,
>)
    ensures
        r is Ok <==> 1 <= index <= old(df)@.items.len(),
        r matches Err(e) ==> e == (TuskError::IndexOutOfRange { index }) && final(df)@ == old(df)@,
        r is Ok ==> final(df)@.date == old(df)@.date && final(df)@.items == spec_set_done(
            old(df)@.items,
            index - 1,
            mark_done,
            now,
        ),
{
    let pos = match validate_index(index, df.items.len()) {
        Err(e) => {
            return Err(e);
        },
        Ok(p) => p,
    };
    let mut c = df.items[pos].duplicate();
    if mark_done {
        if c.done_at.is_none() {
            c.done_at = Some(now);
        }
    } else {
        c.done_at = None;
    }
    let ghost before = df@.items;
    proof {
        assert(df.items.deep_view()[pos as int] == df.items@[pos as int]@);
        assert(c@ == spec_with_done(before[pos as int], mark_done, now));
        assert(df.items.deep_view().len() == df.items@.len());
    }
    df.items.set(pos, c);
    proof {
        assert(df@.items =~= before.update(pos as int, c@));
    }
    Ok(())
}

/// Removes and returns the item at the 1-based `index`; every item after
/// it moves down one position.
pub fn remove_item(df: &mut DayFile, index: usize) -> (r: Result<Item, TuskError>)
    ensures
        r is Ok <==> 1 <= index <= old(df)@.items.len(),
        r matches Err(e) ==> e == (TuskError::IndexOutOfRange { index }) && final(df)@ == old(df)@,
        r matches Ok(it) ==> it@ == old(df)@.items[index - 1] && final(df)@.date == old(df)@.date
            && final(df)@.items == old(df)@.items.remove(index - 1),
{
    let pos = match validate_index(index, df.items.len()) {
        Err(e) => {
            return Err(e);
        },
        Ok(p) => p,
    };
    let ghost before = df@.items;
    proof {
        assert(df.items.deep_view()[pos as int] == df.items@[pos as int]@);
        assert(df.items.deep_view().len() == df.items@.len());
    }
    let it = df.items.remove(pos);
    proof {
        assert(df@.items =~= before.remove(pos as int));
    }
    Ok(it)
}

/// The item after an edit: replaced text must be non-empty once trimmed;
/// notes and priority are replaced only when a replacement is given.
/// Tags are fixed at creation and are not re-extracted from new text.
pub open spec fn spec_edited(
    i: ItemView,
    text: Option<Seq<char>>,
    notes: Option<Seq<char>>,
    priority: Option<Seq<char>>,
) -> ItemView {
    ItemView {
        text: match text {
            Option::Some(t) => spec_trim(t),
            Option::None => i.text,
        },
        notes: match notes {
            Option::Some(n) => Option::Some(n),
            Option::None => i.notes,
        },
        priority: match priority {
            Option::Some(_) => spec_priority(priority),
            Option::None => i.priority,
        },
        ..i
    }
}

/// Edits the item at the 1-based `index`: any of text, notes and
/// priority may be replaced; the others stay. Both user errors are
/// caught before any change.
pub fn edit_item(
    df: &mut DayFile,
    index: usize,
    text: Option<&str>,
    notes: Option<String>,
    priority: Option<&str>,
) -> (r: Result<(), TuskError>)
    ensures
        r is Ok <==> 1 <= index <= old(df)@.items.len() && (text matches Some(t) ==> spec_trim(
            t@,
        ).len() > 0),
        r is Err ==> final(df)@ == old(df)@,
        r matches Err(e) ==> (e == (TuskError::IndexOutOfRange { index }) && !(1 <= index <= old(
            df,
        )@.items.len())) || (e == TuskError::EmptyText && 1 <= index <= old(df)@.items.len()),
        r is Ok ==> final(df)@.date == old(df)@.date && final(df)@.items == old(df)@.items.update(
            index - 1,
            spec_edited(
                old(df)@.items[index - 1],
                view_opt_str(text),
                notes.deep_view(),
                view_opt_str(priority),
            ),
        ),
{
    let pos = match validate_index(index, df.items.len()) {
        Err(e) => {
            return Err(e);
        },
        Ok(p) => p,
    };
    let mut c = df.items[pos].duplicate();
    match text {
        Some(t) => {
            match sanitise_str(t) {
                Err(e) => {
                    return Err(e);
                },
                Ok(nt) => {
                    c.text = nt;
                },
            }
        },
        None => {},
    }
    let replace_notes = notes.is_some();
    if replace_notes {
        c.notes = notes;
    }
    match priority {
        Some(_) => {
            c.priority = get_item_priority(priority);
        },
        None => {},
    }
    let ghost before = df@.items;
    proof {
        assert(df.items.deep_view()[pos as int] == df.items@[pos as int]@);
        assert(df.items.deep_view().len() == df.items@.len());
        assert(c@ == spec_edited(
            before[pos as int],
            view_opt_str(text),
            notes.deep_view(),
            view_opt_str(priority),
        ));
    }
    df.items.set(pos, c);
    proof {
        assert(df@.items =~= before.update(pos as int, c@));
    }
    Ok(())
}

/// Completing is idempotent: marking an item done a second time, at any
/// later (or any other) moment, changes nothing at all — the original
/// completion stamp stays.
pub proof fn lemma_complete_idempotent(
    items: Seq<ItemView>,
    pos: int,
    now1: Timestamp,
    now2: Timestamp,
)
    requires
        0 <= pos < items.len(),
    ensures
        spec_set_done(spec_set_done(items, pos, true, now1), pos, true, now2) == spec_set_done(
            items,
            pos,
            true,
            now1,
        ),
{
    let once = spec_set_done(items, pos, true, now1);
    assert(once[pos].done_at is Some);
    assert(spec_with_done(once[pos], true, now2) == once[pos]);
    assert(spec_set_done(once, pos, true, now2) =~= once);
}

/// Reopening and completing again records the new moment: the second
/// stamp is exactly `now2`, later than the first whenever the clock
/// moved forward.
pub proof fn lemma_reopen_recomplete(
    items: Seq<ItemView>,
    pos: int,
    now1: Timestamp,
    now2: Timestamp,
)
    requires
        0 <= pos < items.len(),
        items[pos].done_at is None,
    ensures
        ({
            let done1 = spec_set_done(items, pos, true, now1);
            let reopened = spec_set_done(done1, pos, false, now1);
            let done2 = spec_set_done(reopened, pos, true, now2);
            &&& done1[pos].done_at == Some(now1)
            &&& reopened[pos].done_at is None
            &&& done2[pos].done_at == Some(now2)
            &&& (crate::date::timestamp_lt(now1, now2) ==> crate::date::timestamp_lt(
                done1[pos].done_at->0,
                done2[pos].done_at->0,
            ))
        }),
{
}

/// Removing the item at a position shifts every item after it down by
/// one and leaves every item before it in place.
pub proof fn lemma_remove_shifts(items: Seq<ItemView>, pos: int)
    requires
        0 <= pos < items.len(),
    ensures
        items.remove(pos).len() == items.len() - 1,
        forall|j: int| 0 <= j < pos ==> items.remove(pos)[j] == items[j],
        forall|j: int| pos <= j < items.len() - 1 ==> items.remove(pos)[j] == items[j + 1],
{
}

/// Whether some tag of the item spells `q` ignoring ascii case.
pub open spec fn spec_tag_match(item_tags: Seq<Seq<char>>, q: Seq<char>) -> bool {
    exists|j: int|
        0 <= j < item_tags.len() && spec_lower(#[trigger] item_tags[j]) == spec_lower(q)
}

/// Whether the item carries every queried tag.
pub open spec fn spec_matches_all(i: ItemView, qs: Seq<Seq<char>>) -> bool {
    forall|k: int| 0 <= k < qs.len() ==> spec_tag_match(i.tags, #[trigger] qs[k])
}

/// The tag-query predicate, as one shared function value.
pub open spec fn tag_query_pred(qs: Seq<Seq<char>>) -> spec_fn(ItemView) -> bool {
    |i: ItemView| spec_matches_all(i, qs)
}

fn has_matching_tag(item_tags: &Vec<String>, q_low: &Vec<char>, Ghost(q): Ghost<Seq<char>>) -> (r:
    bool)
    requires
        q_low@ == spec_lower(q),
    ensures
        r == spec_tag_match(item_tags.deep_view(), q),
{
    let n = item_tags.len();
    let mut j: usize = 0;
    while j < n
        invariant
            j <= n == item_tags@.len(),
            q_low@ == spec_lower(q),
            forall|j2: int|
                0 <= j2 < j ==> spec_lower(#[trigger] item_tags.deep_view()[j2]) != spec_lower(q),
        decreases n - j,
    {
        let t_low = lower_chars(item_tags[j].as_str());
        if chars_eq(&t_low, q_low) {
            proof {
                assert(item_tags.deep_view()[j as int] == item_tags@[j as int]@);
                assert(spec_lower(item_tags.deep_view()[j as int]) == spec_lower(q));
            }
            return true;
        }
        proof {
            assert(item_tags.deep_view()[j as int] == item_tags@[j as int]@);
        }
        j = j + 1;
    }
    false
}

fn item_matches_tags(i: &Item, qs: &Vec<String>) -> (r: bool)
    ensures
        r == spec_matches_all(i@, qs.deep_view()),
{
    let n = qs.len();
    let mut k: usize = 0;
    while k < n
        invariant
            k <= n == qs@.len(),
            forall|k2: int|
                0 <= k2 < k ==> spec_tag_match(i@.tags, #[trigger] qs.deep_view()[k2]),
        decreases n - k,
    {
        let q_low = lower_chars(qs[k].as_str());
        proof {
            assert(qs.deep_view()[k as int] == qs@[k as int]@);
        }
        if !has_matching_tag(&i.tags, &q_low, Ghost(qs@[k as int]@)) {
            proof {
                assert(!spec_tag_match(i@.tags, qs.deep_view()[k as int]));
            }
            return false;
        }
        k = k + 1;
    }
    true
}

/// The day's items narrowed to those carrying every queried tag,
/// compared ignoring ascii case; the day-file itself is untouched. With
/// no queried tags every item stays.
pub fn filter_by_tags(df: &DayFile, tags: &Vec<String>) -> (r: DayFile)
    ensures
        r@.date == df@.date,
        r@.items == df@.items.filter(tag_query_pred(tags.deep_view())),
{
    let ghost all = df@.items;
    let ghost pred = tag_query_pred(tags.deep_view());
    let n = df.items.len();
    let mut kept: Vec<Item> = Vec::new();
    let mut k: usize = 0;
    proof {
        assert(all.take(0) =~= Seq::<ItemView>::empty());
        assert(kept.deep_view() =~= all.take(0).filter(pred));
    }
    while k < n
        invariant
            k <= n == df.items@.len(),
            all == df@.items,
            pred == tag_query_pred(tags.deep_view()),
            kept.deep_view() == all.take(k as int).filter(pred),
        decreases n - k,
    {
        let ghost pre = all.take(k as int);
        proof {
            assert(all.take(k + 1) =~= pre.push(all[k as int]));
            assert(pred(all[k as int]) == spec_matches_all(all[k as int], tags.deep_view()));
            pre.lemma_filter_push(all[k as int], pred);
            assert(df.items.deep_view()[k as int] == all[k as int]);
        }
        let it = &df.items[k];
        if item_matches_tags(it, tags) {
            let ghost before = kept.deep_view();
            proof {
                assert(kept.deep_view().len() == kept@.len());
            }
            let c = it.duplicate();
            kept.push(c);
            proof {
                assert(kept.deep_view() =~= before.push(all[k as int]));
            }
        }
        k = k + 1;
    }
    proof {
        assert(all.take(n as int) =~= all);
    }
    DayFile { date: df.date, items: kept }
}

} // verus!
