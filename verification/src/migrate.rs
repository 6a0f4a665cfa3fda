//! The migration engine: moving a day's unfinished items to another day.
//! The source's items are partitioned into the completed ones, which
//! stay, and the open ones, which are appended to the destination with
//! their provenance stamped to the source date. A dry run computes the
//! very same partition without touching either day-file.

use vstd::prelude::*;

use crate::date::Date;
use crate::dayfile::{DayFile, DayFileView};
use crate::errors::TuskError;
use crate::item::{Item, ItemView};

verus! {

/// Completed means `done_at` is set.
pub open spec fn spec_is_done(i: ItemView) -> bool {
    i.done_at is Some
}

/// The item as it arrives on the destination day: provenance overwritten
/// with the source date, everything else untouched.
pub open spec fn spec_stamp(i: ItemView, d: Date) -> ItemView {
    ItemView { migrated_from: Some(d), ..i }
}

/// The completed-item predicate, as one shared function value.
pub open spec fn done_pred() -> spec_fn(ItemView) -> bool {
    |i: ItemView| spec_is_done(i)
}

/// The open-item predicate, as one shared function value.
pub open spec fn open_pred() -> spec_fn(ItemView) -> bool {
    |i: ItemView| !spec_is_done(i)
}

/// Stamping with a fixed source date, as one shared function value.
pub open spec fn stamp_fn(d: Date) -> spec_fn(ItemView) -> ItemView {
    |i: ItemView| spec_stamp(i, d)
}

/// The items that stay on the source day: the completed ones, in their
/// original relative order.
pub open spec fn spec_kept(items: Seq<ItemView>) -> Seq<ItemView> {
    items.filter(done_pred())
}

/// The items that move: the open ones, in their original relative order,
/// each stamped with the source date.
pub open spec fn spec_moved(items: Seq<ItemView>, d: Date) -> Seq<ItemView> {
    items.filter(open_pred()).map_values(stamp_fn(d))
}

/// The source day-file after a commit.
pub open spec fn spec_commit_from(from: DayFileView) -> DayFileView {
    DayFileView { date: from.date, items: spec_kept(from.items) }
}

/// The destination day-file after a commit: its own items, then the
/// moved ones.
pub open spec fn spec_commit_to(from: DayFileView, to: DayFileView) -> DayFileView {
    DayFileView { date: to.date, items: to.items + spec_moved(from.items, from.date) }
}

/// What a dry run reports as the would-be destination.
pub open spec fn spec_preview(from: DayFileView, to: DayFileView) -> DayFileView {
    DayFileView { date: to.date, items: to.items + spec_moved(from.items, from.date) }
}

/// The open items of the source, stamped with `from_date`, in their
/// original relative order.
pub fn prepare_to_migrate_items(from_dayfile: &DayFile, from_date: Date) -> (r: Vec<Item>)
    ensures
        r.deep_view() == spec_moved(from_dayfile@.items, from_date),
{
    let ghost all = from_dayfile@.items;
    let ghost p_open = open_pred();
    let ghost f_stamp = stamp_fn(from_date);
    let n = from_dayfile.items.len();
    let mut r: Vec<Item> = Vec::new();
    let mut k: usize = 0;
    proof {
        assert(all.take(0) =~= Seq::<ItemView>::empty());
        assert(r.deep_view() =~= spec_moved(all.take(0), from_date));
    }
    while k < n
        invariant
            k <= n == from_dayfile.items@.len(),
            all == from_dayfile@.items,
            p_open == open_pred(),
            f_stamp == stamp_fn(from_date),
            r.deep_view() == spec_moved(all.take(k as int), from_date),
        decreases n - k,
    {
        let ghost pre = all.take(k as int);
        proof {
            assert(all.take(k + 1) =~= pre.push(all[k as int]));
            assert(p_open(all[k as int]) == !spec_is_done(all[k as int]));
            assert(f_stamp(all[k as int]) == spec_stamp(all[k as int], from_date));
            pre.lemma_filter_push(all[k as int], p_open);
            if p_open(all[k as int]) {
                pre.filter(p_open).lemma_push_map_commute(f_stamp, all[k as int]);
            }
            assert(from_dayfile.items.deep_view()[k as int] == all[k as int]);
        }
        let it = &from_dayfile.items[k];
        if it.done_at.is_none() {
            let mut c = it.duplicate();
            c.migrated_from = Some(from_date);
            proof {
                assert(c@ == spec_stamp(all[k as int], from_date));
            }
            let ghost before = r.deep_view();
            proof {
                assert(r.deep_view().len() == r@.len());
            }
            r.push(c);
            proof {
                assert(r.deep_view() =~= before.push(c@));
            }
        }
        k = k + 1;
    }
    proof {
        assert(all.take(n as int) =~= all);
    }
    r
}

/// The completed items of `items`, in their original relative order.
fn keep_done_items(items: &Vec<Item>) -> (r: Vec<Item>)
    ensures
        r.deep_view() == spec_kept(items.deep_view()),
{
    let ghost all = items.deep_view();
    let ghost p_done = done_pred();
    let n = items.len();
    let mut r: Vec<Item> = Vec::new();
    let mut k: usize = 0;
    proof {
        assert(all.take(0) =~= Seq::<ItemView>::empty());
        assert(r.deep_view() =~= spec_kept(all.take(0)));
    }
    while k < n
        invariant
            k <= n == items@.len(),
            all == items.deep_view(),
            p_done == done_pred(),
            r.deep_view() == spec_kept(all.take(k as int)),
        decreases n - k,
    {
        let ghost pre = all.take(k as int);
        proof {
            assert(all.take(k + 1) =~= pre.push(all[k as int]));
            assert(p_done(all[k as int]) == spec_is_done(all[k as int]));
            pre.lemma_filter_push(all[k as int], p_done);
            assert(items.deep_view()[k as int] == all[k as int]);
        }
        let it = &items[k];
        if it.done_at.is_some() {
            let ghost before = r.deep_view();
            proof {
                assert(r.deep_view().len() == r@.len());
            }
            let c = it.duplicate();
            r.push(c);
            proof {
                assert(r.deep_view() =~= before.push(all[k as int]));
            }
        }
        k = k + 1;
    }
    proof {
        assert(all.take(n as int) =~= all);
    }
    r
}

/// Applies a migration: the source keeps its completed items, the
/// destination gains the stamped open ones after its own. Identical
/// source and destination dates are a user error, refused before
/// anything changes.
pub fn migrate_commit(from: &mut DayFile, to: &mut DayFile) -> (r: Result<(), TuskError>)
    ensures
        r is Ok <==> old(from)@.date != old(to)@.date,
        r matches Err(e) ==> e == TuskError::SameMigrationDate && final(from)@ == old(from)@
            && final(to)@ == old(to)@,
        r is Ok ==> final(from)@ == spec_commit_from(old(from)@) && final(to)@ == spec_commit_to(
            old(from)@,
            old(to)@,
        ),
{
    if from.date == to.date {
        return Err(TuskError::SameMigrationDate);
    }
    let mut moved = prepare_to_migrate_items(from, from.date);
    let ghost moved_view = moved.deep_view();
    let kept = keep_done_items(&from.items);
    from.items = kept;
    let ghost to_before = to@.items;
    to.items.append(&mut moved);
    proof {
        assert(to@.items =~= to_before + moved_view);
    }
    Ok(())
}

/// Computes what a commit would produce, without touching either file:
/// the would-be destination day-file and the stamped items that would
/// move.
pub fn migrate_dry_run(from: &DayFile, to: &DayFile) -> (r: Result<(DayFile, Vec<Item>), TuskError>)
    ensures
        r is Ok <==> from@.date != to@.date,
        r matches Err(e) ==> e == TuskError::SameMigrationDate,
        r matches Ok((preview, moved)) ==> preview@ == spec_preview(from@, to@)
            && moved.deep_view() == spec_moved(from@.items, from@.date),
{
    if from.date == to.date {
        return Err(TuskError::SameMigrationDate);
    }
    let moved = prepare_to_migrate_items(from, from.date);
    let ghost moved_view = moved.deep_view();
    let mut preview_items = clone_items(&to.items);
    let mut moved_copy = clone_items(&moved);
    preview_items.append(&mut moved_copy);
    let preview = DayFile { date: to.date, items: preview_items };
    proof {
        assert(preview@.items =~= to@.items + moved_view);
    }
    Ok((preview, moved))
}

/// The partition law of migration: every item of the source lands in
/// exactly one of the two parts — the kept items are the completed ones,
/// the moved items are the open ones, each carrying the source date as
/// provenance, and nothing is lost or duplicated.
pub proof fn lemma_migration_partition(items: Seq<ItemView>, d: Date)
    ensures
        spec_kept(items).len() + spec_moved(items, d).len() == items.len(),
        forall|k: int|
            0 <= k < spec_kept(items).len() ==> spec_is_done(#[trigger] spec_kept(items)[k]),
        forall|k: int|
            0 <= k < spec_moved(items, d).len() ==> !spec_is_done(
                #[trigger] spec_moved(items, d)[k],
            ) && spec_moved(items, d)[k].migrated_from == Some(d),
    decreases items.len(),
{
    let p_done = done_pred();
    let p_open = open_pred();
    let f_stamp = stamp_fn(d);
    if items.len() == 0 {
        items.lemma_filter_len(p_done);
        items.lemma_filter_len(p_open);
        assert(items.filter(p_open).map_values(f_stamp).len() == items.filter(p_open).len());
    } else {
        let dl = items.drop_last();
        let last = items.last();
        lemma_migration_partition(dl, d);
        assert(items =~= dl.push(last));
        dl.lemma_filter_push(last, p_done);
        dl.lemma_filter_push(last, p_open);
        assert(p_done(last) == spec_is_done(last));
        assert(p_open(last) == !spec_is_done(last));
        if p_open(last) {
            dl.filter(p_open).lemma_push_map_commute(f_stamp, last);
            assert(f_stamp(last) == spec_stamp(last, d));
        }
        assert(spec_moved(dl, d).len() == dl.filter(p_open).len());
        assert(spec_moved(items, d).len() == items.filter(p_open).len());
        assert forall|k: int| 0 <= k < spec_kept(items).len() implies spec_is_done(
            #[trigger] spec_kept(items)[k],
        ) by {
            if k < spec_kept(dl).len() {
                assert(spec_kept(items)[k] == spec_kept(dl)[k]);
            }
        }
        assert forall|k: int| 0 <= k < spec_moved(items, d).len() implies !spec_is_done(
            #[trigger] spec_moved(items, d)[k],
        ) && spec_moved(items, d)[k].migrated_from == Some(d) by {
            if k < spec_moved(dl, d).len() {
                assert(spec_moved(items, d)[k] == spec_moved(dl, d)[k]);
            }
        }
    }
}

/// A dry run computes exactly the partition a commit applies: the
/// preview it reports is the destination day-file a commit would write,
/// and it takes both day-files by shared reference, so neither changes.
pub proof fn lemma_dry_run_matches_commit(from: DayFileView, to: DayFileView)
    ensures
        spec_preview(from, to) == spec_commit_to(from, to),
{
}

/// A copy of a list of items with the very same values.
fn clone_items(items: &Vec<Item>) -> (r: Vec<Item>)
    ensures
        r.deep_view() == items.deep_view(),
{
    let n = items.len();
    let mut r: Vec<Item> = Vec::new();
    let mut k: usize = 0;
    while k < n
        invariant
            k <= n == items@.len(),
            r.deep_view() == items.deep_view().take(k as int),
        decreases n - k,
    {
        let c = items[k].duplicate();
        proof {
            assert(r.deep_view().len() == r@.len());
            assert(items.deep_view()[k as int] == items@[k as int]@);
        }
        r.push(c);
        k = k + 1;
        proof {
            assert(r.deep_view() =~= items.deep_view().take(k as int));
        }
    }
    proof {
        assert(items.deep_view().take(n as int) =~= items.deep_view());
    }
    r
}

} // verus!
