use tusk::{Date, DayFile, ReadOutcome, Timestamp, TuskError, add_item, load_or_create_dayfile,
    migrate_commit, migrate_dry_run, parse_dayfile, prepare_to_migrate_items, serialize_dayfile,
    set_done};

fn day(y: u16, m: u8, d: u8) -> Date {
    Date { year: y, month: m, day: d }
}

fn ts(h: u8) -> Timestamp {
    Timestamp { date: day(2025, 1, 10), hour: h, minute: 0, second: 0 }
}

/// The scenario of one open and one done item moving between two days.
fn scenario() -> (DayFile, DayFile) {
    let mut from = DayFile { date: day(2025, 1, 10), items: Vec::new() };
    add_item(&mut from, "Buy milk #errand", None, None).unwrap();
    add_item(&mut from, "Pay rent", None, None).unwrap();
    set_done(&mut from, 2, true, ts(9)).unwrap();
    let to = DayFile { date: day(2025, 1, 11), items: Vec::new() };
    (from, to)
}

#[test]
fn commit_moves_open_items_and_keeps_done_ones() {
    let (mut from, mut to) = scenario();
    migrate_commit(&mut from, &mut to).unwrap();
    assert_eq!(from.date, day(2025, 1, 10));
    assert_eq!(from.items.len(), 1);
    assert_eq!(from.items[0].text, "Pay rent");
    assert!(from.items[0].done_at.is_some());
    assert_eq!(to.items.len(), 1);
    let moved = &to.items[0];
    assert_eq!(moved.text, "Buy milk #errand");
    assert_eq!(moved.tags, vec![String::from("errand")]);
    assert_eq!(moved.migrated_from, Some(day(2025, 1, 10)));
    assert!(moved.done_at.is_none());
    // both day-files still write and read back as themselves
    assert_eq!(parse_dayfile(&serialize_dayfile(&from)).unwrap(), from);
    assert_eq!(parse_dayfile(&serialize_dayfile(&to)).unwrap(), to);
}

#[test]
fn commit_preserves_relative_order_and_appends_after_existing() {
    let mut from = DayFile { date: day(2025, 1, 10), items: Vec::new() };
    add_item(&mut from, "a", None, None).unwrap();
    add_item(&mut from, "b", None, None).unwrap();
    add_item(&mut from, "c", None, None).unwrap();
    add_item(&mut from, "d", None, None).unwrap();
    set_done(&mut from, 2, true, ts(9)).unwrap();
    let mut to = DayFile { date: day(2025, 1, 11), items: Vec::new() };
    add_item(&mut to, "already here", None, None).unwrap();
    migrate_commit(&mut from, &mut to).unwrap();
    let kept: Vec<&str> = from.items.iter().map(|i| i.text.as_str()).collect();
    assert_eq!(kept, vec!["b"]);
    let dest: Vec<&str> = to.items.iter().map(|i| i.text.as_str()).collect();
    assert_eq!(dest, vec!["already here", "a", "c", "d"]);
}

#[test]
fn remigration_overwrites_provenance() {
    let mut from = DayFile { date: day(2025, 1, 10), items: Vec::new() };
    add_item(&mut from, "wanderer", None, None).unwrap();
    let mut mid = DayFile { date: day(2025, 1, 11), items: Vec::new() };
    migrate_commit(&mut from, &mut mid).unwrap();
    assert_eq!(mid.items[0].migrated_from, Some(day(2025, 1, 10)));
    let mut last = DayFile { date: day(2025, 1, 12), items: Vec::new() };
    migrate_commit(&mut mid, &mut last).unwrap();
    assert_eq!(last.items[0].migrated_from, Some(day(2025, 1, 11)));
}

#[test]
fn same_date_migration_is_refused_before_any_change() {
    let mut a = DayFile { date: day(2025, 1, 10), items: Vec::new() };
    add_item(&mut a, "x", None, None).unwrap();
    let before = a.clone();
    let mut b = before.clone();
    assert_eq!(migrate_commit(&mut a, &mut b), Err(TuskError::SameMigrationDate));
    assert_eq!(a, before);
    assert_eq!(b, before);
    assert!(migrate_dry_run(&a, &b).is_err());
}

#[test]
fn dry_run_computes_the_commit_partition_without_touching_input() {
    let (from, to) = scenario();
    let from_text = serialize_dayfile(&from);
    let to_text = serialize_dayfile(&to);
    let (preview, moved) = migrate_dry_run(&from, &to).unwrap();
    // inputs byte-for-byte unchanged
    assert_eq!(serialize_dayfile(&from), from_text);
    assert_eq!(serialize_dayfile(&to), to_text);
    // the preview equals what a commit produces on copies
    let mut cfrom = from.clone();
    let mut cto = to.clone();
    migrate_commit(&mut cfrom, &mut cto).unwrap();
    assert_eq!(preview, cto);
    assert_eq!(moved.len(), 1);
    assert_eq!(moved[0].text, "Buy milk #errand");
    assert_eq!(moved[0].migrated_from, Some(day(2025, 1, 10)));
}

#[test]
fn prepare_stamps_only_open_items() {
    let (from, _) = scenario();
    let pending = prepare_to_migrate_items(&from, from.date);
    assert_eq!(pending.len(), 1);
    assert_eq!(pending[0].text, "Buy milk #errand");
    assert_eq!(pending[0].migrated_from, Some(day(2025, 1, 10)));
}

#[test]
fn migrating_a_day_with_no_open_items_moves_nothing() {
    let mut from = DayFile { date: day(2025, 1, 10), items: Vec::new() };
    add_item(&mut from, "finished", None, None).unwrap();
    set_done(&mut from, 1, true, ts(9)).unwrap();
    let mut to = DayFile { date: day(2025, 1, 11), items: Vec::new() };
    migrate_commit(&mut from, &mut to).unwrap();
    assert_eq!(from.items.len(), 1);
    assert!(to.items.is_empty());
}

#[test]
fn load_missing_creates_an_empty_dayfile_once() {
    let date = day(2025, 1, 10);
    let first = load_or_create_dayfile("/tmp/x.json", ReadOutcome::Missing, date).unwrap();
    assert!(first.created);
    assert!(first.dayfile.items.is_empty());
    assert_eq!(first.dayfile.date, date);
    // persisting the fresh state and loading again returns the same state
    let text = serialize_dayfile(&first.dayfile);
    let second = load_or_create_dayfile("/tmp/x.json", ReadOutcome::Content(text), date).unwrap();
    assert!(!second.created);
    assert_eq!(second.dayfile, first.dayfile);
}

#[test]
fn load_reports_corruption_with_path_and_cause() {
    let r = load_or_create_dayfile(
        "/data/2025/01/2025-01-10.json",
        ReadOutcome::Content(String::from("{ not json")),
        day(2025, 1, 10),
    );
    match r {
        Err(TuskError::DataCorruption { path, offset, detail }) => {
            assert_eq!(path, "/data/2025/01/2025-01-10.json");
            assert_eq!(offset, 1);
            assert!(!detail.is_empty());
        },
        other => panic!("want a corruption error, got {:?}", other),
    }
}

#[test]
fn load_reports_io_failures_with_path_and_cause() {
    let r = load_or_create_dayfile(
        "/data/d.json",
        ReadOutcome::Unreadable(String::from("permission denied")),
        day(2025, 1, 10),
    );
    assert_eq!(
        r,
        Err(TuskError::IoFailure {
            path: String::from("/data/d.json"),
            detail: String::from("permission denied"),
        }),
    );
}
