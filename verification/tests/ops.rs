use tusk::{Date, DayFile, Item, ItemPriority, Timestamp, TuskError, add_item, edit_item,
    filter_by_tags, get_item_priority, parse_dayfile, remove_item, sanitise_str, serialize_dayfile,
    set_done, validate_index, extract_tags};

fn day(y: u16, m: u8, d: u8) -> Date {
    Date { year: y, month: m, day: d }
}

fn ts(h: u8, mi: u8, se: u8) -> Timestamp {
    Timestamp { date: day(2025, 1, 10), hour: h, minute: mi, second: se }
}

fn df_with(texts: &[&str]) -> DayFile {
    let mut df = DayFile { date: day(2025, 1, 10), items: Vec::new() };
    for t in texts {
        add_item(&mut df, t, None, None).expect("non-empty text");
    }
    df
}

#[test]
fn add_item_trims_text_and_extracts_tags() {
    let mut df = DayFile { date: day(2025, 1, 10), items: Vec::new() };
    add_item(&mut df, "  Buy milk #errand ", Some("med"), None).unwrap();
    let it = &df.items[0];
    assert_eq!(it.text, "Buy milk #errand");
    assert_eq!(it.tags, vec![String::from("errand")]);
    assert_eq!(it.priority, ItemPriority::Medium);
    assert!(it.done_at.is_none());
    assert!(it.due.is_none());
    assert!(it.migrated_from.is_none());
    assert_eq!(it.id.chars().count(), 6);
}

#[test]
fn add_item_rejects_blank_text() {
    let mut df = DayFile { date: day(2025, 1, 10), items: Vec::new() };
    assert_eq!(add_item(&mut df, "   \t ", None, None), Err(TuskError::EmptyText));
    assert!(df.items.is_empty());
}

#[test]
fn created_item_survives_store_round_trip() {
    // creating an item and immediately loading the day-file yields the
    // exact text, no completion stamp, and the #tokens of the text
    let mut df = DayFile { date: day(2025, 1, 10), items: Vec::new() };
    add_item(&mut df, "Ship the report #work #q1 #work", None, None).unwrap();
    let back = parse_dayfile(&serialize_dayfile(&df)).unwrap();
    assert_eq!(back, df);
    let it = &back.items[0];
    assert_eq!(it.text, "Ship the report #work #q1 #work");
    assert!(it.done_at.is_none());
    assert_eq!(
        it.tags,
        vec![String::from("work"), String::from("q1"), String::from("work")],
    );
}

#[test]
fn extract_tags_keeps_order_case_and_duplicates() {
    let tags = extract_tags("#a b #B #a c#d #");
    assert_eq!(
        tags,
        vec![String::from("a"), String::from("B"), String::from("a"), String::from("")],
    );
    assert!(extract_tags("no tags here").is_empty());
}

#[test]
fn sanitise_str_trims_and_rejects_empty() {
    assert_eq!(sanitise_str("  hello \n"), Ok(String::from("hello")));
    assert_eq!(sanitise_str("hello"), Ok(String::from("hello")));
    assert_eq!(sanitise_str(""), Err(TuskError::EmptyText));
    assert_eq!(sanitise_str(" \t\r\n"), Err(TuskError::EmptyText));
}

#[test]
fn trimming_sees_unicode_whitespace_as_trim_does() {
    assert_eq!(sanitise_str("a\u{000B}"), Ok(String::from("a")));
    assert_eq!(sanitise_str("\u{00A0}b\u{2003}"), Ok(String::from("b")));
    assert_eq!(sanitise_str("\u{000B}\u{000C}\u{2028}\u{3000}"), Err(TuskError::EmptyText));
    assert_eq!(sanitise_str("  x  "), Ok(String::from("x")));
    // exactly as the standard library trims
    let raw = "\u{1680} keep me \u{202F}";
    assert_eq!(sanitise_str(raw), Ok(String::from(raw.trim())));
}

#[test]
fn tag_extraction_splits_on_unicode_whitespace() {
    assert_eq!(
        extract_tags("#a\u{000B}#b\u{2003}#c"),
        vec![String::from("a"), String::from("b"), String::from("c")],
    );
    // exactly as split_whitespace splits
    let raw = "#x\u{00A0}plain #y";
    let want: Vec<String> = raw
        .split_whitespace()
        .filter_map(|w| w.strip_prefix('#').map(|t| t.to_string()))
        .collect();
    assert_eq!(extract_tags(raw), want);
}

#[test]
fn priority_parsing_is_case_insensitive_and_defaults_low() {
    assert_eq!(get_item_priority(Some("high")), ItemPriority::High);
    assert_eq!(get_item_priority(Some("HIGH")), ItemPriority::High);
    assert_eq!(get_item_priority(Some("med")), ItemPriority::Medium);
    assert_eq!(get_item_priority(Some("Medium")), ItemPriority::Medium);
    assert_eq!(get_item_priority(Some("low")), ItemPriority::Low);
    assert_eq!(get_item_priority(Some("anything else")), ItemPriority::Low);
    assert_eq!(get_item_priority(None), ItemPriority::Low);
}

#[test]
fn validate_index_rejects_zero_and_past_end() {
    assert!(validate_index(0, 0).is_err());
    assert!(validate_index(1, 0).is_err());
    assert!(validate_index(0, 3).is_err());
    assert!(validate_index(4, 3).is_err());
    assert_eq!(validate_index(1, 3).unwrap(), 0);
    assert_eq!(validate_index(3, 3).unwrap(), 2);
}

#[test]
fn completing_twice_keeps_the_first_stamp() {
    let mut df = df_with(&["task one"]);
    set_done(&mut df, 1, true, ts(10, 0, 0)).unwrap();
    assert_eq!(df.items[0].done_at, Some(ts(10, 0, 0)));
    set_done(&mut df, 1, true, ts(11, 30, 0)).unwrap();
    assert_eq!(df.items[0].done_at, Some(ts(10, 0, 0)));
}

#[test]
fn reopening_then_completing_records_the_later_moment() {
    let mut df = df_with(&["task one"]);
    set_done(&mut df, 1, true, ts(10, 0, 0)).unwrap();
    set_done(&mut df, 1, false, ts(10, 5, 0)).unwrap();
    assert!(df.items[0].done_at.is_none());
    set_done(&mut df, 1, true, ts(12, 0, 0)).unwrap();
    assert_eq!(df.items[0].done_at, Some(ts(12, 0, 0)));
}

#[test]
fn set_done_out_of_range_changes_nothing() {
    let mut df = df_with(&["task one"]);
    let before = df.clone();
    assert_eq!(
        set_done(&mut df, 2, true, ts(10, 0, 0)),
        Err(TuskError::IndexOutOfRange { index: 2 }),
    );
    assert_eq!(df, before);
}

#[test]
fn remove_shifts_later_items_down() {
    let mut df = df_with(&["one", "two", "three"]);
    let removed = remove_item(&mut df, 2).unwrap();
    assert_eq!(removed.text, "two");
    assert_eq!(df.items.len(), 2);
    assert_eq!(df.items[0].text, "one");
    assert_eq!(df.items[1].text, "three");
}

#[test]
fn remove_rejects_zero_and_past_end_on_empty_and_populated() {
    let mut empty = DayFile { date: day(2025, 1, 10), items: Vec::new() };
    assert!(remove_item(&mut empty, 0).is_err());
    assert!(remove_item(&mut empty, 1).is_err());
    let mut df = df_with(&["one"]);
    assert!(remove_item(&mut df, 0).is_err());
    assert!(remove_item(&mut df, 2).is_err());
    assert_eq!(df.items.len(), 1);
}

#[test]
fn edit_replaces_text_without_reextracting_tags() {
    let mut df = df_with(&["old text #tag"]);
    edit_item(&mut df, 1, Some("  new text #other  "), None, None).unwrap();
    let it = &df.items[0];
    assert_eq!(it.text, "new text #other");
    assert_eq!(it.tags, vec![String::from("tag")]);
}

#[test]
fn edit_rejects_blank_replacement_text() {
    let mut df = df_with(&["old text"]);
    let before = df.clone();
    assert_eq!(edit_item(&mut df, 1, Some("  "), None, None), Err(TuskError::EmptyText));
    assert_eq!(df, before);
}

#[test]
fn edit_priority_and_notes_are_independent() {
    let mut df = df_with(&["some task"]);
    edit_item(&mut df, 1, None, Some(String::from("a note")), None).unwrap();
    assert_eq!(df.items[0].notes, Some(String::from("a note")));
    assert_eq!(df.items[0].priority, ItemPriority::Low);
    edit_item(&mut df, 1, None, None, Some("high")).unwrap();
    assert_eq!(df.items[0].priority, ItemPriority::High);
    assert_eq!(df.items[0].notes, Some(String::from("a note")));
    assert_eq!(df.items[0].text, "some task");
}

#[test]
fn filter_by_tags_needs_every_tag_ignoring_case() {
    let mut df = DayFile { date: day(2025, 1, 10), items: Vec::new() };
    add_item(&mut df, "a #Work #home", None, None).unwrap();
    add_item(&mut df, "b #work", None, None).unwrap();
    add_item(&mut df, "c", None, None).unwrap();
    let both = filter_by_tags(&df, &vec![String::from("WORK"), String::from("home")]);
    assert_eq!(both.items.len(), 1);
    assert_eq!(both.items[0].text, "a #Work #home");
    let work = filter_by_tags(&df, &vec![String::from("work")]);
    assert_eq!(work.items.len(), 2);
    let none = filter_by_tags(&df, &Vec::new());
    assert_eq!(none.items.len(), 3);
    assert_eq!(df.items.len(), 3);
}

#[test]
fn fresh_items_get_six_character_ids_and_valid_stamps() {
    let it = Item::new(String::from("x"), ItemPriority::Low, Vec::new(), None);
    assert_eq!(it.id.chars().count(), 6);
    assert_eq!(it.id.len(), 6);
    let c = it.created_at;
    assert!(1 <= c.date.month && c.date.month <= 12);
    assert!(1 <= c.date.day && c.date.day <= 31);
    assert!(c.hour <= 23 && c.minute <= 59 && c.second <= 59);
}
