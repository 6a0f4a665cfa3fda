use tusk::{Date, DayFile, Item, ItemPriority, Timestamp, parse_dayfile, serialize_dayfile,
    serialize_item};

fn ts(y: u16, mo: u8, d: u8, h: u8, mi: u8, se: u8) -> Timestamp {
    Timestamp { date: Date { year: y, month: mo, day: d }, hour: h, minute: mi, second: se }
}

fn sample_item() -> Item {
    Item {
        id: String::from("abc123"),
        text: String::from("Buy milk #errand"),
        created_at: ts(2025, 1, 10, 8, 30, 0),
        done_at: None,
        priority: ItemPriority::Low,
        tags: vec![String::from("errand")],
        due: None,
        notes: None,
        migrated_from: None,
    }
}

#[test]
fn serialize_empty_dayfile_exact_text() {
    let df = DayFile { date: Date { year: 2025, month: 1, day: 10 }, items: Vec::new() };
    let expected = "{\n  \"date\": \"2025-01-10\",\n  \"items\": []\n}\n";
    assert_eq!(serialize_dayfile(&df), expected);
}

#[test]
fn serialize_one_item_exact_text() {
    let df = DayFile { date: Date { year: 2025, month: 1, day: 10 }, items: vec![sample_item()] };
    let expected = "{\n  \"date\": \"2025-01-10\",\n  \"items\": [\n    {\n      \"id\": \"abc123\",\n      \"text\": \"Buy milk #errand\",\n      \"created_at\": \"2025-01-10T08:30:00Z\",\n      \"done_at\": null,\n      \"priority\": \"low\",\n      \"tags\": [\n        \"errand\"\n      ],\n      \"due\": null,\n      \"notes\": null,\n      \"migrated_from\": null\n    }\n  ]\n}\n";
    assert_eq!(serialize_dayfile(&df), expected);
}

#[test]
fn serialize_item_exact_text() {
    let mut it = sample_item();
    it.priority = ItemPriority::High;
    it.done_at = Some(ts(2025, 1, 10, 21, 4, 59));
    it.tags = Vec::new();
    let expected = "{\n  \"id\": \"abc123\",\n  \"text\": \"Buy milk #errand\",\n  \"created_at\": \"2025-01-10T08:30:00Z\",\n  \"done_at\": \"2025-01-10T21:04:59Z\",\n  \"priority\": \"high\",\n  \"tags\": [],\n  \"due\": null,\n  \"notes\": null,\n  \"migrated_from\": null\n}";
    assert_eq!(serialize_item(&it), expected);
}

#[test]
fn round_trip_rich_dayfile() {
    let mut a = sample_item();
    a.notes = Some(String::from("line one\nline \"two\" with \\ and tab\t end"));
    a.priority = ItemPriority::Medium;
    let mut b = sample_item();
    b.id = String::from("zzz999");
    b.text = String::from("Pay rent");
    b.tags = Vec::new();
    b.done_at = Some(ts(2025, 1, 9, 23, 59, 59));
    b.migrated_from = Some(Date { year: 2025, month: 1, day: 9 });
    b.due = Some(ts(2025, 2, 28, 0, 0, 0));
    let df = DayFile { date: Date { year: 2025, month: 1, day: 10 }, items: vec![a, b] };
    let text = serialize_dayfile(&df);
    let back = parse_dayfile(&text).expect("canonical text must parse");
    assert_eq!(back, df);
}

#[test]
fn round_trip_control_characters_in_text() {
    let mut it = sample_item();
    it.text = String::from("bell \u{7} and nul \u{0} stay");
    it.tags = Vec::new();
    let df = DayFile { date: Date { year: 2025, month: 6, day: 1 }, items: vec![it] };
    let text = serialize_dayfile(&df);
    assert!(text.contains("\\u0007"));
    assert!(text.contains("\\u0000"));
    let back = parse_dayfile(&text).expect("escaped text must parse");
    assert_eq!(back, df);
}

#[test]
fn parse_accepts_compact_whitespace() {
    let text = "{\"date\":\"2025-01-10\",\"items\":[]}";
    let df = parse_dayfile(text).expect("compact document must parse");
    assert_eq!(df.date, Date { year: 2025, month: 1, day: 10 });
    assert!(df.items.is_empty());
}

#[test]
fn parse_accepts_common_escapes() {
    let text = "{\"date\":\"2025-01-10\",\"items\":[{\"id\":\"x\",\"text\":\"a\\tb\\nc\\\"d\\\\e\\/f\\bg\\rh\\u0041\",\"created_at\":\"2025-01-10T00:00:00Z\",\"done_at\":null,\"priority\":\"low\",\"tags\":[],\"due\":null,\"notes\":null,\"migrated_from\":null}]}";
    let df = parse_dayfile(text).expect("escapes must parse");
    assert_eq!(df.items[0].text, "a\tb\nc\"d\\e/f\u{8}g\rhA");
}

#[test]
fn parse_rejects_bad_calendar_dates() {
    let bad_month = "{\"date\":\"2025-13-01\",\"items\":[]}";
    assert!(parse_dayfile(bad_month).is_err());
    let bad_day = "{\"date\":\"2025-02-30\",\"items\":[]}";
    assert!(parse_dayfile(bad_day).is_err());
    let nonleap = "{\"date\":\"2025-02-29\",\"items\":[]}";
    assert!(parse_dayfile(nonleap).is_err());
    let leap = "{\"date\":\"2024-02-29\",\"items\":[]}";
    assert!(parse_dayfile(leap).is_ok());
}

#[test]
fn parse_rejects_malformed_documents() {
    assert!(parse_dayfile("").is_err());
    assert!(parse_dayfile("{}").is_err());
    assert!(parse_dayfile("{\"date\":\"2025-01-10\"}").is_err());
    assert!(parse_dayfile("{\"date\":\"2025-01-10\",\"items\":[}").is_err());
    assert!(parse_dayfile("{\"date\":\"2025-01-10\",\"items\":[]} trailing").is_err());
    let df = DayFile { date: Date { year: 2025, month: 1, day: 10 }, items: Vec::new() };
    let mut text = serialize_dayfile(&df);
    text.truncate(text.len() - 3);
    assert!(parse_dayfile(&text).is_err());
}

#[test]
fn parse_rejects_bad_timestamps() {
    let bad_hour = "{\"date\":\"2025-01-10\",\"items\":[{\"id\":\"x\",\"text\":\"a\",\"created_at\":\"2025-01-10T24:00:00Z\",\"done_at\":null,\"priority\":\"low\",\"tags\":[],\"due\":null,\"notes\":null,\"migrated_from\":null}]}";
    assert!(parse_dayfile(bad_hour).is_err());
}

#[test]
fn parse_rejects_unknown_priority() {
    let text = "{\"date\":\"2025-01-10\",\"items\":[{\"id\":\"x\",\"text\":\"a\",\"created_at\":\"2025-01-10T00:00:00Z\",\"done_at\":null,\"priority\":\"urgent\",\"tags\":[],\"due\":null,\"notes\":null,\"migrated_from\":null}]}";
    assert!(parse_dayfile(text).is_err());
}

#[test]
fn parse_accepts_fractional_seconds_and_drops_them() {
    let text = "{\"date\":\"2025-01-10\",\"items\":[{\"id\":\"x\",\"text\":\"a\",\"created_at\":\"2025-01-10T09:23:45.123456789Z\",\"done_at\":\"2025-01-10T10:00:01.5Z\",\"priority\":\"low\",\"tags\":[],\"due\":null,\"notes\":null,\"migrated_from\":null}]}";
    let df = parse_dayfile(text).expect("fractional seconds must parse");
    let it = &df.items[0];
    assert_eq!(it.created_at, ts(2025, 1, 10, 9, 23, 45));
    assert_eq!(it.done_at, Some(ts(2025, 1, 10, 10, 0, 1)));
}

#[test]
fn parse_rejects_a_dot_without_digits() {
    let text = "{\"date\":\"2025-01-10\",\"items\":[{\"id\":\"x\",\"text\":\"a\",\"created_at\":\"2025-01-10T09:23:45.Z\",\"done_at\":null,\"priority\":\"low\",\"tags\":[],\"due\":null,\"notes\":null,\"migrated_from\":null}]}";
    assert!(parse_dayfile(text).is_err());
}

#[test]
fn parse_faults_say_where_reading_stopped() {
    let fault = parse_dayfile("{\"date\":\"2025-13-01\",\"items\":[]}").unwrap_err();
    assert_eq!(fault.offset, 8);
    assert!(!fault.expected.is_empty());
    let fault = parse_dayfile("{\"date\":\"2025-01-10\",\"items\":[]} x").unwrap_err();
    assert!(!fault.expected.is_empty());
}
