use tusk::{Date, TuskError, abbrev_id, normalise_or_default, now_timestamp, parse_ymd,
    repeat_char, resolve_day_file_path, today_date};

fn day(y: u16, m: u8, d: u8) -> Date {
    Date { year: y, month: m, day: d }
}

#[test]
fn parse_ymd_reads_exact_iso_dates() {
    let today = day(2025, 9, 14);
    assert_eq!(parse_ymd("2025-09-14", today), Ok(day(2025, 9, 14)));
    assert_eq!(parse_ymd("0001-01-01", today), Ok(day(1, 1, 1)));
    assert_eq!(parse_ymd("9999-12-31", today), Ok(day(9999, 12, 31)));
}

#[test]
fn parse_ymd_rejects_bad_input_naming_it() {
    let today = day(2025, 9, 14);
    assert_eq!(
        parse_ymd("14/09/2025", today),
        Err(TuskError::InvalidDate { input: String::from("14/09/2025") }),
    );
    assert!(parse_ymd("2025-13-01", today).is_err());
    assert!(parse_ymd("2025-02-30", today).is_err());
    assert!(parse_ymd("2025-09-1", today).is_err());
    assert!(parse_ymd("2025-09-14 ", today).is_err());
    assert!(parse_ymd("", today).is_err());
}

#[test]
fn parse_ymd_resolves_relative_tokens() {
    assert_eq!(parse_ymd("yesterday", day(2025, 3, 1)), Ok(day(2025, 2, 28)));
    assert_eq!(parse_ymd("yesterday", day(2024, 3, 1)), Ok(day(2024, 2, 29)));
    assert_eq!(parse_ymd("tomorrow", day(2024, 2, 28)), Ok(day(2024, 2, 29)));
    assert_eq!(parse_ymd("tomorrow", day(2025, 2, 28)), Ok(day(2025, 3, 1)));
    assert_eq!(parse_ymd("tomorrow", day(2025, 12, 31)), Ok(day(2026, 1, 1)));
    assert_eq!(parse_ymd("yesterday", day(2025, 1, 1)), Ok(day(2024, 12, 31)));
    assert_eq!(parse_ymd("tomorrow", day(9999, 12, 31)), Err(TuskError::DateOutOfRange));
    assert_eq!(parse_ymd("yesterday", day(0, 1, 1)), Err(TuskError::DateOutOfRange));
}

#[test]
fn date_succ_and_pred_step_through_the_calendar() {
    assert_eq!(day(2025, 1, 10).succ(), Some(day(2025, 1, 11)));
    assert_eq!(day(2025, 1, 31).succ(), Some(day(2025, 2, 1)));
    assert_eq!(day(2024, 2, 29).pred(), Some(day(2024, 2, 28)));
    assert_eq!(day(2025, 1, 1).pred(), Some(day(2024, 12, 31)));
    assert_eq!(day(9999, 12, 31).succ(), None);
    assert_eq!(day(0, 1, 1).pred(), None);
}

#[test]
fn vault_names_are_filtered_lowered_and_defaulted() {
    assert_eq!(normalise_or_default(None), "default");
    assert_eq!(normalise_or_default(Some("")), "default");
    assert_eq!(normalise_or_default(Some("  !!  ")), "default");
    assert_eq!(normalise_or_default(Some("My Vault!")), "myvault");
    assert_eq!(normalise_or_default(Some("Work_2025-q1")), "work_2025-q1");
    // distinct raw names may collide deliberately
    assert_eq!(normalise_or_default(Some("my vault")), normalise_or_default(Some("MyVault")));
}

#[test]
fn day_file_paths_follow_the_layout() {
    assert_eq!(
        resolve_day_file_path("/data", Some("My Vault!"), day(2025, 1, 5)),
        "/data/vaults/myvault/2025/01/2025-01-05.json",
    );
    assert_eq!(
        resolve_day_file_path("/data", None, day(987, 11, 30)),
        "/data/vaults/default/0987/11/0987-11-30.json",
    );
}

#[test]
fn clock_wrappers_give_valid_values() {
    let t = now_timestamp();
    assert!(1 <= t.date.month && t.date.month <= 12);
    assert!(1 <= t.date.day && t.date.day <= 31);
    assert!(t.hour <= 23 && t.minute <= 59 && t.second <= 59);
    let d = today_date();
    assert!(d.is_valid());
    // the clock is past the library's own birth year
    assert!(d.year >= 2024);
}

#[test]
fn abbrev_and_repeat_shape_text() {
    assert_eq!(abbrev_id("abcdefgh", 6), "abcdef");
    assert_eq!(abbrev_id("ab", 6), "ab");
    assert_eq!(abbrev_id("", 6), "");
    assert_eq!(repeat_char('-', 5), "-----");
    assert_eq!(repeat_char('x', 0), "");
}
