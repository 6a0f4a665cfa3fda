//! The stated laws of the store: the canonical text written for a
//! day-file reads back as exactly the same value, and loading a day
//! twice returns the same state. Everything here is proved from the
//! serializer and parser specifications alone.

use vstd::prelude::*;

use crate::codec::{
    colon_sp, nl_ind, spec_d2, spec_d4, spec_date_chars, spec_digit, spec_escape,
    spec_escape_char, spec_field, spec_hex, spec_json_string, spec_next_field,
    spec_opt_date_chars, spec_opt_string_chars, spec_opt_timestamp_chars, spec_pri_chars,
    spec_ser_dayfile, spec_ser_item, spec_ser_items, spec_ser_items_tail, spec_ser_tags,
    spec_ser_tags_tail, spec_spaces, spec_timestamp_chars,
};
use crate::date::{Date, Timestamp, date_valid, timestamp_valid};
use crate::dayfile::{DayFileView, dayfile_valid, spec_empty_dayfile};
use crate::item::{ItemPriority, ItemView, item_valid};
use crate::parse::{
    digit_val, hex_val, is_digit, is_hex_digit, spec_expect, spec_expect1, spec_parse_d2,
    spec_parse_d4, spec_parse_date_digits, spec_parse_dayfile, spec_parse_item,
    spec_parse_item_rest, spec_parse_items, spec_parse_items_tail, spec_parse_key,
    spec_parse_next_key, spec_parse_opt_date, spec_parse_opt_string, spec_parse_opt_timestamp,
    spec_parse_priority, spec_parse_quoted_date, spec_parse_quoted_timestamp, spec_parse_string,
    spec_parse_string_body, spec_parse_tags, spec_parse_tags_tail, spec_parse_time_digits,
    spec_prepend, spec_prepend_item, spec_prepend_tag, spec_skip_ws,
};
use crate::strings::is_space;

verus! {

// ---------------------------------------------------------------------
// whitespace and literal foundations
// ---------------------------------------------------------------------
pub open spec fn all_space(s: Seq<char>) -> bool {
    forall|k: int| 0 <= k < s.len() ==> is_space(#[trigger] s[k])
}

/// Skipping whitespace runs through an all-space prefix.
proof fn lemma_skip_ws_prefix(w: Seq<char>, t: Seq<char>)
    requires
        all_space(w),
    ensures
        spec_skip_ws(w + t) == spec_skip_ws(t),
    decreases w.len(),
{
    if w.len() == 0 {
        assert(w + t =~= t);
    } else {
        assert((w + t)[0] == w[0]);
        assert((w + t).drop_first() =~= w.drop_first() + t);
        assert(all_space(w.drop_first()));
        lemma_skip_ws_prefix(w.drop_first(), t);
    }
}

/// Skipping whitespace stops at the first character that is none.
proof fn lemma_skip_ws_stops(t: Seq<char>)
    requires
        t.len() == 0 || !is_space(t[0]),
    ensures
        spec_skip_ws(t) == t,
{
}

/// Whitespace skipping lands exactly on `t` after a space run.
proof fn lemma_skip_ws_to(w: Seq<char>, t: Seq<char>)
    requires
        all_space(w),
        t.len() == 0 || !is_space(t[0]),
    ensures
        spec_skip_ws(w + t) == t,
{
    lemma_skip_ws_prefix(w, t);
    lemma_skip_ws_stops(t);
}

proof fn lemma_spaces_all_space(n: int)
    ensures
        all_space(spec_spaces(n)),
        spec_spaces(n).len() == if n >= 0 {
            n
        } else {
            0
        },
    decreases n,
{
    if n > 0 {
        lemma_spaces_all_space(n - 1);
    }
}

proof fn lemma_nl_ind_all_space(n: int)
    ensures
        all_space(nl_ind(n)),
{
    lemma_spaces_all_space(n);
    assert forall|k: int| 0 <= k < nl_ind(n).len() implies is_space(#[trigger] nl_ind(n)[k]) by {
        if k > 0 {
            assert(nl_ind(n)[k] == spec_spaces(n)[k - 1]);
        }
    }
}

/// An expected single character at the head of the text.
proof fn lemma_expect1_prefix(c: char, rest: Seq<char>)
    ensures
        spec_expect1(seq![c] + rest, c) == Some(rest),
{
    assert((seq![c] + rest)[0] == c);
    assert((seq![c] + rest).skip(1) =~= rest);
}

/// An expected literal at the head of the text.
proof fn lemma_expect_prefix(lit: Seq<char>, rest: Seq<char>)
    ensures
        spec_expect(lit + rest, lit) == Some(rest),
{
    assert((lit + rest).take(lit.len() as int) =~= lit);
    assert((lit + rest).skip(lit.len() as int) =~= rest);
}

// ---------------------------------------------------------------------
// digits, dates, times
// ---------------------------------------------------------------------
proof fn lemma_digit_val(n: int)
    requires
        0 <= n <= 9,
    ensures
        is_digit(spec_digit(n)),
        digit_val(spec_digit(n)) == n,
        !is_space(spec_digit(n)),
        spec_digit(n) != '"' && spec_digit(n) != '\\',
{
}

proof fn lemma_d2_round(n: int, rest: Seq<char>)
    requires
        0 <= n <= 99,
    ensures
        spec_parse_d2(spec_d2(n) + rest) == Some((n, rest)),
{
    let t = spec_d2(n) + rest;
    lemma_digit_val(n / 10);
    lemma_digit_val(n % 10);
    assert(t[0] == spec_digit(n / 10));
    assert(t[1] == spec_digit(n % 10));
    assert(t.skip(2) =~= rest);
    assert((n / 10) * 10 + n % 10 == n);
}

#[verifier::spinoff_prover]
#[verifier::rlimit(100)]
proof fn lemma_d4_round(n: int, rest: Seq<char>)
    requires
        0 <= n <= 9999,
    ensures
        spec_parse_d4(spec_d4(n) + rest) == Some((n, rest)),
{
    let t = spec_d4(n) + rest;
    lemma_digit_val(n / 1000 % 10);
    lemma_digit_val(n / 100 % 10);
    lemma_digit_val(n / 10 % 10);
    lemma_digit_val(n % 10);
    assert(t[0] == spec_digit(n / 1000 % 10));
    assert(t[1] == spec_digit(n / 100 % 10));
    assert(t[2] == spec_digit(n / 10 % 10));
    assert(t[3] == spec_digit(n % 10));
    assert(t.skip(4) =~= rest);
    assert(((n / 1000 % 10) * 10 + n / 100 % 10) * 10 * 10 + (n / 10 % 10) * 10 + n % 10 == n);
}

#[verifier::spinoff_prover]
#[verifier::rlimit(100)]
proof fn lemma_date_round(d: Date, rest: Seq<char>)
    requires
        date_valid(d),
    ensures
        spec_parse_date_digits(spec_date_chars(d) + rest) == Some((d, rest)),
{
    let r1 = seq!['-'] + spec_d2(d.month as int) + seq!['-'] + spec_d2(d.day as int) + rest;
    let r2 = spec_d2(d.month as int) + (seq!['-'] + spec_d2(d.day as int) + rest);
    let r3 = seq!['-'] + spec_d2(d.day as int) + rest;
    let r4 = spec_d2(d.day as int) + rest;
    assert(spec_date_chars(d) + rest =~= spec_d4(d.year as int) + r1);
    lemma_d4_round(d.year as int, r1);
    assert(r1 =~= seq!['-'] + r2);
    lemma_expect1_prefix('-', r2);
    lemma_d2_round(d.month as int, seq!['-'] + spec_d2(d.day as int) + rest);
    assert(r2 =~= spec_d2(d.month as int) + r3);
    lemma_d2_round(d.month as int, r3);
    assert(r3 =~= seq!['-'] + r4);
    lemma_expect1_prefix('-', r4);
    lemma_d2_round(d.day as int, rest);
    assert(Date { year: d.year as u16, month: d.month as u8, day: d.day as u8 } == d);
}

proof fn lemma_quoted_date_round(d: Date, rest: Seq<char>)
    requires
        date_valid(d),
    ensures
        spec_parse_quoted_date(seq!['"'] + spec_date_chars(d) + seq!['"'] + rest) == Some(
            (d, rest),
        ),
{
    let inner = spec_date_chars(d) + (seq!['"'] + rest);
    assert(seq!['"'] + spec_date_chars(d) + seq!['"'] + rest =~= seq!['"'] + inner);
    lemma_expect1_prefix('"', inner);
    lemma_date_round(d, seq!['"'] + rest);
    lemma_expect1_prefix('"', rest);
}

#[verifier::spinoff_prover]
#[verifier::rlimit(100)]
proof fn lemma_timestamp_round(ts: Timestamp, rest: Seq<char>)
    requires
        timestamp_valid(ts),
    ensures
        spec_parse_quoted_timestamp(seq!['"'] + spec_timestamp_chars(ts) + seq!['"'] + rest)
            == Some((ts, rest)),
{
    let time_part = spec_d2(ts.hour as int) + seq![':'] + spec_d2(ts.minute as int) + seq![':']
        + spec_d2(ts.second as int);
    let after_date = seq!['T'] + time_part + seq!['Z'] + (seq!['"'] + rest);
    let inner = spec_date_chars(ts.date) + after_date;
    assert(seq!['"'] + spec_timestamp_chars(ts) + seq!['"'] + rest =~= seq!['"'] + inner);
    lemma_expect1_prefix('"', inner);
    lemma_date_round(ts.date, after_date);
    let t_time = time_part + (seq!['Z'] + (seq!['"'] + rest));
    assert(after_date =~= seq!['T'] + t_time);
    lemma_expect1_prefix('T', t_time);
    // the time digits
    let rm = seq![':'] + spec_d2(ts.minute as int) + seq![':'] + spec_d2(ts.second as int) + (
    seq!['Z'] + (seq!['"'] + rest));
    assert(t_time =~= spec_d2(ts.hour as int) + rm);
    lemma_d2_round(ts.hour as int, rm);
    let rm2 = spec_d2(ts.minute as int) + (seq![':'] + spec_d2(ts.second as int) + (seq!['Z'] + (
    seq!['"'] + rest)));
    assert(rm =~= seq![':'] + rm2);
    lemma_expect1_prefix(':', rm2);
    let rm3 = seq![':'] + spec_d2(ts.second as int) + (seq!['Z'] + (seq!['"'] + rest));
    assert(rm2 =~= spec_d2(ts.minute as int) + rm3);
    lemma_d2_round(ts.minute as int, rm3);
    let rm4 = spec_d2(ts.second as int) + (seq!['Z'] + (seq!['"'] + rest));
    assert(rm3 =~= seq![':'] + rm4);
    lemma_expect1_prefix(':', rm4);
    lemma_d2_round(ts.second as int, seq!['Z'] + (seq!['"'] + rest));
    lemma_expect1_prefix('Z', seq!['"'] + rest);
    lemma_expect1_prefix('"', rest);
    assert(spec_parse_time_digits(t_time) == Some(
        ((ts.hour as int, ts.minute as int, ts.second as int), seq!['Z'] + (seq!['"'] + rest)),
    ));
    assert(Timestamp {
        date: ts.date,
        hour: ts.hour as u8,
        minute: ts.minute as u8,
        second: ts.second as u8,
    } == ts);
}

// ---------------------------------------------------------------------
// JSON strings
// ---------------------------------------------------------------------
proof fn lemma_hex_val(n: int)
    requires
        0 <= n <= 15,
    ensures
        is_hex_digit(spec_hex(n)),
        hex_val(spec_hex(n)) == n,
{
}

/// The escaped body followed by the closing quote reads back as the
/// original characters.
proof fn lemma_string_body_round(s: Seq<char>, rest: Seq<char>)
    ensures
        spec_parse_string_body(spec_escape(s) + seq!['"'] + rest) == Some((s, rest)),
    decreases s.len(),
{
    let t = spec_escape(s) + seq!['"'] + rest;
    if s.len() == 0 {
        assert(t =~= seq!['"'] + rest);
        assert(t[0] == '"');
        assert(t.skip(1) =~= rest);
        assert(Seq::<char>::empty() =~= s);
    } else {
        let c = s[0];
        let e = spec_escape_char(c);
        let t2 = spec_escape(s.drop_first()) + seq!['"'] + rest;
        assert(t =~= e + t2);
        lemma_string_body_round(s.drop_first(), rest);
        if c == '"' {
            assert(t[0] == '\\' && t[1] == '"');
            assert(t.skip(2) =~= t2);
            assert(seq![c] + s.drop_first() =~= s);
        } else if c == '\\' {
            assert(t[0] == '\\' && t[1] == '\\');
            assert(t.skip(2) =~= t2);
            assert(seq![c] + s.drop_first() =~= s);
        } else if (c as u32) < 32 {
            let u = c as u32 as int;
            lemma_hex_val(u / 16);
            lemma_hex_val(u % 16);
            assert(t[0] == '\\' && t[1] == 'u' && t[2] == '0' && t[3] == '0');
            assert(t[4] == spec_hex(u / 16) && t[5] == spec_hex(u % 16));
            assert(t.len() >= 6);
            assert(t[1] != '"' && t[1] != '\\' && t[1] != '/' && t[1] != 'n' && t[1] != 't' && t[1]
                != 'r' && t[1] != 'b' && t[1] != 'f');
            assert(t.skip(6) =~= t2);
            assert((u / 16) * 16 + u % 16 == u);
            assert((((hex_val(t[4]) * 16 + hex_val(t[5])) as u8) as char) == c) by {
                assert(hex_val(t[4]) * 16 + hex_val(t[5]) == u);
                assert(((u as u8) as char) as u32 == c as u32);
                vstd::utf8::char_u32_cast(c, c as u32);
                vstd::utf8::char_u32_cast((u as u8) as char, c as u32);
            }
            assert(seq![c] + s.drop_first() =~= s);
        } else {
            assert(e =~= seq![c]);
            assert(t[0] == c);
            assert(c != '"' && c != '\\' && !((c as u32) < 32));
            assert(t.skip(1) =~= t2);
            assert(seq![c] + s.drop_first() =~= s);
        }
    }
}

/// A serialized JSON string reads back as the original characters.
proof fn lemma_json_string_round(s: Seq<char>, rest: Seq<char>)
    ensures
        spec_parse_string(spec_json_string(s) + rest) == Some((s, rest)),
{
    let body = spec_escape(s) + seq!['"'] + rest;
    assert(spec_json_string(s) + rest =~= seq!['"'] + body);
    lemma_expect1_prefix('"', body);
    lemma_string_body_round(s, rest);
}

/// A serialized JSON string begins with a quote, which is not
/// whitespace and not a bracket, a comma or the start of `null`.
proof fn lemma_json_string_first(s: Seq<char>)
    ensures
        spec_json_string(s).len() > 0,
        spec_json_string(s)[0] == '"',
{
    assert(spec_json_string(s)[0] == '"');
}


// ---------------------------------------------------------------------
// priorities and optional values
// ---------------------------------------------------------------------
/// Escaping changes nothing in text without quotes, backslashes or
/// control characters.
proof fn lemma_escape_plain(s: Seq<char>)
    requires
        forall|k: int|
            0 <= k < s.len() ==> #[trigger] s[k] != '"' && s[k] != '\\' && (s[k] as u32) >= 32,
    ensures
        spec_escape(s) == s,
    decreases s.len(),
{
    if s.len() == 0 {
        assert(spec_escape(s) =~= s);
    } else {
        assert(s[0] == s[0]);
        lemma_escape_plain(s.drop_first());
        assert(spec_escape(s) =~= seq![s[0]] + s.drop_first());
        assert(seq![s[0]] + s.drop_first() =~= s);
    }
}

/// The three priority words, revealed: plain ascii words, pairwise
/// distinct.
proof fn lemma_priority_words()
    ensures
        spec_escape("high"@) == "high"@,
        spec_escape("medium"@) == "medium"@,
        spec_escape("low"@) == "low"@,
        "high"@ != "medium"@ && "high"@ != "low"@ && "medium"@ != "low"@,
{
    reveal_strlit("high");
    reveal_strlit("medium");
    reveal_strlit("low");
    lemma_escape_plain("high"@);
    lemma_escape_plain("medium"@);
    lemma_escape_plain("low"@);
}

proof fn lemma_priority_round(p: ItemPriority, rest: Seq<char>)
    ensures
        spec_parse_priority(spec_json_string(spec_pri_chars(p)) + rest) == Some((p, rest)),
{
    lemma_priority_words();
    lemma_json_string_round(spec_pri_chars(p), rest);
}

/// The word `null`, revealed: four plain characters starting with `n`.
proof fn lemma_null_word()
    ensures
        "null"@.len() == 4,
        "null"@[0] == 'n',
        !is_space("null"@[0]),
{
    reveal_strlit("null");
}

/// On text that starts with a quote, expecting `null` fails.
proof fn lemma_null_vs_quote(t: Seq<char>)
    requires
        t.len() > 0,
        t[0] == '"',
    ensures
        spec_expect(t, "null"@) is None,
{
    lemma_null_word();
    if "null"@.len() <= t.len() {
        assert(t.take(4)[0] == '"');
        assert(t.take(4) != "null"@);
    }
}

proof fn lemma_opt_timestamp_round(o: Option<Timestamp>, rest: Seq<char>)
    requires
        o matches Some(ts) ==> timestamp_valid(ts),
    ensures
        spec_parse_opt_timestamp(spec_opt_timestamp_chars(o) + rest) == Some((o, rest)),
{
    match o {
        Option::None => {
            lemma_expect_prefix("null"@, rest);
        },
        Option::Some(ts) => {
            let t = spec_opt_timestamp_chars(o) + rest;
            assert(t =~= seq!['"'] + spec_timestamp_chars(ts) + seq!['"'] + rest);
            assert(t[0] == '"');
            lemma_null_vs_quote(t);
            lemma_timestamp_round(ts, rest);
        },
    }
}

proof fn lemma_opt_date_round(o: Option<Date>, rest: Seq<char>)
    requires
        o matches Some(d) ==> date_valid(d),
    ensures
        spec_parse_opt_date(spec_opt_date_chars(o) + rest) == Some((o, rest)),
{
    match o {
        Option::None => {
            lemma_expect_prefix("null"@, rest);
        },
        Option::Some(d) => {
            let t = spec_opt_date_chars(o) + rest;
            assert(t =~= seq!['"'] + spec_date_chars(d) + seq!['"'] + rest);
            assert(t[0] == '"');
            lemma_null_vs_quote(t);
            lemma_quoted_date_round(d, rest);
        },
    }
}

proof fn lemma_opt_string_round(o: Option<Seq<char>>, rest: Seq<char>)
    ensures
        spec_parse_opt_string(spec_opt_string_chars(o) + rest) == Some((o, rest)),
{
    match o {
        Option::None => {
            lemma_expect_prefix("null"@, rest);
        },
        Option::Some(sv) => {
            let t = spec_opt_string_chars(o) + rest;
            lemma_json_string_first(sv);
            assert(t[0] == '"');
            lemma_null_vs_quote(t);
            lemma_json_string_round(sv, rest);
        },
    }
}

// ---------------------------------------------------------------------
// the tags array
// ---------------------------------------------------------------------
/// The serialized tail of a tag array, followed by the closing line,
/// reads back as the remaining tags.
proof fn lemma_tags_tail_round(tsr: Seq<Seq<char>>, ind: int, ind_c: int, rest: Seq<char>)
    ensures
        spec_parse_tags_tail(spec_ser_tags_tail(tsr, ind) + nl_ind(ind_c) + seq![']'] + rest)
            == Some((tsr, rest)),
    decreases tsr.len(),
{
    lemma_nl_ind_all_space(ind_c);
    lemma_nl_ind_all_space(ind);
    let t = spec_ser_tags_tail(tsr, ind) + nl_ind(ind_c) + seq![']'] + rest;
    if tsr.len() == 0 {
        assert(t =~= nl_ind(ind_c) + (seq![']'] + rest));
        assert((seq![']'] + rest)[0] == ']');
        lemma_skip_ws_to(nl_ind(ind_c), seq![']'] + rest);
        lemma_expect1_prefix(']', rest);
        assert(Seq::<Seq<char>>::empty() =~= tsr);
    } else {
        let ts0 = tsr[0];
        let tail = spec_ser_tags_tail(tsr.drop_first(), ind);
        let t3 = tail + nl_ind(ind_c) + seq![']'] + rest;
        let t2 = spec_json_string(ts0) + t3;
        let t1 = nl_ind(ind) + t2;
        assert(t =~= seq![','] + t1);
        assert(t[0] == ',');
        lemma_skip_ws_stops(t);
        lemma_expect1_prefix(',', t1);
        lemma_json_string_first(ts0);
        assert(t2[0] == '"');
        lemma_skip_ws_to(nl_ind(ind), t2);
        lemma_json_string_round(ts0, t3);
        assert(spec_json_string(ts0).len() >= 2);
        assert(t3.len() < t.len());
        lemma_tags_tail_round(tsr.drop_first(), ind, ind_c, rest);
        assert(t3 =~= spec_ser_tags_tail(tsr.drop_first(), ind) + nl_ind(ind_c) + seq![']']
            + rest);
        assert(spec_prepend_tag(ts0, spec_parse_tags_tail(t3)) == Some(
            (seq![ts0] + tsr.drop_first(), rest),
        ));
        assert(seq![ts0] + tsr.drop_first() =~= tsr);
    }
}

/// A serialized tag array reads back as the original tags.
proof fn lemma_tags_round(ts: Seq<Seq<char>>, ind: int, rest: Seq<char>)
    ensures
        spec_parse_tags(spec_ser_tags(ts, ind) + rest) == Some((ts, rest)),
{
    let t = spec_ser_tags(ts, ind) + rest;
    if ts.len() == 0 {
        assert(t =~= seq!['['] + (seq![']'] + rest));
        lemma_expect1_prefix('[', seq![']'] + rest);
        assert((seq![']'] + rest)[0] == ']');
        lemma_skip_ws_stops(seq![']'] + rest);
        lemma_expect1_prefix(']', rest);
        assert(Seq::<Seq<char>>::empty() =~= ts);
    } else {
        lemma_nl_ind_all_space(ind + 2);
        let ts0 = ts[0];
        let tail = spec_ser_tags_tail(ts.drop_first(), ind + 2);
        let t3 = tail + nl_ind(ind) + seq![']'] + rest;
        let t2 = spec_json_string(ts0) + t3;
        let t1 = nl_ind(ind + 2) + t2;
        assert(t =~= seq!['['] + t1);
        lemma_expect1_prefix('[', t1);
        lemma_json_string_first(ts0);
        assert(t2[0] == '"');
        lemma_skip_ws_to(nl_ind(ind + 2), t2);
        assert(spec_expect1(t2, ']') is None);
        lemma_json_string_round(ts0, t3);
        assert(spec_json_string(ts0).len() >= 2);
        assert(t3.len() < t.len());
        lemma_tags_tail_round(ts.drop_first(), ind + 2, ind, rest);
        assert(t3 =~= spec_ser_tags_tail(ts.drop_first(), ind + 2) + nl_ind(ind) + seq![']']
            + rest);
        assert(spec_prepend_tag(ts0, spec_parse_tags_tail(t3)) == Some(
            (seq![ts0] + ts.drop_first(), rest),
        ));
        assert(seq![ts0] + ts.drop_first() =~= ts);
    }
}


// ---------------------------------------------------------------------
// items
// ---------------------------------------------------------------------
/// A field key begins with its quote.
proof fn lemma_key_facts()
    ensures
        "\"id\""@.len() > 0 && "\"id\""@[0] == '"',
        "\"text\""@.len() > 0 && "\"text\""@[0] == '"',
        "\"created_at\""@.len() > 0 && "\"created_at\""@[0] == '"',
        "\"done_at\""@.len() > 0 && "\"done_at\""@[0] == '"',
        "\"priority\""@.len() > 0 && "\"priority\""@[0] == '"',
        "\"tags\""@.len() > 0 && "\"tags\""@[0] == '"',
        "\"due\""@.len() > 0 && "\"due\""@[0] == '"',
        "\"notes\""@.len() > 0 && "\"notes\""@[0] == '"',
        "\"migrated_from\""@.len() > 0 && "\"migrated_from\""@[0] == '"',
        "\"date\""@.len() > 0 && "\"date\""@[0] == '"',
        "\"items\""@.len() > 0 && "\"items\""@[0] == '"',
{
    reveal_strlit("\"id\"");
    reveal_strlit("\"text\"");
    reveal_strlit("\"created_at\"");
    reveal_strlit("\"done_at\"");
    reveal_strlit("\"priority\"");
    reveal_strlit("\"tags\"");
    reveal_strlit("\"due\"");
    reveal_strlit("\"notes\"");
    reveal_strlit("\"migrated_from\"");
    reveal_strlit("\"date\"");
    reveal_strlit("\"items\"");
}

/// A key line after whitespace: quoted key, colon, one space, value.
proof fn lemma_key_round(key: Seq<char>, ind: int, tail: Seq<char>)
    requires
        key.len() > 0,
        !is_space(key[0]),
        tail.len() == 0 || !is_space(tail[0]),
    ensures
        spec_parse_key(nl_ind(ind) + key + colon_sp() + tail, key) == Some(tail),
{
    lemma_nl_ind_all_space(ind);
    let t = nl_ind(ind) + key + colon_sp() + tail;
    let after_ws = key + (colon_sp() + tail);
    assert(t =~= nl_ind(ind) + after_ws);
    assert(after_ws[0] == key[0]);
    lemma_skip_ws_to(nl_ind(ind), after_ws);
    lemma_expect_prefix(key, colon_sp() + tail);
    let after_key = colon_sp() + tail;
    assert(after_key[0] == ':');
    lemma_skip_ws_stops(after_key);
    assert(after_key =~= seq![':'] + (seq![' '] + tail));
    lemma_expect1_prefix(':', seq![' '] + tail);
    lemma_skip_ws_to(seq![' '], tail);
}

/// A comma, then a key line.
proof fn lemma_next_key_round(key: Seq<char>, ind: int, tail: Seq<char>)
    requires
        key.len() > 0,
        !is_space(key[0]),
        tail.len() == 0 || !is_space(tail[0]),
    ensures
        spec_parse_next_key(seq![','] + nl_ind(ind) + key + colon_sp() + tail, key) == Some(tail),
{
    let t = seq![','] + nl_ind(ind) + key + colon_sp() + tail;
    let t1 = nl_ind(ind) + key + colon_sp() + tail;
    assert(t =~= seq![','] + t1);
    assert(t[0] == ',');
    lemma_skip_ws_stops(t);
    lemma_expect1_prefix(',', t1);
    lemma_key_round(key, ind, tail);
}

/// Every serialized value begins with a quote, an `n`, or an opening
/// bracket — never whitespace.
proof fn lemma_opt_timestamp_first(o: Option<Timestamp>)
    ensures
        spec_opt_timestamp_chars(o).len() > 0,
        !is_space(spec_opt_timestamp_chars(o)[0]),
{
    lemma_null_word();
    match o {
        Option::None => {},
        Option::Some(ts) => {
            assert(spec_opt_timestamp_chars(o)[0] == '"');
        },
    }
}

proof fn lemma_opt_date_first(o: Option<Date>)
    ensures
        spec_opt_date_chars(o).len() > 0,
        !is_space(spec_opt_date_chars(o)[0]),
{
    lemma_null_word();
    match o {
        Option::None => {},
        Option::Some(d) => {
            assert(spec_opt_date_chars(o)[0] == '"');
        },
    }
}

proof fn lemma_opt_string_first(o: Option<Seq<char>>)
    ensures
        spec_opt_string_chars(o).len() > 0,
        !is_space(spec_opt_string_chars(o)[0]),
{
    lemma_null_word();
    match o {
        Option::None => {},
        Option::Some(sv) => {
            lemma_json_string_first(sv);
        },
    }
}

proof fn lemma_tags_first(ts: Seq<Seq<char>>, ind: int)
    ensures
        spec_ser_tags(ts, ind).len() > 0,
        spec_ser_tags(ts, ind)[0] == '[',
        !is_space(spec_ser_tags(ts, ind)[0]),
{
}

/// The serialized item text, cut after each value: the flattening that
/// connects the serializer's grouping to the parser's steps.
#[verifier::spinoff_prover]
#[verifier::rlimit(100)]
proof fn lemma_item_text_shape(
    i: ItemView,
    ind: int,
    rest: Seq<char>,
    s10: Seq<char>,
    s9: Seq<char>,
    s8: Seq<char>,
    s7: Seq<char>,
    s6: Seq<char>,
    s5: Seq<char>,
    s4: Seq<char>,
    s3: Seq<char>,
    s2: Seq<char>,
    s1: Seq<char>,
)
    requires
        s10 == nl_ind(ind) + (seq!['}'] + rest),
        s9 == seq![','] + nl_ind(ind + 2) + "\"migrated_from\""@ + colon_sp() + (
        spec_opt_date_chars(i.migrated_from) + s10),
        s8 == seq![','] + nl_ind(ind + 2) + "\"notes\""@ + colon_sp() + (spec_opt_string_chars(
            i.notes,
        ) + s9),
        s7 == seq![','] + nl_ind(ind + 2) + "\"due\""@ + colon_sp() + (spec_opt_timestamp_chars(
            i.due,
        ) + s8),
        s6 == seq![','] + nl_ind(ind + 2) + "\"tags\""@ + colon_sp() + (spec_ser_tags(
            i.tags,
            ind + 2,
        ) + s7),
        s5 == seq![','] + nl_ind(ind + 2) + "\"priority\""@ + colon_sp() + (spec_json_string(
            spec_pri_chars(i.priority),
        ) + s6),
        s4 == seq![','] + nl_ind(ind + 2) + "\"done_at\""@ + colon_sp() + (
        spec_opt_timestamp_chars(i.done_at) + s5),
        s3 == seq![','] + nl_ind(ind + 2) + "\"created_at\""@ + colon_sp() + ((seq!['"']
            + spec_timestamp_chars(i.created_at) + seq!['"']) + s4),
        s2 == seq![','] + nl_ind(ind + 2) + "\"text\""@ + colon_sp() + (spec_json_string(i.text)
            + s3),
        s1 == nl_ind(ind + 2) + "\"id\""@ + colon_sp() + (spec_json_string(i.id) + s2),
    ensures
        spec_ser_item(i, ind) + rest == seq!['{'] + s1,
{
    let d = ind + 2;
    let f1 = spec_field("\"id\""@, spec_json_string(i.id), d);
    let p2 = spec_next_field("\"text\""@, spec_json_string(i.text), d);
    let p3 = spec_next_field(
        "\"created_at\""@,
        seq!['"'] + spec_timestamp_chars(i.created_at) + seq!['"'],
        d,
    );
    let p4 = spec_next_field("\"done_at\""@, spec_opt_timestamp_chars(i.done_at), d);
    let p5 = spec_next_field("\"priority\""@, spec_json_string(spec_pri_chars(i.priority)), d);
    let p6 = spec_next_field("\"tags\""@, spec_ser_tags(i.tags, d), d);
    let p7 = spec_next_field("\"due\""@, spec_opt_timestamp_chars(i.due), d);
    let p8 = spec_next_field("\"notes\""@, spec_opt_string_chars(i.notes), d);
    let p9 = spec_next_field("\"migrated_from\""@, spec_opt_date_chars(i.migrated_from), d);
    let head = seq!['{'] + f1;
    let q2 = head + p2;
    let q3 = q2 + p3;
    let q4 = q3 + p4;
    let q5 = q4 + p5;
    let q6 = q5 + p6;
    let q7 = q6 + p7;
    let q8 = q7 + p8;
    let q9 = q8 + p9;
    let q10 = q9 + nl_ind(ind);
    assert(spec_ser_item(i, ind) == q10 + seq!['}']) by {
        reveal(spec_ser_item);
    }
    lemma_rot(q10, seq!['}'], rest);
    lemma_rot(q9, nl_ind(ind), seq!['}'] + rest);
    lemma_shape_step(q8, "\"migrated_from\""@, spec_opt_date_chars(i.migrated_from), d, s9, s10);
    lemma_shape_step(q7, "\"notes\""@, spec_opt_string_chars(i.notes), d, s8, s9);
    lemma_shape_step(q6, "\"due\""@, spec_opt_timestamp_chars(i.due), d, s7, s8);
    lemma_shape_step(q5, "\"tags\""@, spec_ser_tags(i.tags, d), d, s6, s7);
    lemma_shape_step(
        q4,
        "\"priority\""@,
        spec_json_string(spec_pri_chars(i.priority)),
        d,
        s5,
        s6,
    );
    lemma_shape_step(q3, "\"done_at\""@, spec_opt_timestamp_chars(i.done_at), d, s4, s5);
    lemma_shape_step(
        q2,
        "\"created_at\""@,
        seq!['"'] + spec_timestamp_chars(i.created_at) + seq!['"'],
        d,
        s3,
        s4,
    );
    lemma_shape_step(head, "\"text\""@, spec_json_string(i.text), d, s2, s3);
    lemma_shape_head("\"id\""@, spec_json_string(i.id), d, s1, s2);
}

/// One field chunk absorbs into the following suffix.
#[verifier::spinoff_prover]
proof fn lemma_shape_step(
    q: Seq<char>,
    key: Seq<char>,
    val: Seq<char>,
    d: int,
    sk: Seq<char>,
    snext: Seq<char>,
)
    requires
        sk == seq![','] + nl_ind(d) + key + colon_sp() + (val + snext),
    ensures
        (q + spec_next_field(key, val, d)) + snext == q + sk,
{
    lemma_rot(q, spec_next_field(key, val, d), snext);
    assert(spec_next_field(key, val, d) + snext =~= sk);
}

/// The opening brace and the first field absorb into the first suffix.
#[verifier::spinoff_prover]
proof fn lemma_shape_head(key: Seq<char>, val: Seq<char>, d: int, s1: Seq<char>, s2: Seq<char>)
    requires
        s1 == nl_ind(d) + key + colon_sp() + (val + s2),
    ensures
        (seq!['{'] + spec_field(key, val, d)) + s2 == seq!['{'] + s1,
{
    lemma_rot(seq!['{'], spec_field(key, val, d), s2);
    assert(spec_field(key, val, d) + s2 =~= s1);
}

/// Concatenation reassociates.
proof fn lemma_rot(x: Seq<char>, y: Seq<char>, z: Seq<char>)
    ensures
        (x + y) + z == x + (y + z),
{
    assert((x + y) + z =~= x + (y + z));
}

/// One serialized item reads back as exactly the original item.
#[verifier::spinoff_prover]
#[verifier::rlimit(100)]
proof fn lemma_item_round(i: ItemView, ind: int, rest: Seq<char>)
    requires
        item_valid(i),
    ensures
        spec_parse_item(spec_ser_item(i, ind) + rest) == Some((i, rest)),
{
    lemma_key_facts();
    let d = ind + 2;
    // the text after each value, from the back of the object forward
    let s10 = nl_ind(ind) + (seq!['}'] + rest);
    let tail9 = spec_opt_date_chars(i.migrated_from) + s10;
    let s9 = seq![','] + nl_ind(d) + "\"migrated_from\""@ + colon_sp() + tail9;
    let tail8 = spec_opt_string_chars(i.notes) + s9;
    let s8 = seq![','] + nl_ind(d) + "\"notes\""@ + colon_sp() + tail8;
    let tail7 = spec_opt_timestamp_chars(i.due) + s8;
    let s7 = seq![','] + nl_ind(d) + "\"due\""@ + colon_sp() + tail7;
    let tail6 = spec_ser_tags(i.tags, d) + s7;
    let s6 = seq![','] + nl_ind(d) + "\"tags\""@ + colon_sp() + tail6;
    let tail5 = spec_json_string(spec_pri_chars(i.priority)) + s6;
    let s5 = seq![','] + nl_ind(d) + "\"priority\""@ + colon_sp() + tail5;
    let tail4 = spec_opt_timestamp_chars(i.done_at) + s5;
    let s4 = seq![','] + nl_ind(d) + "\"done_at\""@ + colon_sp() + tail4;
    let tail3 = (seq!['"'] + spec_timestamp_chars(i.created_at) + seq!['"']) + s4;
    let s3 = seq![','] + nl_ind(d) + "\"created_at\""@ + colon_sp() + tail3;
    let tail2 = spec_json_string(i.text) + s3;
    let s2 = seq![','] + nl_ind(d) + "\"text\""@ + colon_sp() + tail2;
    let tail1 = spec_json_string(i.id) + s2;
    let s1 = nl_ind(d) + "\"id\""@ + colon_sp() + tail1;
    lemma_item_text_shape(i, ind, rest, s10, s9, s8, s7, s6, s5, s4, s3, s2, s1);
    lemma_expect1_prefix('{', s1);
    lemma_json_string_first(i.id);
    assert(tail1[0] == '"');
    lemma_key_round("\"id\""@, d, tail1);
    lemma_json_string_round(i.id, s2);
    lemma_json_string_first(i.text);
    assert(tail2[0] == '"');
    lemma_next_key_round("\"text\""@, d, tail2);
    lemma_json_string_round(i.text, s3);
    assert(tail3[0] == '"') by {
        assert(tail3[0] == (seq!['"'] + spec_timestamp_chars(i.created_at) + seq!['"'])[0]);
    }
    lemma_next_key_round("\"created_at\""@, d, tail3);
    assert(tail3 =~= seq!['"'] + spec_timestamp_chars(i.created_at) + seq!['"'] + s4);
    lemma_timestamp_round(i.created_at, s4);
    lemma_opt_timestamp_first(i.done_at);
    assert(tail4[0] == spec_opt_timestamp_chars(i.done_at)[0]);
    lemma_next_key_round("\"done_at\""@, d, tail4);
    lemma_opt_timestamp_round(i.done_at, s5);
    lemma_json_string_first(spec_pri_chars(i.priority));
    assert(tail5[0] == '"');
    lemma_next_key_round("\"priority\""@, d, tail5);
    lemma_priority_round(i.priority, s6);
    lemma_tags_first(i.tags, d);
    assert(tail6[0] == '[');
    lemma_next_key_round("\"tags\""@, d, tail6);
    lemma_tags_round(i.tags, d, s7);
    lemma_opt_timestamp_first(i.due);
    assert(tail7[0] == spec_opt_timestamp_chars(i.due)[0]);
    lemma_next_key_round("\"due\""@, d, tail7);
    lemma_opt_timestamp_round(i.due, s8);
    lemma_opt_string_first(i.notes);
    assert(tail8[0] == spec_opt_string_chars(i.notes)[0]);
    lemma_next_key_round("\"notes\""@, d, tail8);
    lemma_opt_string_round(i.notes, s9);
    lemma_opt_date_first(i.migrated_from);
    assert(tail9[0] == spec_opt_date_chars(i.migrated_from)[0]);
    lemma_next_key_round("\"migrated_from\""@, d, tail9);
    lemma_opt_date_round(i.migrated_from, s10);
    // the closing brace
    lemma_nl_ind_all_space(ind);
    assert((seq!['}'] + rest)[0] == '}');
    lemma_skip_ws_to(nl_ind(ind), seq!['}'] + rest);
    lemma_expect1_prefix('}', rest);
    assert(spec_parse_item_rest(i.id, i.text, i.created_at, i.done_at, i.priority, s6) == Some(
        (i, rest),
    ));
}


// ---------------------------------------------------------------------
// the items array and the whole document
// ---------------------------------------------------------------------
proof fn lemma_item_first(i: ItemView, ind: int)
    ensures
        spec_ser_item(i, ind).len() > 0,
        spec_ser_item(i, ind)[0] == '{',
{
    reveal(spec_ser_item);
}

proof fn lemma_items_first(items: Seq<ItemView>, ind: int)
    ensures
        spec_ser_items(items, ind).len() > 0,
        spec_ser_items(items, ind)[0] == '[',
{
}

/// The serialized tail of the items array, followed by the closing
/// line, reads back as the remaining items.
#[verifier::spinoff_prover]
#[verifier::rlimit(100)]
proof fn lemma_items_tail_round(items: Seq<ItemView>, ind: int, ind_c: int, rest: Seq<char>)
    requires
        forall|k: int| 0 <= k < items.len() ==> item_valid(#[trigger] items[k]),
    ensures
        spec_parse_items_tail(spec_ser_items_tail(items, ind) + nl_ind(ind_c) + seq![']'] + rest)
            == Some((items, rest)),
    decreases items.len(),
{
    lemma_nl_ind_all_space(ind_c);
    lemma_nl_ind_all_space(ind);
    let t = spec_ser_items_tail(items, ind) + nl_ind(ind_c) + seq![']'] + rest;
    if items.len() == 0 {
        assert(t =~= nl_ind(ind_c) + (seq![']'] + rest));
        assert((seq![']'] + rest)[0] == ']');
        lemma_skip_ws_to(nl_ind(ind_c), seq![']'] + rest);
        lemma_expect1_prefix(']', rest);
        assert(Seq::<ItemView>::empty() =~= items);
    } else {
        let i0 = items[0];
        let tail = spec_ser_items_tail(items.drop_first(), ind);
        let t3 = tail + nl_ind(ind_c) + seq![']'] + rest;
        let t2 = spec_ser_item(i0, ind) + t3;
        let t1 = nl_ind(ind) + t2;
        assert(t =~= seq![','] + t1);
        assert(t[0] == ',');
        lemma_skip_ws_stops(t);
        lemma_expect1_prefix(',', t1);
        lemma_item_first(i0, ind);
        assert(t2[0] == '{');
        lemma_skip_ws_to(nl_ind(ind), t2);
        assert(item_valid(i0));
        lemma_item_round(i0, ind, t3);
        assert(t3.len() < t.len());
        assert(forall|k: int|
            0 <= k < items.drop_first().len() ==> item_valid(#[trigger] items.drop_first()[k]));
        lemma_items_tail_round(items.drop_first(), ind, ind_c, rest);
        assert(t3 =~= spec_ser_items_tail(items.drop_first(), ind) + nl_ind(ind_c) + seq![']']
            + rest);
        assert(spec_prepend_item(i0, spec_parse_items_tail(t3)) == Some(
            (seq![i0] + items.drop_first(), rest),
        ));
        assert(seq![i0] + items.drop_first() =~= items);
    }
}

/// A serialized items array reads back as the original items.
#[verifier::spinoff_prover]
#[verifier::rlimit(100)]
proof fn lemma_items_round(items: Seq<ItemView>, ind: int, rest: Seq<char>)
    requires
        forall|k: int| 0 <= k < items.len() ==> item_valid(#[trigger] items[k]),
    ensures
        spec_parse_items(spec_ser_items(items, ind) + rest) == Some((items, rest)),
{
    let t = spec_ser_items(items, ind) + rest;
    if items.len() == 0 {
        assert(t =~= seq!['['] + (seq![']'] + rest));
        lemma_expect1_prefix('[', seq![']'] + rest);
        assert((seq![']'] + rest)[0] == ']');
        lemma_skip_ws_stops(seq![']'] + rest);
        lemma_expect1_prefix(']', rest);
        assert(Seq::<ItemView>::empty() =~= items);
    } else {
        lemma_nl_ind_all_space(ind + 2);
        let i0 = items[0];
        let tail = spec_ser_items_tail(items.drop_first(), ind + 2);
        let t3 = tail + nl_ind(ind) + seq![']'] + rest;
        let t2 = spec_ser_item(i0, ind + 2) + t3;
        let t1 = nl_ind(ind + 2) + t2;
        assert(t =~= seq!['['] + t1);
        lemma_expect1_prefix('[', t1);
        lemma_item_first(i0, ind + 2);
        assert(t2[0] == '{');
        lemma_skip_ws_to(nl_ind(ind + 2), t2);
        assert(spec_expect1(t2, ']') is None);
        assert(item_valid(i0));
        lemma_item_round(i0, ind + 2, t3);
        assert(t3.len() < t.len());
        assert(forall|k: int|
            0 <= k < items.drop_first().len() ==> item_valid(#[trigger] items.drop_first()[k]));
        lemma_items_tail_round(items.drop_first(), ind + 2, ind, rest);
        assert(t3 =~= spec_ser_items_tail(items.drop_first(), ind + 2) + nl_ind(ind) + seq![']']
            + rest);
        assert(spec_prepend_item(i0, spec_parse_items_tail(t3)) == Some(
            (seq![i0] + items.drop_first(), rest),
        ));
        assert(seq![i0] + items.drop_first() =~= items);
    }
}

/// The document text, cut after each of its two values.
#[verifier::spinoff_prover]
#[verifier::rlimit(100)]
proof fn lemma_dayfile_text_shape(
    df: DayFileView,
    s_end: Seq<char>,
    s3: Seq<char>,
    s2: Seq<char>,
    s1: Seq<char>,
)
    requires
        s_end == seq!['\n'],
        s3 == nl_ind(0) + (seq!['}'] + s_end),
        s2 == seq![','] + nl_ind(2) + "\"items\""@ + colon_sp() + (spec_ser_items(df.items, 2)
            + s3),
        s1 == nl_ind(2) + "\"date\""@ + colon_sp() + ((seq!['"'] + spec_date_chars(df.date)
            + seq!['"']) + s2),
    ensures
        spec_ser_dayfile(df) == seq!['{'] + s1,
{
    let f1 = spec_field("\"date\""@, seq!['"'] + spec_date_chars(df.date) + seq!['"'], 2);
    let f2 = spec_field("\"items\""@, spec_ser_items(df.items, 2), 2);
    let q2 = seq!['{'] + f1;
    let q3 = q2 + seq![','];
    let q4 = q3 + f2;
    let q5 = q4 + nl_ind(0);
    let q6 = q5 + seq!['}'];
    assert(spec_ser_dayfile(df) == q6 + seq!['\n']);
    lemma_rot(q5, seq!['}'], s_end);
    lemma_rot(q4, nl_ind(0), seq!['}'] + s_end);
    let m2 = f2 + s3;
    lemma_rot(q3, f2, s3);
    lemma_rot(q2, seq![','], m2);
    assert(s2 =~= seq![','] + m2);
    lemma_shape_head("\"date\""@, seq!['"'] + spec_date_chars(df.date) + seq!['"'], 2, s1, s2);
}

/// Step one of reading the document: the brace, the `date` key and its
/// value.
#[verifier::spinoff_prover]
#[verifier::rlimit(100)]
proof fn lemma_dayfile_chain_date(df: DayFileView, s2: Seq<char>, s1: Seq<char>)
    requires
        dayfile_valid(df),
        s1 == nl_ind(2) + "\"date\""@ + colon_sp() + ((seq!['"'] + spec_date_chars(df.date)
            + seq!['"']) + s2),
    ensures
        spec_skip_ws(seq!['{'] + s1) == seq!['{'] + s1,
        spec_expect1(seq!['{'] + s1, '{') == Some(s1),
        spec_parse_key(s1, "\"date\""@) == Some(
            (seq!['"'] + spec_date_chars(df.date) + seq!['"']) + s2,
        ),
        spec_parse_quoted_date((seq!['"'] + spec_date_chars(df.date) + seq!['"']) + s2) == Some(
            (df.date, s2),
        ),
{
    reveal_strlit("\"date\"");
    lemma_nl_ind_all_space(2);
    let t = seq!['{'] + s1;
    let tail1 = (seq!['"'] + spec_date_chars(df.date) + seq!['"']) + s2;
    assert(t[0] == '{');
    lemma_skip_ws_stops(t);
    lemma_expect1_prefix('{', s1);
    assert(tail1[0] == '"') by {
        assert(tail1[0] == (seq!['"'] + spec_date_chars(df.date) + seq!['"'])[0]);
    }
    lemma_key_round("\"date\""@, 2, tail1);
    lemma_quoted_date_round(df.date, s2);
}

/// Step two: the `items` key and the items array.
#[verifier::spinoff_prover]
#[verifier::rlimit(100)]
proof fn lemma_dayfile_chain_items(df: DayFileView, s3: Seq<char>, s2: Seq<char>)
    requires
        dayfile_valid(df),
        s2 == seq![','] + nl_ind(2) + "\"items\""@ + colon_sp() + (spec_ser_items(df.items, 2)
            + s3),
    ensures
        spec_parse_next_key(s2, "\"items\""@) == Some(spec_ser_items(df.items, 2) + s3),
        spec_parse_items(spec_ser_items(df.items, 2) + s3) == Some((df.items, s3)),
{
    reveal_strlit("\"items\"");
    lemma_nl_ind_all_space(2);
    let tail2 = spec_ser_items(df.items, 2) + s3;
    lemma_items_first(df.items, 2);
    assert(tail2[0] == '[');
    lemma_next_key_round("\"items\""@, 2, tail2);
    lemma_items_round(df.items, 2, s3);
}

/// Step three: the closing brace and the trailing newline.
#[verifier::spinoff_prover]
proof fn lemma_dayfile_chain_end(s_end: Seq<char>, s3: Seq<char>)
    requires
        s_end == seq!['\n'],
        s3 == nl_ind(0) + (seq!['}'] + s_end),
    ensures
        spec_expect1(spec_skip_ws(s3), '}') == Some(s_end),
        spec_skip_ws(s_end).len() == 0,
{
    lemma_nl_ind_all_space(0);
    assert((seq!['}'] + s_end)[0] == '}');
    lemma_skip_ws_to(nl_ind(0), seq!['}'] + s_end);
    lemma_expect1_prefix('}', s_end);
    assert(is_space(s_end[0]));
    assert(s_end.drop_first() =~= Seq::<char>::empty());
    assert(spec_skip_ws(s_end) == spec_skip_ws(Seq::<char>::empty()));
}

/// Parsing the document text, step by step, once it is cut after each
/// value.
#[verifier::spinoff_prover]
#[verifier::rlimit(100)]
proof fn lemma_dayfile_parse_chain(
    df: DayFileView,
    s_end: Seq<char>,
    s3: Seq<char>,
    s2: Seq<char>,
    s1: Seq<char>,
)
    requires
        dayfile_valid(df),
        s_end == seq!['\n'],
        s3 == nl_ind(0) + (seq!['}'] + s_end),
        s2 == seq![','] + nl_ind(2) + "\"items\""@ + colon_sp() + (spec_ser_items(df.items, 2)
            + s3),
        s1 == nl_ind(2) + "\"date\""@ + colon_sp() + ((seq!['"'] + spec_date_chars(df.date)
            + seq!['"']) + s2),
    ensures
        spec_parse_dayfile(seq!['{'] + s1) == Some(df),
{
    lemma_dayfile_chain_date(df, s2, s1);
    lemma_dayfile_chain_items(df, s3, s2);
    lemma_dayfile_chain_end(s_end, s3);
    assert(DayFileView { date: df.date, items: df.items } == df);
}

/// The round-trip law: the canonical text written for any well-formed
/// day-file parses back as exactly the same value, field for field,
/// empty optionals and empty tag lists included.
#[verifier::spinoff_prover]
pub proof fn lemma_dayfile_round_trip(df: DayFileView)
    requires
        dayfile_valid(df),
    ensures
        spec_parse_dayfile(spec_ser_dayfile(df)) == Some(df),
{
    let s_end = seq!['\n'];
    let s3 = nl_ind(0) + (seq!['}'] + s_end);
    let s2 = seq![','] + nl_ind(2) + "\"items\""@ + colon_sp() + (spec_ser_items(df.items, 2)
        + s3);
    let s1 = nl_ind(2) + "\"date\""@ + colon_sp() + ((seq!['"'] + spec_date_chars(df.date)
        + seq!['"']) + s2);
    lemma_dayfile_text_shape(df, s_end, s3, s2, s1);
    lemma_dayfile_parse_chain(df, s_end, s3, s2, s1);
}

/// Loading a date twice returns the same state: the first touch of a
/// missing day persists the empty day-file, and that very text reads
/// back as the same empty day-file on the second call.
pub proof fn lemma_load_or_create_idempotent(date: Date)
    requires
        date_valid(date),
    ensures
        spec_parse_dayfile(spec_ser_dayfile(spec_empty_dayfile(date))) == Some(
            spec_empty_dayfile(date),
        ),
{
    lemma_dayfile_round_trip(spec_empty_dayfile(date));
}

/// A freshly created item survives the trip to disk and back: after
/// appending it and re-reading the written day-file, the last item holds
/// exactly the given trimmed text, the tags extracted from the raw text,
/// and no completion stamp.
pub proof fn lemma_create_then_load(df: DayFileView, it: ItemView, text: Seq<char>)
    requires
        dayfile_valid(df),
        item_valid(it),
        it.text == crate::helpers::spec_trim(text),
        it.tags == crate::helpers::spec_tags(text),
        it.done_at is None,
    ensures
        ({
            let stored = DayFileView { date: df.date, items: df.items.push(it) };
            &&& spec_parse_dayfile(spec_ser_dayfile(stored)) == Some(stored)
            &&& stored.items.last().text == crate::helpers::spec_trim(text)
            &&& stored.items.last().tags == crate::helpers::spec_tags(text)
            &&& stored.items.last().done_at is None
        }),
{
    let stored = DayFileView { date: df.date, items: df.items.push(it) };
    assert forall|k: int| 0 <= k < stored.items.len() implies item_valid(
        #[trigger] stored.items[k],
    ) by {
        if k < df.items.len() {
            assert(item_valid(df.items[k]));
        }
    }
    lemma_dayfile_round_trip(stored);
}

} // verus!
