//! The reader for the day-file schema: a recursive-descent parser whose
//! grammar is fixed by the spec functions here — whitespace-insensitive
//! between tokens, fields in schema order, JSON string escapes, and the
//! calendar checked while reading. The executable parser returns exactly
//! what the spec functions say, character for character.

use vstd::prelude::*;
use vstd::string::StringExecFns;

use crate::date::{Date, Timestamp, date_valid, timestamp_valid};
use crate::strings::{char_is_space, is_space, str_chars};
use crate::sys::push_char;

verus! {

// ---------------------------------------------------------------------
// primitive pieces of the grammar
// ---------------------------------------------------------------------
pub open spec fn spec_skip_ws(t: Seq<char>) -> Seq<char>
    decreases t.len(),
{
    if t.len() > 0 && is_space(t[0]) {
        spec_skip_ws(t.drop_first())
    } else {
        t
    }
}

/// Consume one expected character.
pub open spec fn spec_expect1(t: Seq<char>, c: char) -> Option<Seq<char>> {
    if t.len() > 0 && t[0] == c {
        Option::Some(t.skip(1))
    } else {
        Option::None
    }
}

/// Consume an expected literal.
pub open spec fn spec_expect(t: Seq<char>, lit: Seq<char>) -> Option<Seq<char>> {
    if lit.len() <= t.len() && t.take(lit.len() as int) == lit {
        Option::Some(t.skip(lit.len() as int))
    } else {
        Option::None
    }
}

pub open spec fn is_digit(c: char) -> bool {
    48 <= c as u32 <= 57
}

pub open spec fn digit_val(c: char) -> int {
    c as u32 - 48
}

/// Two decimal digits, fixed width.
pub open spec fn spec_parse_d2(t: Seq<char>) -> Option<(int, Seq<char>)> {
    if t.len() >= 2 && is_digit(t[0]) && is_digit(t[1]) {
        Option::Some((digit_val(t[0]) * 10 + digit_val(t[1]), t.skip(2)))
    } else {
        Option::None
    }
}

/// Four decimal digits, fixed width.
pub open spec fn spec_parse_d4(t: Seq<char>) -> Option<(int, Seq<char>)> {
    if t.len() >= 4 && is_digit(t[0]) && is_digit(t[1]) && is_digit(t[2]) && is_digit(t[3]) {
        Option::Some(
            (
                ((digit_val(t[0]) * 10 + digit_val(t[1])) * 10 + digit_val(t[2])) * 10 + digit_val(
                    t[3],
                ),
                t.skip(4),
            ),
        )
    } else {
        Option::None
    }
}

/// `YYYY-MM-DD`, checked against the calendar.
pub open spec fn spec_parse_date_digits(t: Seq<char>) -> Option<(Date, Seq<char>)> {
    match spec_parse_d4(t) {
        Option::None => Option::None,
        Option::Some((y, t1)) => match spec_expect1(t1, '-') {
            Option::None => Option::None,
            Option::Some(t2) => match spec_parse_d2(t2) {
                Option::None => Option::None,
                Option::Some((m, t3)) => match spec_expect1(t3, '-') {
                    Option::None => Option::None,
                    Option::Some(t4) => match spec_parse_d2(t4) {
                        Option::None => Option::None,
                        Option::Some((d, t5)) => {
                            let date = Date { year: y as u16, month: m as u8, day: d as u8 };
                            if date_valid(date) {
                                Option::Some((date, t5))
                            } else {
                                Option::None
                            }
                        },
                    },
                },
            },
        },
    }
}

/// A date between JSON quotes.
pub open spec fn spec_parse_quoted_date(t: Seq<char>) -> Option<(Date, Seq<char>)> {
    match spec_expect1(t, '"') {
        Option::None => Option::None,
        Option::Some(t1) => match spec_parse_date_digits(t1) {
            Option::None => Option::None,
            Option::Some((d, t2)) => match spec_expect1(t2, '"') {
                Option::None => Option::None,
                Option::Some(t3) => Option::Some((d, t3)),
            },
        },
    }
}

/// `HH:MM:SS` with each part in range.
pub open spec fn spec_parse_time_digits(t: Seq<char>) -> Option<((int, int, int), Seq<char>)> {
    match spec_parse_d2(t) {
        Option::None => Option::None,
        Option::Some((h, t1)) => match spec_expect1(t1, ':') {
            Option::None => Option::None,
            Option::Some(t2) => match spec_parse_d2(t2) {
                Option::None => Option::None,
                Option::Some((mi, t3)) => match spec_expect1(t3, ':') {
                    Option::None => Option::None,
                    Option::Some(t4) => match spec_parse_d2(t4) {
                        Option::None => Option::None,
                        Option::Some((se, t5)) => {
                            if h <= 23 && mi <= 59 && se <= 59 {
                                Option::Some(((h, mi, se), t5))
                            } else {
                                Option::None
                            }
                        },
                    },
                },
            },
        },
    }
}

/// A run of decimal digits, dropped.
pub open spec fn spec_skip_digits(t: Seq<char>) -> Seq<char>
    decreases t.len(),
{
    if t.len() > 0 && is_digit(t[0]) {
        spec_skip_digits(t.drop_first())
    } else {
        t
    }
}

/// An optional fractional-seconds part: a dot followed by at least one
/// digit, all of it discarded — the model keeps second precision.
pub open spec fn spec_skip_fraction(t: Seq<char>) -> Option<Seq<char>> {
    if t.len() > 0 && t[0] == '.' {
        let u = spec_skip_digits(t.skip(1));
        if u.len() < t.len() - 1 {
            Option::Some(u)
        } else {
            Option::None
        }
    } else {
        Option::Some(t)
    }
}

/// `"YYYY-MM-DDTHH:MM:SS[.fff…]Z"`: an RFC3339 timestamp in UTC, the
/// fractional seconds accepted and dropped.
pub open spec fn spec_parse_quoted_timestamp(t: Seq<char>) -> Option<(Timestamp, Seq<char>)> {
    match spec_expect1(t, '"') {
        Option::None => Option::None,
        Option::Some(t1) => match spec_parse_date_digits(t1) {
            Option::None => Option::None,
            Option::Some((d, t2)) => match spec_expect1(t2, 'T') {
                Option::None => Option::None,
                Option::Some(t3) => match spec_parse_time_digits(t3) {
                    Option::None => Option::None,
                    Option::Some(((h, mi, se), t4)) => match spec_skip_fraction(t4) {
                        Option::None => Option::None,
                        Option::Some(t4b) => match spec_expect1(t4b, 'Z') {
                            Option::None => Option::None,
                            Option::Some(t5) => match spec_expect1(t5, '"') {
                                Option::None => Option::None,
                                Option::Some(t6) => Option::Some(
                                    (
                                        Timestamp {
                                            date: d,
                                            hour: h as u8,
                                            minute: mi as u8,
                                            second: se as u8,
                                        },
                                        t6,
                                    ),
                                ),
                            },
                        },
                    },
                },
            },
        },
    }
}

// ---------------------------------------------------------------------
// JSON strings
// ---------------------------------------------------------------------
pub open spec fn is_hex_digit(c: char) -> bool {
    is_digit(c) || (97 <= c as u32 <= 102)
}

pub open spec fn hex_val(c: char) -> int {
    if is_digit(c) {
        digit_val(c)
    } else {
        c as u32 - 87
    }
}

/// Prefix a parsed string with already-read characters.
pub open spec fn spec_prepend(p: Seq<char>, o: Option<(Seq<char>, Seq<char>)>) -> Option<
    (Seq<char>, Seq<char>),
> {
    match o {
        Option::None => Option::None,
        Option::Some((s, r)) => Option::Some((p + s, r)),
    }
}

/// The inside of a JSON string, after the opening quote: plain
/// characters up to the closing quote, with the escapes `\" \\ \/ \n \t
/// \r \b \f` and `\u00XX`; raw control characters are refused.
pub open spec fn spec_parse_string_body(t: Seq<char>) -> Option<(Seq<char>, Seq<char>)>
    decreases t.len(),
{
    if t.len() == 0 {
        Option::None
    } else if t[0] == '"' {
        Option::Some((Seq::empty(), t.skip(1)))
    } else if t[0] == '\\' {
        if t.len() < 2 {
            Option::None
        } else if t[1] == '"' || t[1] == '\\' || t[1] == '/' {
            spec_prepend(seq![t[1]], spec_parse_string_body(t.skip(2)))
        } else if t[1] == 'n' {
            spec_prepend(seq!['\n'], spec_parse_string_body(t.skip(2)))
        } else if t[1] == 't' {
            spec_prepend(seq!['\t'], spec_parse_string_body(t.skip(2)))
        } else if t[1] == 'r' {
            spec_prepend(seq!['\r'], spec_parse_string_body(t.skip(2)))
        } else if t[1] == 'b' {
            spec_prepend(seq![8u8 as char], spec_parse_string_body(t.skip(2)))
        } else if t[1] == 'f' {
            spec_prepend(seq![12u8 as char], spec_parse_string_body(t.skip(2)))
        } else if t[1] == 'u' {
            if t.len() >= 6 && t[2] == '0' && t[3] == '0' && is_hex_digit(t[4]) && is_hex_digit(
                t[5],
            ) {
                spec_prepend(
                    seq![((hex_val(t[4]) * 16 + hex_val(t[5])) as u8) as char],
                    spec_parse_string_body(t.skip(6)),
                )
            } else {
                Option::None
            }
        } else {
            Option::None
        }
    } else if (t[0] as u32) < 32 {
        Option::None
    } else {
        spec_prepend(seq![t[0]], spec_parse_string_body(t.skip(1)))
    }
}

/// A whole JSON string, quotes included.
pub open spec fn spec_parse_string(t: Seq<char>) -> Option<(Seq<char>, Seq<char>)> {
    match spec_expect1(t, '"') {
        Option::None => Option::None,
        Option::Some(t1) => spec_parse_string_body(t1),
    }
}

// ---------------------------------------------------------------------
// item field values
// ---------------------------------------------------------------------
pub open spec fn spec_parse_priority(t: Seq<char>) -> Option<
    (crate::item::ItemPriority, Seq<char>),
> {
    match spec_parse_string(t) {
        Option::None => Option::None,
        Option::Some((s, r)) => {
            if s == "high"@ {
                Option::Some((crate::item::ItemPriority::High, r))
            } else if s == "medium"@ {
                Option::Some((crate::item::ItemPriority::Medium, r))
            } else if s == "low"@ {
                Option::Some((crate::item::ItemPriority::Low, r))
            } else {
                Option::None
            }
        },
    }
}

pub open spec fn spec_parse_opt_timestamp(t: Seq<char>) -> Option<
    (Option<Timestamp>, Seq<char>),
> {
    match spec_expect(t, "null"@) {
        Option::Some(r) => Option::Some((Option::None, r)),
        Option::None => match spec_parse_quoted_timestamp(t) {
            Option::None => Option::None,
            Option::Some((ts, r)) => Option::Some((Option::Some(ts), r)),
        },
    }
}

pub open spec fn spec_parse_opt_date(t: Seq<char>) -> Option<(Option<Date>, Seq<char>)> {
    match spec_expect(t, "null"@) {
        Option::Some(r) => Option::Some((Option::None, r)),
        Option::None => match spec_parse_quoted_date(t) {
            Option::None => Option::None,
            Option::Some((d, r)) => Option::Some((Option::Some(d), r)),
        },
    }
}

pub open spec fn spec_parse_opt_string(t: Seq<char>) -> Option<
    (Option<Seq<char>>, Seq<char>),
> {
    match spec_expect(t, "null"@) {
        Option::Some(r) => Option::Some((Option::None, r)),
        Option::None => match spec_parse_string(t) {
            Option::None => Option::None,
            Option::Some((s, r)) => Option::Some((Option::Some(s), r)),
        },
    }
}

// ---------------------------------------------------------------------
// arrays
// ---------------------------------------------------------------------
pub open spec fn spec_prepend_tag(p: Seq<char>, o: Option<(Seq<Seq<char>>, Seq<char>)>) -> Option<
    (Seq<Seq<char>>, Seq<char>),
> {
    match o {
        Option::None => Option::None,
        Option::Some((ts, r)) => Option::Some((seq![p] + ts, r)),
    }
}

/// After one array element: either the closing bracket, or a comma and
/// another string. The recursion is guarded by the remaining length; a
/// parsed element always consumes input, so the guard never refuses a
/// parse that the grammar allows.
pub open spec fn spec_parse_tags_tail(t: Seq<char>) -> Option<(Seq<Seq<char>>, Seq<char>)>
    decreases t.len(),
{
    let t0 = spec_skip_ws(t);
    match spec_expect1(t0, ']') {
        Option::Some(r) => Option::Some((Seq::empty(), r)),
        Option::None => match spec_expect1(t0, ',') {
            Option::None => Option::None,
            Option::Some(t1) => {
                let t2 = spec_skip_ws(t1);
                match spec_parse_string(t2) {
                    Option::None => Option::None,
                    Option::Some((s, t3)) => {
                        if t3.len() < t.len() {
                            spec_prepend_tag(s, spec_parse_tags_tail(t3))
                        } else {
                            Option::None
                        }
                    },
                }
            },
        },
    }
}

/// A JSON array of strings.
pub open spec fn spec_parse_tags(t: Seq<char>) -> Option<(Seq<Seq<char>>, Seq<char>)> {
    match spec_expect1(t, '[') {
        Option::None => Option::None,
        Option::Some(t1) => {
            let t2 = spec_skip_ws(t1);
            match spec_expect1(t2, ']') {
                Option::Some(r) => Option::Some((Seq::empty(), r)),
                Option::None => match spec_parse_string(t2) {
                    Option::None => Option::None,
                    Option::Some((s, t3)) => {
                        if t3.len() < t.len() {
                            spec_prepend_tag(s, spec_parse_tags_tail(t3))
                        } else {
                            Option::None
                        }
                    },
                },
            }
        },
    }
}

// ---------------------------------------------------------------------
// items and the whole document
// ---------------------------------------------------------------------
/// `"key" :` with surrounding whitespace; the caller parses the value.
pub open spec fn spec_parse_key(t: Seq<char>, key: Seq<char>) -> Option<Seq<char>> {
    match spec_expect(spec_skip_ws(t), key) {
        Option::None => Option::None,
        Option::Some(t1) => match spec_expect1(spec_skip_ws(t1), ':') {
            Option::None => Option::None,
            Option::Some(t2) => Option::Some(spec_skip_ws(t2)),
        },
    }
}

/// The comma between two fields.
pub open spec fn spec_parse_comma(t: Seq<char>) -> Option<Seq<char>> {
    spec_expect1(spec_skip_ws(t), ',')
}

/// Comma, then the next field's key.
pub open spec fn spec_parse_next_key(t: Seq<char>, key: Seq<char>) -> Option<Seq<char>> {
    match spec_parse_comma(t) {
        Option::None => Option::None,
        Option::Some(t1) => spec_parse_key(t1, key),
    }
}

/// One item object, from its opening brace, fields in schema order.
pub open spec fn spec_parse_item(t: Seq<char>) -> Option<(crate::item::ItemView, Seq<char>)> {
    match spec_expect1(t, '{') {
        Option::None => Option::None,
        Option::Some(t0) => match spec_parse_key(t0, "\"id\""@) {
            Option::None => Option::None,
            Option::Some(t1) => match spec_parse_string(t1) {
                Option::None => Option::None,
                Option::Some((id, u1)) => match spec_parse_next_key(u1, "\"text\""@) {
                    Option::None => Option::None,
                    Option::Some(t2) => match spec_parse_string(t2) {
                        Option::None => Option::None,
                        Option::Some((text, u2)) => match spec_parse_next_key(
                            u2,
                            "\"created_at\""@,
                        ) {
                            Option::None => Option::None,
                            Option::Some(t3) => match spec_parse_quoted_timestamp(t3) {
                                Option::None => Option::None,
                                Option::Some((created_at, u3)) => match spec_parse_next_key(
                                    u3,
                                    "\"done_at\""@,
                                ) {
                                    Option::None => Option::None,
                                    Option::Some(t4) => match spec_parse_opt_timestamp(t4) {
                                        Option::None => Option::None,
                                        Option::Some((done_at, u4)) => match spec_parse_next_key(
                                            u4,
                                            "\"priority\""@,
                                        ) {
                                            Option::None => Option::None,
                                            Option::Some(t5) => match spec_parse_priority(t5) {
                                                Option::None => Option::None,
                                                Option::Some((priority, u5)) => spec_parse_item_rest(
                                                    id,
                                                    text,
                                                    created_at,
                                                    done_at,
                                                    priority,
                                                    u5,
                                                ),
                                            },
                                        },
                                    },
                                },
                            },
                        },
                    },
                },
            },
        },
    }
}

/// The second half of an item object: tags, due, notes, provenance, and
/// the closing brace.
pub open spec fn spec_parse_item_rest(
    id: Seq<char>,
    text: Seq<char>,
    created_at: Timestamp,
    done_at: Option<Timestamp>,
    priority: crate::item::ItemPriority,
    u5: Seq<char>,
) -> Option<(crate::item::ItemView, Seq<char>)> {
    match spec_parse_next_key(u5, "\"tags\""@) {
        Option::None => Option::None,
        Option::Some(t6) => match spec_parse_tags(t6) {
            Option::None => Option::None,
            Option::Some((tags, u6)) => match spec_parse_next_key(u6, "\"due\""@) {
                Option::None => Option::None,
                Option::Some(t7) => match spec_parse_opt_timestamp(t7) {
                    Option::None => Option::None,
                    Option::Some((due, u7)) => match spec_parse_next_key(u7, "\"notes\""@) {
                        Option::None => Option::None,
                        Option::Some(t8) => match spec_parse_opt_string(t8) {
                            Option::None => Option::None,
                            Option::Some((notes, u8)) => match spec_parse_next_key(
                                u8,
                                "\"migrated_from\""@,
                            ) {
                                Option::None => Option::None,
                                Option::Some(t9) => match spec_parse_opt_date(t9) {
                                    Option::None => Option::None,
                                    Option::Some((migrated_from, u9)) => match spec_expect1(
                                        spec_skip_ws(u9),
                                        '}',
                                    ) {
                                        Option::None => Option::None,
                                        Option::Some(r) => Option::Some(
                                            (
                                                crate::item::ItemView {
                                                    id,
                                                    text,
                                                    created_at,
                                                    done_at,
                                                    priority,
                                                    tags,
                                                    due,
                                                    notes,
                                                    migrated_from,
                                                },
                                                r,
                                            ),
                                        ),
                                    },
                                },
                            },
                        },
                    },
                },
            },
        },
    }
}

pub open spec fn spec_prepend_item(
    p: crate::item::ItemView,
    o: Option<(Seq<crate::item::ItemView>, Seq<char>)>,
) -> Option<(Seq<crate::item::ItemView>, Seq<char>)> {
    match o {
        Option::None => Option::None,
        Option::Some((items, r)) => Option::Some((seq![p] + items, r)),
    }
}

/// After one item: the closing bracket, or a comma and another item.
/// Guarded by the remaining length, as the tags array is.
pub open spec fn spec_parse_items_tail(t: Seq<char>) -> Option<
    (Seq<crate::item::ItemView>, Seq<char>),
>
    decreases t.len(),
{
    let t0 = spec_skip_ws(t);
    match spec_expect1(t0, ']') {
        Option::Some(r) => Option::Some((Seq::empty(), r)),
        Option::None => match spec_expect1(t0, ',') {
            Option::None => Option::None,
            Option::Some(t1) => match spec_parse_item(spec_skip_ws(t1)) {
                Option::None => Option::None,
                Option::Some((i, t3)) => {
                    if t3.len() < t.len() {
                        spec_prepend_item(i, spec_parse_items_tail(t3))
                    } else {
                        Option::None
                    }
                },
            },
        },
    }
}

/// The items array.
pub open spec fn spec_parse_items(t: Seq<char>) -> Option<
    (Seq<crate::item::ItemView>, Seq<char>),
> {
    match spec_expect1(t, '[') {
        Option::None => Option::None,
        Option::Some(t1) => {
            let t2 = spec_skip_ws(t1);
            match spec_expect1(t2, ']') {
                Option::Some(r) => Option::Some((Seq::empty(), r)),
                Option::None => match spec_parse_item(t2) {
                    Option::None => Option::None,
                    Option::Some((i, t3)) => {
                        if t3.len() < t.len() {
                            spec_prepend_item(i, spec_parse_items_tail(t3))
                        } else {
                            Option::None
                        }
                    },
                },
            }
        },
    }
}

// ---------------------------------------------------------------------
// the executable parser: primitives
// ---------------------------------------------------------------------
fn p_ws(v: &Vec<char>, pos: usize) -> (r: usize)
    requires
        pos <= v@.len(),
    ensures
        pos <= r <= v@.len(),
        v@.skip(r as int) == spec_skip_ws(v@.skip(pos as int)),
{
    let n = v.len();
    let mut p = pos;
    while p < n && char_is_space(v[p])
        invariant
            pos <= p <= n == v@.len(),
            spec_skip_ws(v@.skip(p as int)) == spec_skip_ws(v@.skip(pos as int)),
        decreases n - p,
    {
        proof {
            assert(v@.skip(p as int)[0] == v@[p as int]);
            assert(v@.skip(p as int).drop_first() =~= v@.skip(p + 1));
        }
        p = p + 1;
    }
    proof {
        if p < n {
            assert(v@.skip(p as int)[0] == v@[p as int]);
        }
        assert(spec_skip_ws(v@.skip(p as int)) == v@.skip(p as int));
    }
    p
}

fn p_char(v: &Vec<char>, pos: usize, c: char) -> (r: Option<usize>)
    requires
        pos <= v@.len(),
    ensures
        r matches Some(p) ==> pos < p <= v@.len() && p == pos + 1 && spec_expect1(
            v@.skip(pos as int),
            c,
        ) == Some(v@.skip(p as int)),
        r is None ==> spec_expect1(v@.skip(pos as int), c) is None,
{
    if pos < v.len() && v[pos] == c {
        proof {
            assert(v@.skip(pos as int)[0] == v@[pos as int]);
            assert(v@.skip(pos as int).skip(1) =~= v@.skip(pos + 1));
        }
        Some(pos + 1)
    } else {
        proof {
            if pos < v@.len() {
                assert(v@.skip(pos as int)[0] == v@[pos as int]);
            }
        }
        None
    }
}

fn p_lit(v: &Vec<char>, pos: usize, lit: &str) -> (r: Option<usize>)
    requires
        pos <= v@.len(),
    ensures
        r matches Some(p) ==> pos <= p <= v@.len() && p == pos + lit@.len() && spec_expect(
            v@.skip(pos as int),
            lit@,
        ) == Some(v@.skip(p as int)),
        r is None ==> spec_expect(v@.skip(pos as int), lit@) is None,
{
    let n = lit.unicode_len();
    let vn = v.len();
    if n > vn - pos {
        return None;
    }
    let ghost t = v@.skip(pos as int);
    let mut k: usize = 0;
    while k < n
        invariant
            k <= n == lit@.len(),
            pos + n <= vn == v@.len(),
            t == v@.skip(pos as int),
            forall|j: int| 0 <= j < k ==> t[j] == lit@[j],
        decreases n - k,
    {
        if v[pos + k] != lit.get_char(k) {
            proof {
                assert(t[k as int] == v@[pos + k]);
                assert(t.take(n as int)[k as int] == t[k as int]);
            }
            return None;
        }
        proof {
            assert(t[k as int] == v@[pos + k]);
        }
        k = k + 1;
    }
    proof {
        assert(t.take(n as int) =~= lit@);
        assert(t.skip(n as int) =~= v@.skip(pos + n));
    }
    Some(pos + n)
}

/// One decimal digit's value, or 10 and up for anything else.
fn p_digit(v: &Vec<char>, pos: usize) -> (r: Option<u8>)
    requires
        pos <= v@.len(),
    ensures
        r matches Some(d) ==> pos < v@.len() && is_digit(v@[pos as int]) && d == digit_val(
            v@[pos as int],
        ) && d <= 9,
        r is None ==> pos == v@.len() || !is_digit(v@[pos as int]),
{
    if pos < v.len() {
        let u = v[pos] as u32;
        if 48 <= u && u <= 57 {
            return Some((u - 48) as u8);
        }
    }
    None
}

fn p_d2(v: &Vec<char>, pos: usize) -> (r: Option<(u8, usize)>)
    requires
        pos <= v@.len(),
    ensures
        r matches Some((d, p)) ==> pos < p <= v@.len() && p == pos + 2 && d <= 99
            && spec_parse_d2(v@.skip(pos as int)) == Some((d as int, v@.skip(p as int))),
        r is None ==> spec_parse_d2(v@.skip(pos as int)) is None,
{
    let ghost t = v@.skip(pos as int);
    proof {
        if t.len() >= 1 {
            assert(t[0] == v@[pos as int]);
        }
        if t.len() >= 2 {
            assert(t[1] == v@[pos + 1]);
        }
    }
    if v.len() - pos < 2 {
        return None;
    }
    match (p_digit(v, pos), p_digit(v, pos + 1)) {
        (Some(d0), Some(d1)) => {
            proof {
                assert(t.skip(2) =~= v@.skip(pos + 2));
            }
            Some((d0 * 10 + d1, pos + 2))
        },
        _ => None,
    }
}

fn p_d4(v: &Vec<char>, pos: usize) -> (r: Option<(u16, usize)>)
    requires
        pos <= v@.len(),
    ensures
        r matches Some((d, p)) ==> pos < p <= v@.len() && p == pos + 4 && d <= 9999
            && spec_parse_d4(v@.skip(pos as int)) == Some((d as int, v@.skip(p as int))),
        r is None ==> spec_parse_d4(v@.skip(pos as int)) is None,
{
    let ghost t = v@.skip(pos as int);
    proof {
        if t.len() >= 1 {
            assert(t[0] == v@[pos as int]);
        }
        if t.len() >= 2 {
            assert(t[1] == v@[pos + 1]);
        }
        if t.len() >= 3 {
            assert(t[2] == v@[pos + 2]);
        }
        if t.len() >= 4 {
            assert(t[3] == v@[pos + 3]);
        }
    }
    if v.len() - pos < 4 {
        return None;
    }
    let r0 = p_digit(v, pos);
    let r1 = p_digit(v, pos + 1);
    let r2 = p_digit(v, pos + 2);
    let r3 = p_digit(v, pos + 3);
    match (r0, r1, r2, r3) {
        (Some(d0), Some(d1), Some(d2), Some(d3)) => {
            proof {
                assert(t.skip(4) =~= v@.skip(pos + 4));
            }
            let y: u16 = ((d0 as u16) * 10 + d1 as u16) * 10 + d2 as u16;
            Some((y * 10 + d3 as u16, pos + 4))
        },
        _ => None,
    }
}

// ---------------------------------------------------------------------
// the executable parser: dates and times
// ---------------------------------------------------------------------
pub(crate) fn p_date_digits(v: &Vec<char>, pos: usize) -> (r: Option<(Date, usize)>)
    requires
        pos <= v@.len(),
    ensures
        r matches Some((d, p)) ==> pos < p <= v@.len() && date_valid(d) && spec_parse_date_digits(
            v@.skip(pos as int),
        ) == Some((d, v@.skip(p as int))),
        r is None ==> spec_parse_date_digits(v@.skip(pos as int)) is None,
{
    let (y, p1) = match p_d4(v, pos) {
        None => {
            return None;
        },
        Some(x) => x,
    };
    let p2 = match p_char(v, p1, '-') {
        None => {
            return None;
        },
        Some(x) => x,
    };
    let (m, p3) = match p_d2(v, p2) {
        None => {
            return None;
        },
        Some(x) => x,
    };
    let p4 = match p_char(v, p3, '-') {
        None => {
            return None;
        },
        Some(x) => x,
    };
    let (d, p5) = match p_d2(v, p4) {
        None => {
            return None;
        },
        Some(x) => x,
    };
    let date = Date { year: y, month: m, day: d };
    if date.is_valid() {
        Some((date, p5))
    } else {
        None
    }
}

fn p_quoted_date(v: &Vec<char>, pos: usize) -> (r: Option<(Date, usize)>)
    requires
        pos <= v@.len(),
    ensures
        r matches Some((d, p)) ==> pos < p <= v@.len() && date_valid(d) && spec_parse_quoted_date(
            v@.skip(pos as int),
        ) == Some((d, v@.skip(p as int))),
        r is None ==> spec_parse_quoted_date(v@.skip(pos as int)) is None,
{
    let p1 = match p_char(v, pos, '"') {
        None => {
            return None;
        },
        Some(x) => x,
    };
    let (d, p2) = match p_date_digits(v, p1) {
        None => {
            return None;
        },
        Some(x) => x,
    };
    match p_char(v, p2, '"') {
        None => None,
        Some(p3) => Some((d, p3)),
    }
}

fn p_time_digits(v: &Vec<char>, pos: usize) -> (r: Option<((u8, u8, u8), usize)>)
    requires
        pos <= v@.len(),
    ensures
        r matches Some(((h, mi, se), p)) ==> pos < p <= v@.len() && h <= 23 && mi <= 59 && se <= 59
            && spec_parse_time_digits(v@.skip(pos as int)) == Some(
            ((h as int, mi as int, se as int), v@.skip(p as int)),
        ),
        r is None ==> spec_parse_time_digits(v@.skip(pos as int)) is None,
{
    let (h, p1) = match p_d2(v, pos) {
        None => {
            return None;
        },
        Some(x) => x,
    };
    let p2 = match p_char(v, p1, ':') {
        None => {
            return None;
        },
        Some(x) => x,
    };
    let (mi, p3) = match p_d2(v, p2) {
        None => {
            return None;
        },
        Some(x) => x,
    };
    let p4 = match p_char(v, p3, ':') {
        None => {
            return None;
        },
        Some(x) => x,
    };
    let (se, p5) = match p_d2(v, p4) {
        None => {
            return None;
        },
        Some(x) => x,
    };
    if h <= 23 && mi <= 59 && se <= 59 {
        Some(((h, mi, se), p5))
    } else {
        None
    }
}

/// Consumes an optional `.` plus digits after the seconds.
fn p_fraction(v: &Vec<char>, pos: usize) -> (r: Option<usize>)
    requires
        pos <= v@.len(),
    ensures
        r matches Some(p) ==> pos <= p <= v@.len() && spec_skip_fraction(v@.skip(pos as int))
            == Some(v@.skip(p as int)),
        r is None ==> spec_skip_fraction(v@.skip(pos as int)) is None,
{
    let n = v.len();
    let ghost t = v@.skip(pos as int);
    proof {
        if t.len() > 0 {
            assert(t[0] == v@[pos as int]);
        }
    }
    if pos >= n || v[pos] != '.' {
        return Some(pos);
    }
    let mut q = pos + 1;
    proof {
        assert(t.skip(1) =~= v@.skip(pos + 1));
    }
    while q < n && p_digit(v, q).is_some()
        invariant
            pos + 1 <= q <= n == v@.len(),
            spec_skip_digits(v@.skip(q as int)) == spec_skip_digits(v@.skip(pos + 1)),
        decreases n - q,
    {
        proof {
            assert(v@.skip(q as int)[0] == v@[q as int]);
            assert(v@.skip(q as int).drop_first() =~= v@.skip(q + 1));
        }
        q = q + 1;
    }
    proof {
        if q < n {
            assert(v@.skip(q as int)[0] == v@[q as int]);
        }
        assert(spec_skip_digits(v@.skip(q as int)) == v@.skip(q as int));
    }
    if q == pos + 1 {
        // a dot with no digits after it is not a fraction
        proof {
            assert(v@.skip(q as int).len() == t.len() - 1);
        }
        None
    } else {
        proof {
            assert(v@.skip(q as int).len() < t.len() - 1);
        }
        Some(q)
    }
}

fn p_quoted_timestamp(v: &Vec<char>, pos: usize) -> (r: Option<(Timestamp, usize)>)
    requires
        pos <= v@.len(),
    ensures
        r matches Some((ts, p)) ==> pos < p <= v@.len() && timestamp_valid(ts)
            && spec_parse_quoted_timestamp(v@.skip(pos as int)) == Some((ts, v@.skip(p as int))),
        r is None ==> spec_parse_quoted_timestamp(v@.skip(pos as int)) is None,
{
    let p1 = match p_char(v, pos, '"') {
        None => {
            return None;
        },
        Some(x) => x,
    };
    let (d, p2) = match p_date_digits(v, p1) {
        None => {
            return None;
        },
        Some(x) => x,
    };
    let p3 = match p_char(v, p2, 'T') {
        None => {
            return None;
        },
        Some(x) => x,
    };
    let ((h, mi, se), p4) = match p_time_digits(v, p3) {
        None => {
            return None;
        },
        Some(x) => x,
    };
    let p4b = match p_fraction(v, p4) {
        None => {
            return None;
        },
        Some(x) => x,
    };
    let p5 = match p_char(v, p4b, 'Z') {
        None => {
            return None;
        },
        Some(x) => x,
    };
    match p_char(v, p5, '"') {
        None => None,
        Some(p6) => Some((Timestamp { date: d, hour: h, minute: mi, second: se }, p6)),
    }
}

// ---------------------------------------------------------------------
// the executable parser: strings and field values
// ---------------------------------------------------------------------
fn p_string_body(v: &Vec<char>, pos: usize) -> (r: Option<(String, usize)>)
    requires
        pos <= v@.len(),
    ensures
        r matches Some((s, p)) ==> pos < p <= v@.len() && spec_parse_string_body(
            v@.skip(pos as int),
        ) == Some((s@, v@.skip(p as int))),
        r is None ==> spec_parse_string_body(v@.skip(pos as int)) is None,
{
    let n = v.len();
    let mut acc = String::new();
    let mut p = pos;
    proof {
        assert(acc@ =~= Seq::<char>::empty());
    }
    loop
        invariant_except_break
            spec_parse_string_body(v@.skip(pos as int)) == spec_prepend(
                acc@,
                spec_parse_string_body(v@.skip(p as int)),
            ),
        invariant
            pos <= p <= n == v@.len(),
        ensures
            pos < p <= v@.len(),
            spec_parse_string_body(v@.skip(pos as int)) == Some((acc@, v@.skip(p as int))),
        decreases n - p,
    {
        let ghost t = v@.skip(p as int);
        proof {
            if t.len() > 0 {
                assert(t[0] == v@[p as int]);
            }
            if t.len() > 1 {
                assert(t[1] == v@[p + 1]);
            }
        }
        if p >= n {
            return None;
        }
        let c = v[p];
        if c == '"' {
            proof {
                assert(t.skip(1) =~= v@.skip(p + 1));
                assert(acc@ + Seq::<char>::empty() =~= acc@);
            }
            p = p + 1;
            break ;
        } else if c == '\\' {
            if p + 1 >= n {
                return None;
            }
            let c2 = v[p + 1];
            proof {
                if t.len() >= 3 {
                    assert(t[2] == v@[p + 2]);
                }
                if t.len() >= 4 {
                    assert(t[3] == v@[p + 3]);
                }
                if t.len() >= 5 {
                    assert(t[4] == v@[p + 4]);
                }
                if t.len() >= 6 {
                    assert(t[5] == v@[p + 5]);
                }
            }
            let (decoded, consumed): (char, usize) = if c2 == '"' || c2 == '\\' || c2 == '/' {
                (c2, 2)
            } else if c2 == 'n' {
                ('\n', 2)
            } else if c2 == 't' {
                ('\t', 2)
            } else if c2 == 'r' {
                ('\r', 2)
            } else if c2 == 'b' {
                (8u8 as char, 2)
            } else if c2 == 'f' {
                (12u8 as char, 2)
            } else if c2 == 'u' {
                if n - p >= 6 && v[p + 2] == '0' && v[p + 3] == '0' {
                    let h1 = match p_hex_digit(v, p + 4) {
                        None => {
                            return None;
                        },
                        Some(x) => x,
                    };
                    let h2 = match p_hex_digit(v, p + 5) {
                        None => {
                            return None;
                        },
                        Some(x) => x,
                    };
                    ((h1 * 16 + h2) as char, 6)
                } else {
                    return None;
                }
            } else {
                return None;
            };
            proof {
                assert(t.skip(consumed as int) =~= v@.skip(p + consumed));
                assert(spec_parse_string_body(t) == spec_prepend(
                    seq![decoded],
                    spec_parse_string_body(v@.skip(p + consumed)),
                ));
                lemma_prepend_prepend(
                    acc@,
                    decoded,
                    spec_parse_string_body(v@.skip(p + consumed)),
                );
            }
            push_char(&mut acc, decoded);
            p = p + consumed;
        } else {
            let u = c as u32;
            if u < 32 {
                return None;
            }
            proof {
                assert(t.skip(1) =~= v@.skip(p + 1));
                assert(spec_parse_string_body(t) == spec_prepend(
                    seq![c],
                    spec_parse_string_body(v@.skip(p + 1)),
                ));
                lemma_prepend_prepend(acc@, c, spec_parse_string_body(v@.skip(p + 1)));
            }
            push_char(&mut acc, c);
            p = p + 1;
        }
    }
    Some((acc, p))
}

/// Prepending one character at a time agrees with prepending the grown
/// prefix.
proof fn lemma_prepend_prepend(a: Seq<char>, c: char, o: Option<(Seq<char>, Seq<char>)>)
    ensures
        spec_prepend(a, spec_prepend(seq![c], o)) == spec_prepend(a.push(c), o),
{
    match o {
        Option::None => {},
        Option::Some((s, r)) => {
            assert(a + (seq![c] + s) =~= a.push(c) + s);
        },
    }
}

fn p_hex_digit(v: &Vec<char>, pos: usize) -> (r: Option<u8>)
    requires
        pos <= v@.len(),
    ensures
        r matches Some(d) ==> pos < v@.len() && is_hex_digit(v@[pos as int]) && d == hex_val(
            v@[pos as int],
        ) && d <= 15,
        r is None ==> pos == v@.len() || !is_hex_digit(v@[pos as int]),
{
    if pos < v.len() {
        let u = v[pos] as u32;
        if 48 <= u && u <= 57 {
            return Some((u - 48) as u8);
        }
        if 97 <= u && u <= 102 {
            return Some((u - 87) as u8);
        }
    }
    None
}

fn p_string(v: &Vec<char>, pos: usize) -> (r: Option<(String, usize)>)
    requires
        pos <= v@.len(),
    ensures
        r matches Some((s, p)) ==> pos < p <= v@.len() && spec_parse_string(v@.skip(pos as int))
            == Some((s@, v@.skip(p as int))),
        r is None ==> spec_parse_string(v@.skip(pos as int)) is None,
{
    match p_char(v, pos, '"') {
        None => None,
        Some(p1) => p_string_body(v, p1),
    }
}

fn p_priority(v: &Vec<char>, pos: usize) -> (r: Option<(crate::item::ItemPriority, usize)>)
    requires
        pos <= v@.len(),
    ensures
        r matches Some((pr, p)) ==> pos < p <= v@.len() && spec_parse_priority(
            v@.skip(pos as int),
        ) == Some((pr, v@.skip(p as int))),
        r is None ==> spec_parse_priority(v@.skip(pos as int)) is None,
{
    let (s, p1) = match p_string(v, pos) {
        None => {
            return None;
        },
        Some(x) => x,
    };
    if crate::strings::string_eq_lit(&s, "high") {
        Some((crate::item::ItemPriority::High, p1))
    } else if crate::strings::string_eq_lit(&s, "medium") {
        Some((crate::item::ItemPriority::Medium, p1))
    } else if crate::strings::string_eq_lit(&s, "low") {
        Some((crate::item::ItemPriority::Low, p1))
    } else {
        None
    }
}

fn p_opt_timestamp(v: &Vec<char>, pos: usize) -> (r: Option<(Option<Timestamp>, usize)>)
    requires
        pos <= v@.len(),
    ensures
        r matches Some((o, p)) ==> pos < p <= v@.len() && (o matches Some(ts) ==> timestamp_valid(
            ts,
        )) && spec_parse_opt_timestamp(v@.skip(pos as int)) == Some((o, v@.skip(p as int))),
        r is None ==> spec_parse_opt_timestamp(v@.skip(pos as int)) is None,
{
    match p_lit(v, pos, "null") {
        Some(p1) => {
            proof {
                reveal_strlit("null");
            }
            Some((None, p1))
        },
        None => match p_quoted_timestamp(v, pos) {
            None => None,
            Some((ts, p1)) => Some((Some(ts), p1)),
        },
    }
}

fn p_opt_date(v: &Vec<char>, pos: usize) -> (r: Option<(Option<Date>, usize)>)
    requires
        pos <= v@.len(),
    ensures
        r matches Some((o, p)) ==> pos < p <= v@.len() && (o matches Some(d) ==> date_valid(d))
            && spec_parse_opt_date(v@.skip(pos as int)) == Some((o, v@.skip(p as int))),
        r is None ==> spec_parse_opt_date(v@.skip(pos as int)) is None,
{
    match p_lit(v, pos, "null") {
        Some(p1) => {
            proof {
                reveal_strlit("null");
            }
            Some((None, p1))
        },
        None => match p_quoted_date(v, pos) {
            None => None,
            Some((d, p1)) => Some((Some(d), p1)),
        },
    }
}

fn p_opt_string(v: &Vec<char>, pos: usize) -> (r: Option<(Option<String>, usize)>)
    requires
        pos <= v@.len(),
    ensures
        r matches Some((o, p)) ==> pos < p <= v@.len() && spec_parse_opt_string(
            v@.skip(pos as int),
        ) == Some((o.deep_view(), v@.skip(p as int))),
        r is None ==> spec_parse_opt_string(v@.skip(pos as int)) is None,
{
    match p_lit(v, pos, "null") {
        Some(p1) => {
            proof {
                reveal_strlit("null");
            }
            Some((None, p1))
        },
        None => match p_string(v, pos) {
            None => None,
            Some((s, p1)) => Some((Some(s), p1)),
        },
    }
}

// ---------------------------------------------------------------------
// the executable parser: keys, arrays, items
// ---------------------------------------------------------------------
fn p_key(v: &Vec<char>, pos: usize, key: &str) -> (r: Option<usize>)
    requires
        pos <= v@.len(),
    ensures
        r matches Some(p) ==> pos < p <= v@.len() && spec_parse_key(v@.skip(pos as int), key@)
            == Some(v@.skip(p as int)),
        r is None ==> spec_parse_key(v@.skip(pos as int), key@) is None,
{
    let p0 = p_ws(v, pos);
    let p1 = match p_lit(v, p0, key) {
        None => {
            return None;
        },
        Some(x) => x,
    };
    let p2 = p_ws(v, p1);
    let p3 = match p_char(v, p2, ':') {
        None => {
            return None;
        },
        Some(x) => x,
    };
    Some(p_ws(v, p3))
}

fn p_next_key(v: &Vec<char>, pos: usize, key: &str) -> (r: Option<usize>)
    requires
        pos <= v@.len(),
    ensures
        r matches Some(p) ==> pos < p <= v@.len() && spec_parse_next_key(
            v@.skip(pos as int),
            key@,
        ) == Some(v@.skip(p as int)),
        r is None ==> spec_parse_next_key(v@.skip(pos as int), key@) is None,
{
    let p0 = p_ws(v, pos);
    let p1 = match p_char(v, p0, ',') {
        None => {
            return None;
        },
        Some(x) => x,
    };
    p_key(v, p1, key)
}

/// Prefix a parsed tag list with already-read tags.
pub open spec fn spec_prepend_tags_list(
    pre: Seq<Seq<char>>,
    o: Option<(Seq<Seq<char>>, Seq<char>)>,
) -> Option<(Seq<Seq<char>>, Seq<char>)> {
    match o {
        Option::None => Option::None,
        Option::Some((ts, r)) => Option::Some((pre + ts, r)),
    }
}

proof fn lemma_prepend_tags_grow(
    pre: Seq<Seq<char>>,
    x: Seq<char>,
    o: Option<(Seq<Seq<char>>, Seq<char>)>,
)
    ensures
        spec_prepend_tags_list(pre, spec_prepend_tag(x, o)) == spec_prepend_tags_list(
            pre.push(x),
            o,
        ),
{
    match o {
        Option::None => {},
        Option::Some((ts, r)) => {
            assert(pre + (seq![x] + ts) =~= pre.push(x) + ts);
        },
    }
}

fn p_tags(v: &Vec<char>, pos: usize) -> (r: Option<(Vec<String>, usize)>)
    requires
        pos <= v@.len(),
    ensures
        r matches Some((ts, p)) ==> pos < p <= v@.len() && spec_parse_tags(v@.skip(pos as int))
            == Some((ts.deep_view(), v@.skip(p as int))),
        r is None ==> spec_parse_tags(v@.skip(pos as int)) is None,
{
    let n = v.len();
    let p1 = match p_char(v, pos, '[') {
        None => {
            return None;
        },
        Some(x) => x,
    };
    let p2 = p_ws(v, p1);
    match p_char(v, p2, ']') {
        Some(rr) => {
            let ts: Vec<String> = Vec::new();
            proof {
                assert(ts.deep_view() =~= Seq::<Seq<char>>::empty());
            }
            return Some((ts, rr));
        },
        None => {},
    }
    let (s0, p3) = match p_string(v, p2) {
        None => {
            return None;
        },
        Some(x) => x,
    };
    let mut acc: Vec<String> = Vec::new();
    acc.push(s0);
    let mut p = p3;
    proof {
        assert(acc.deep_view() =~= seq![s0@]);
        lemma_prepend_tags_grow(
            Seq::empty(),
            s0@,
            spec_parse_tags_tail(v@.skip(p3 as int)),
        );
        assert(Seq::<Seq<char>>::empty().push(s0@) =~= acc.deep_view());
        assert(spec_prepend_tags_list(Seq::empty(), spec_prepend_tag(
            s0@,
            spec_parse_tags_tail(v@.skip(p3 as int)),
        )) == spec_prepend_tag(s0@, spec_parse_tags_tail(v@.skip(p3 as int)))) by {
            match spec_prepend_tag(s0@, spec_parse_tags_tail(v@.skip(p3 as int))) {
                Option::None => {},
                Option::Some((ts, r)) => {
                    assert(Seq::<Seq<char>>::empty() + ts =~= ts);
                },
            }
        }
    }
    loop
        invariant
            pos < p <= n == v@.len(),
            spec_parse_tags(v@.skip(pos as int)) == spec_prepend_tags_list(
                acc.deep_view(),
                spec_parse_tags_tail(v@.skip(p as int)),
            ),
        decreases n - p,
    {
        let q0 = p_ws(v, p);
        match p_char(v, q0, ']') {
            Some(rr) => {
                proof {
                    assert(acc.deep_view() + Seq::<Seq<char>>::empty() =~= acc.deep_view());
                }
                return Some((acc, rr));
            },
            None => {},
        }
        let q1 = match p_char(v, q0, ',') {
            None => {
                return None;
            },
            Some(x) => x,
        };
        let q2 = p_ws(v, q1);
        let (sk, q3) = match p_string(v, q2) {
            None => {
                return None;
            },
            Some(x) => x,
        };
        proof {
            lemma_prepend_tags_grow(
                acc.deep_view(),
                sk@,
                spec_parse_tags_tail(v@.skip(q3 as int)),
            );
        }
        let ghost pre = acc.deep_view();
        acc.push(sk);
        proof {
            assert(acc.deep_view() =~= pre.push(sk@));
        }
        p = q3;
    }
}

/// Prefix a parsed item list with already-read items.
pub open spec fn spec_prepend_items_list(
    pre: Seq<crate::item::ItemView>,
    o: Option<(Seq<crate::item::ItemView>, Seq<char>)>,
) -> Option<(Seq<crate::item::ItemView>, Seq<char>)> {
    match o {
        Option::None => Option::None,
        Option::Some((items, r)) => Option::Some((pre + items, r)),
    }
}

proof fn lemma_prepend_items_grow(
    pre: Seq<crate::item::ItemView>,
    x: crate::item::ItemView,
    o: Option<(Seq<crate::item::ItemView>, Seq<char>)>,
)
    ensures
        spec_prepend_items_list(pre, spec_prepend_item(x, o)) == spec_prepend_items_list(
            pre.push(x),
            o,
        ),
{
    match o {
        Option::None => {},
        Option::Some((items, r)) => {
            assert(pre + (seq![x] + items) =~= pre.push(x) + items);
        },
    }
}

/// The second half of an item object, from the comma before `"tags"`.
fn p_item_rest(
    v: &Vec<char>,
    id: String,
    text: String,
    created_at: Timestamp,
    done_at: Option<Timestamp>,
    priority: crate::item::ItemPriority,
    pos: usize,
) -> (r: Option<(crate::item::Item, usize)>)
    requires
        pos <= v@.len(),
        timestamp_valid(created_at),
        done_at matches Some(ts) ==> timestamp_valid(ts),
    ensures
        r matches Some((it, p)) ==> pos < p <= v@.len() && crate::item::item_valid(it@)
            && spec_parse_item_rest(
            id@,
            text@,
            created_at,
            done_at,
            priority,
            v@.skip(pos as int),
        ) == Some((it@, v@.skip(p as int))),
        r is None ==> spec_parse_item_rest(
            id@,
            text@,
            created_at,
            done_at,
            priority,
            v@.skip(pos as int),
        ) is None,
{
    let t6 = match p_next_key(v, pos, "\"tags\"") {
        None => {
            return None;
        },
        Some(x) => x,
    };
    let (tags, u6) = match p_tags(v, t6) {
        None => {
            return None;
        },
        Some(x) => x,
    };
    let t7 = match p_next_key(v, u6, "\"due\"") {
        None => {
            return None;
        },
        Some(x) => x,
    };
    let (due, u7) = match p_opt_timestamp(v, t7) {
        None => {
            return None;
        },
        Some(x) => x,
    };
    let t8 = match p_next_key(v, u7, "\"notes\"") {
        None => {
            return None;
        },
        Some(x) => x,
    };
    let (notes, u8) = match p_opt_string(v, t8) {
        None => {
            return None;
        },
        Some(x) => x,
    };
    let t9 = match p_next_key(v, u8, "\"migrated_from\"") {
        None => {
            return None;
        },
        Some(x) => x,
    };
    let (migrated_from, u9) = match p_opt_date(v, t9) {
        None => {
            return None;
        },
        Some(x) => x,
    };
    let w = p_ws(v, u9);
    let rr = match p_char(v, w, '}') {
        None => {
            return None;
        },
        Some(x) => x,
    };
    let it = crate::item::Item {
        id,
        text,
        created_at,
        done_at,
        priority,
        tags,
        due,
        notes,
        migrated_from,
    };
    Some((it, rr))
}

fn p_item(v: &Vec<char>, pos: usize) -> (r: Option<(crate::item::Item, usize)>)
    requires
        pos <= v@.len(),
    ensures
        r matches Some((it, p)) ==> pos < p <= v@.len() && crate::item::item_valid(it@)
            && spec_parse_item(v@.skip(pos as int)) == Some((it@, v@.skip(p as int))),
        r is None ==> spec_parse_item(v@.skip(pos as int)) is None,
{
    let t0 = match p_char(v, pos, '{') {
        None => {
            return None;
        },
        Some(x) => x,
    };
    let t1 = match p_key(v, t0, "\"id\"") {
        None => {
            return None;
        },
        Some(x) => x,
    };
    let (id, u1) = match p_string(v, t1) {
        None => {
            return None;
        },
        Some(x) => x,
    };
    let t2 = match p_next_key(v, u1, "\"text\"") {
        None => {
            return None;
        },
        Some(x) => x,
    };
    let (text, u2) = match p_string(v, t2) {
        None => {
            return None;
        },
        Some(x) => x,
    };
    let t3 = match p_next_key(v, u2, "\"created_at\"") {
        None => {
            return None;
        },
        Some(x) => x,
    };
    let (created_at, u3) = match p_quoted_timestamp(v, t3) {
        None => {
            return None;
        },
        Some(x) => x,
    };
    let t4 = match p_next_key(v, u3, "\"done_at\"") {
        None => {
            return None;
        },
        Some(x) => x,
    };
    let (done_at, u4) = match p_opt_timestamp(v, t4) {
        None => {
            return None;
        },
        Some(x) => x,
    };
    let t5 = match p_next_key(v, u4, "\"priority\"") {
        None => {
            return None;
        },
        Some(x) => x,
    };
    let (priority, u5) = match p_priority(v, t5) {
        None => {
            return None;
        },
        Some(x) => x,
    };
    p_item_rest(v, id, text, created_at, done_at, priority, u5)
}

fn p_items(v: &Vec<char>, pos: usize) -> (r: Option<(Vec<crate::item::Item>, usize)>)
    requires
        pos <= v@.len(),
    ensures
        r matches Some((items, p)) ==> pos < p <= v@.len() && spec_parse_items(
            v@.skip(pos as int),
        ) == Some((items.deep_view(), v@.skip(p as int))) && (forall|k: int|
            0 <= k < items.deep_view().len() ==> crate::item::item_valid(
                #[trigger] items.deep_view()[k],
            )),
        r is None ==> spec_parse_items(v@.skip(pos as int)) is None,
{
    let n = v.len();
    let p1 = match p_char(v, pos, '[') {
        None => {
            return None;
        },
        Some(x) => x,
    };
    let p2 = p_ws(v, p1);
    match p_char(v, p2, ']') {
        Some(rr) => {
            let items: Vec<crate::item::Item> = Vec::new();
            proof {
                assert(items.deep_view() =~= Seq::<crate::item::ItemView>::empty());
            }
            return Some((items, rr));
        },
        None => {},
    }
    let (i0, p3) = match p_item(v, p2) {
        None => {
            return None;
        },
        Some(x) => x,
    };
    let mut acc: Vec<crate::item::Item> = Vec::new();
    acc.push(i0);
    let mut p = p3;
    proof {
        assert(acc.deep_view() =~= seq![i0@]);
        lemma_prepend_items_grow(
            Seq::empty(),
            i0@,
            spec_parse_items_tail(v@.skip(p3 as int)),
        );
        assert(Seq::<crate::item::ItemView>::empty().push(i0@) =~= acc.deep_view());
        assert(spec_prepend_items_list(Seq::empty(), spec_prepend_item(
            i0@,
            spec_parse_items_tail(v@.skip(p3 as int)),
        )) == spec_prepend_item(i0@, spec_parse_items_tail(v@.skip(p3 as int)))) by {
            match spec_prepend_item(i0@, spec_parse_items_tail(v@.skip(p3 as int))) {
                Option::None => {},
                Option::Some((items, r)) => {
                    assert(Seq::<crate::item::ItemView>::empty() + items =~= items);
                },
            }
        }
    }
    loop
        invariant
            pos < p <= n == v@.len(),
            spec_parse_items(v@.skip(pos as int)) == spec_prepend_items_list(
                acc.deep_view(),
                spec_parse_items_tail(v@.skip(p as int)),
            ),
            forall|k: int|
                0 <= k < acc.deep_view().len() ==> crate::item::item_valid(
                    #[trigger] acc.deep_view()[k],
                ),
        decreases n - p,
    {
        let q0 = p_ws(v, p);
        match p_char(v, q0, ']') {
            Some(rr) => {
                proof {
                    assert(acc.deep_view() + Seq::<crate::item::ItemView>::empty()
                        =~= acc.deep_view());
                }
                return Some((acc, rr));
            },
            None => {},
        }
        let q1 = match p_char(v, q0, ',') {
            None => {
                return None;
            },
            Some(x) => x,
        };
        let q2 = p_ws(v, q1);
        let (ik, q3) = match p_item(v, q2) {
            None => {
                return None;
            },
            Some(x) => x,
        };
        proof {
            lemma_prepend_items_grow(
                acc.deep_view(),
                ik@,
                spec_parse_items_tail(v@.skip(q3 as int)),
            );
        }
        let ghost pre = acc.deep_view();
        acc.push(ik);
        proof {
            assert(acc.deep_view() =~= pre.push(ik@));
        }
        p = q3;
    }
}

/// A whole day-file document: one object with `date` and `items`, and
/// nothing but whitespace after it.
pub open spec fn spec_parse_dayfile(t: Seq<char>) -> Option<crate::dayfile::DayFileView> {
    match spec_expect1(spec_skip_ws(t), '{') {
        Option::None => Option::None,
        Option::Some(t0) => match spec_parse_key(t0, "\"date\""@) {
            Option::None => Option::None,
            Option::Some(t1) => match spec_parse_quoted_date(t1) {
                Option::None => Option::None,
                Option::Some((date, u1)) => match spec_parse_next_key(u1, "\"items\""@) {
                    Option::None => Option::None,
                    Option::Some(t2) => match spec_parse_items(t2) {
                        Option::None => Option::None,
                        Option::Some((items, u2)) => match spec_expect1(spec_skip_ws(u2), '}') {
                            Option::None => Option::None,
                            Option::Some(r) => {
                                if spec_skip_ws(r).len() == 0 {
                                    Option::Some(crate::dayfile::DayFileView { date, items })
                                } else {
                                    Option::None
                                }
                            },
                        },
                    },
                },
            },
        },
    }
}

/// Where and why a day-file text was refused: the character position
/// of the construct that failed, and what the reader was looking for
/// there. Diagnostic only; the grammar itself is
/// [`spec_parse_dayfile`].
#[derive(Debug, Clone, PartialEq, Eq)]
pub struct ParseFault {
    pub offset: usize,
    pub expected: String,
}

fn fault(offset: usize, expected: &str) -> (r: ParseFault)
    ensures
        r.offset == offset,
{
    ParseFault { offset, expected: String::from_str(expected) }
}

/// Reads a day-file document. An error means the text is not in the
/// schema, and says where reading stopped; a value handed back is
/// always a well-formed day-file, exactly the one
/// [`spec_parse_dayfile`] assigns to the text.
pub fn parse_dayfile(text: &str) -> (r: Result<crate::dayfile::DayFile, ParseFault>)
    ensures
        r matches Ok(df) ==> spec_parse_dayfile(text@) == Some(df@)
            && crate::dayfile::dayfile_valid(df@),
        r is Err <==> spec_parse_dayfile(text@) is None,
{
    let v = str_chars(text);
    proof {
        assert(v@.skip(0) =~= text@);
    }
    let p0 = p_ws(&v, 0);
    let t0 = match p_char(&v, p0, '{') {
        None => {
            return Err(fault(p0, "an object opening brace"));
        },
        Some(x) => x,
    };
    let t1 = match p_key(&v, t0, "\"date\"") {
        None => {
            return Err(fault(t0, "the \"date\" field"));
        },
        Some(x) => x,
    };
    let (date, u1) = match p_quoted_date(&v, t1) {
        None => {
            return Err(fault(t1, "a calendar date \"YYYY-MM-DD\""));
        },
        Some(x) => x,
    };
    let t2 = match p_next_key(&v, u1, "\"items\"") {
        None => {
            return Err(fault(u1, "a comma and the \"items\" field"));
        },
        Some(x) => x,
    };
    let (items, u2) = match p_items(&v, t2) {
        None => {
            return Err(fault(t2, "a well-formed array of items"));
        },
        Some(x) => x,
    };
    let w = p_ws(&v, u2);
    let rr = match p_char(&v, w, '}') {
        None => {
            return Err(fault(w, "the closing brace"));
        },
        Some(x) => x,
    };
    let e = p_ws(&v, rr);
    if e == v.len() {
        let df = crate::dayfile::DayFile { date, items };
        proof {
            assert(v@.skip(e as int).len() == 0);
        }
        Ok(df)
    } else {
        proof {
            assert(v@.skip(e as int).len() > 0);
        }
        Err(fault(e, "the end of the file"))
    }
}

} // verus!
