//! The on-disk textual form of a day-file: a pretty-printed JSON
//! document with two-space indentation and a trailing newline. This
//! module owns the schema: the serializer defines the canonical text,
//! the parser in [`crate::parse`] reads it back, and
//! [`crate::laws`] proves the round trip.

use vstd::prelude::*;
use vstd::string::StringExecFns;

use crate::date::{Date, Timestamp, date_valid, timestamp_valid};
use crate::dayfile::{DayFile, DayFileView, dayfile_valid};
use crate::item::{Item, ItemPriority, ItemView, item_valid};
use crate::sys::push_char;

verus! {

// ---------------------------------------------------------------------
// fixed-width decimal digits
// ---------------------------------------------------------------------
pub open spec fn spec_digit(n: int) -> char {
    ((48 + n) as u8) as char
}

/// Lower-case hexadecimal digit for `0 <= n < 16`.
pub open spec fn spec_hex(n: int) -> char {
    if n < 10 {
        spec_digit(n)
    } else {
        ((87 + n) as u8) as char
    }
}

pub open spec fn spec_d2(n: int) -> Seq<char> {
    seq![spec_digit(n / 10), spec_digit(n % 10)]
}

pub open spec fn spec_d4(n: int) -> Seq<char> {
    seq![
        spec_digit(n / 1000 % 10),
        spec_digit(n / 100 % 10),
        spec_digit(n / 10 % 10),
        spec_digit(n % 10),
    ]
}

// ---------------------------------------------------------------------
// dates and timestamps as text
// ---------------------------------------------------------------------
/// `YYYY-MM-DD`.
pub open spec fn spec_date_chars(d: Date) -> Seq<char> {
    spec_d4(d.year as int) + seq!['-'] + spec_d2(d.month as int) + seq!['-'] + spec_d2(d.day as int)
}

/// `YYYY-MM-DDTHH:MM:SSZ`.
pub open spec fn spec_timestamp_chars(t: Timestamp) -> Seq<char> {
    spec_date_chars(t.date) + seq!['T'] + spec_d2(t.hour as int) + seq![':'] + spec_d2(
        t.minute as int,
    ) + seq![':'] + spec_d2(t.second as int) + seq!['Z']
}

// ---------------------------------------------------------------------
// JSON strings
// ---------------------------------------------------------------------
/// The canonical escape of one character: quote and backslash get a
/// backslash, control characters become `\u00XX`, everything else
/// stands for itself.
pub open spec fn spec_escape_char(c: char) -> Seq<char> {
    if c == '"' {
        seq!['\\', '"']
    } else if c == '\\' {
        seq!['\\', '\\']
    } else if (c as u32) < 32 {
        seq!['\\', 'u', '0', '0', spec_hex(c as u32 as int / 16), spec_hex(c as u32 as int % 16)]
    } else {
        seq![c]
    }
}

pub open spec fn spec_escape(s: Seq<char>) -> Seq<char>
    decreases s.len(),
{
    if s.len() == 0 {
        Seq::empty()
    } else {
        spec_escape_char(s[0]) + spec_escape(s.drop_first())
    }
}

/// A quoted, escaped JSON string.
pub open spec fn spec_json_string(s: Seq<char>) -> Seq<char> {
    seq!['"'] + spec_escape(s) + seq!['"']
}

// ---------------------------------------------------------------------
// layout pieces
// ---------------------------------------------------------------------
pub open spec fn spec_spaces(n: int) -> Seq<char>
    decreases n,
{
    if n <= 0 {
        Seq::empty()
    } else {
        spec_spaces(n - 1).push(' ')
    }
}

/// Newline followed by `n` spaces of indentation.
pub open spec fn nl_ind(n: int) -> Seq<char> {
    seq!['\n'] + spec_spaces(n)
}

pub open spec fn colon_sp() -> Seq<char> {
    seq![':', ' ']
}

/// One `"key": value` line at indentation `ind`.
pub open spec fn spec_field(key: Seq<char>, val: Seq<char>, ind: int) -> Seq<char> {
    nl_ind(ind) + key + colon_sp() + val
}

// ---------------------------------------------------------------------
// item fields
// ---------------------------------------------------------------------
pub open spec fn spec_pri_chars(p: ItemPriority) -> Seq<char> {
    match p {
        ItemPriority::High => "high"@,
        ItemPriority::Medium => "medium"@,
        ItemPriority::Low => "low"@,
    }
}

pub open spec fn spec_opt_timestamp_chars(o: Option<Timestamp>) -> Seq<char> {
    match o {
        Option::None => "null"@,
        Option::Some(t) => seq!['"'] + spec_timestamp_chars(t) + seq!['"'],
    }
}

pub open spec fn spec_opt_date_chars(o: Option<Date>) -> Seq<char> {
    match o {
        Option::None => "null"@,
        Option::Some(d) => seq!['"'] + spec_date_chars(d) + seq!['"'],
    }
}

pub open spec fn spec_opt_string_chars(o: Option<Seq<char>>) -> Seq<char> {
    match o {
        Option::None => "null"@,
        Option::Some(s) => spec_json_string(s),
    }
}

/// The elements of a string array after the first: `,` newline, string.
pub open spec fn spec_ser_tags_tail(ts: Seq<Seq<char>>, ind: int) -> Seq<char>
    decreases ts.len(),
{
    if ts.len() == 0 {
        Seq::empty()
    } else {
        seq![','] + nl_ind(ind) + spec_json_string(ts[0]) + spec_ser_tags_tail(
            ts.drop_first(),
            ind,
        )
    }
}

/// A JSON array of strings: `[]` when empty, else one string per line,
/// elements at `ind + 2`, closing bracket at `ind`.
pub open spec fn spec_ser_tags(ts: Seq<Seq<char>>, ind: int) -> Seq<char> {
    if ts.len() == 0 {
        seq!['[', ']']
    } else {
        seq!['['] + nl_ind(ind + 2) + spec_json_string(ts[0]) + spec_ser_tags_tail(
            ts.drop_first(),
            ind + 2,
        ) + nl_ind(ind) + seq![']']
    }
}

// ---------------------------------------------------------------------
// items and day-files
// ---------------------------------------------------------------------
/// A follow-up field: comma, then the field line.
pub open spec fn spec_next_field(key: Seq<char>, val: Seq<char>, ind: int) -> Seq<char> {
    seq![','] + spec_field(key, val, ind)
}

/// One item as a JSON object with its opening brace at the current
/// position, fields at `ind + 2`, closing brace at `ind`. Opaque: most
/// reasoning treats an item's text as one block.
#[verifier::opaque]
pub open spec fn spec_ser_item(i: ItemView, ind: int) -> Seq<char> {
    seq!['{'] + spec_field("\"id\""@, spec_json_string(i.id), ind + 2) + spec_next_field(
        "\"text\""@,
        spec_json_string(i.text),
        ind + 2,
    ) + spec_next_field(
        "\"created_at\""@,
        seq!['"'] + spec_timestamp_chars(i.created_at) + seq!['"'],
        ind + 2,
    ) + spec_next_field(
        "\"done_at\""@,
        spec_opt_timestamp_chars(i.done_at),
        ind + 2,
    ) + spec_next_field(
        "\"priority\""@,
        spec_json_string(spec_pri_chars(i.priority)),
        ind + 2,
    ) + spec_next_field("\"tags\""@, spec_ser_tags(i.tags, ind + 2), ind + 2) + spec_next_field(
        "\"due\""@,
        spec_opt_timestamp_chars(i.due),
        ind + 2,
    ) + spec_next_field(
        "\"notes\""@,
        spec_opt_string_chars(i.notes),
        ind + 2,
    ) + spec_next_field(
        "\"migrated_from\""@,
        spec_opt_date_chars(i.migrated_from),
        ind + 2,
    ) + nl_ind(ind) + seq!['}']
}

pub open spec fn spec_ser_items_tail(items: Seq<ItemView>, ind: int) -> Seq<char>
    decreases items.len(),
{
    if items.len() == 0 {
        Seq::empty()
    } else {
        seq![','] + nl_ind(ind) + spec_ser_item(items[0], ind) + spec_ser_items_tail(
            items.drop_first(),
            ind,
        )
    }
}

/// The items array: `[]` when empty, else one object per element,
/// elements at `ind + 2`, closing bracket at `ind`.
pub open spec fn spec_ser_items(items: Seq<ItemView>, ind: int) -> Seq<char> {
    if items.len() == 0 {
        seq!['[', ']']
    } else {
        seq!['['] + nl_ind(ind + 2) + spec_ser_item(items[0], ind + 2) + spec_ser_items_tail(
            items.drop_first(),
            ind + 2,
        ) + nl_ind(ind) + seq![']']
    }
}

/// The whole canonical day-file document, trailing newline included.
pub open spec fn spec_ser_dayfile(df: DayFileView) -> Seq<char> {
    seq!['{'] + spec_field(
        "\"date\""@,
        seq!['"'] + spec_date_chars(df.date) + seq!['"'],
        2,
    ) + seq![','] + spec_field("\"items\""@, spec_ser_items(df.items, 2), 2) + nl_ind(0)
        + seq!['}'] + seq!['\n']
}

// ---------------------------------------------------------------------
// the executable serializer
// ---------------------------------------------------------------------
fn push_digit(out: &mut String, n: u8)
    requires
        n < 10,
    ensures
        final(out)@ == old(out)@.push(spec_digit(n as int)),
{
    push_char(out, (48 + n) as char);
}

fn push_hex(out: &mut String, n: u8)
    requires
        n < 16,
    ensures
        final(out)@ == old(out)@.push(spec_hex(n as int)),
{
    if n < 10 {
        push_char(out, (48 + n) as char);
    } else {
        push_char(out, (87 + n) as char);
    }
}

pub(crate) fn push_d2(out: &mut String, n: u8)
    requires
        n < 100,
    ensures
        final(out)@ == old(out)@ + spec_d2(n as int),
{
    push_digit(out, n / 10);
    push_digit(out, n % 10);
    proof {
        assert(final(out)@ =~= old(out)@ + spec_d2(n as int));
    }
}

pub(crate) fn push_d4(out: &mut String, n: u16)
    requires
        n <= 9999,
    ensures
        final(out)@ == old(out)@ + spec_d4(n as int),
{
    push_digit(out, (n / 1000 % 10) as u8);
    push_digit(out, (n / 100 % 10) as u8);
    push_digit(out, (n / 10 % 10) as u8);
    push_digit(out, (n % 10) as u8);
    proof {
        assert(final(out)@ =~= old(out)@ + spec_d4(n as int));
    }
}

pub(crate) fn push_date_chars(out: &mut String, d: Date)
    requires
        date_valid(d),
    ensures
        final(out)@ == old(out)@ + spec_date_chars(d),
{
    push_d4(out, d.year);
    push_char(out, '-');
    push_d2(out, d.month);
    push_char(out, '-');
    push_d2(out, d.day);
    proof {
        assert(final(out)@ =~= old(out)@ + spec_date_chars(d));
    }
}

fn push_timestamp_chars(out: &mut String, t: Timestamp)
    requires
        timestamp_valid(t),
    ensures
        final(out)@ == old(out)@ + spec_timestamp_chars(t),
{
    push_date_chars(out, t.date);
    push_char(out, 'T');
    push_d2(out, t.hour);
    push_char(out, ':');
    push_d2(out, t.minute);
    push_char(out, ':');
    push_d2(out, t.second);
    push_char(out, 'Z');
    proof {
        assert(final(out)@ =~= old(out)@ + spec_timestamp_chars(t));
    }
}

fn push_escaped(out: &mut String, s: &str)
    ensures
        final(out)@ == old(out)@ + spec_escape(s@),
{
    let chars = crate::strings::str_chars(s);
    let n = chars.len();
    let mut k: usize = 0;
    proof {
        assert(s@.skip(0) =~= s@);
    }
    while k < n
        invariant
            k <= n == s@.len(),
            chars@ == s@,
            out@ + spec_escape(s@.skip(k as int)) == old(out)@ + spec_escape(s@),
        decreases n - k,
    {
        let c = chars[k];
        proof {
            assert(s@.skip(k as int).drop_first() =~= s@.skip(k + 1));
            assert(spec_escape(s@.skip(k as int)) == spec_escape_char(c) + spec_escape(
                s@.skip(k + 1),
            ));
        }
        if c == '"' {
            push_char(out, '\\');
            push_char(out, '"');
        } else if c == '\\' {
            push_char(out, '\\');
            push_char(out, '\\');
        } else {
            let u = c as u32;
            if u < 32 {
                push_char(out, '\\');
                push_char(out, 'u');
                push_char(out, '0');
                push_char(out, '0');
                push_hex(out, (u / 16) as u8);
                push_hex(out, (u % 16) as u8);
            } else {
                push_char(out, c);
            }
        }
        proof {
            assert(out@ + spec_escape(s@.skip(k + 1)) =~= old(out)@ + spec_escape(s@));
        }
        k = k + 1;
    }
    proof {
        assert(spec_escape(s@.skip(n as int)) =~= Seq::<char>::empty());
        assert(out@ =~= out@ + spec_escape(s@.skip(n as int)));
    }
}

fn push_json_string(out: &mut String, s: &str)
    ensures
        final(out)@ == old(out)@ + spec_json_string(s@),
{
    push_char(out, '"');
    push_escaped(out, s);
    push_char(out, '"');
    proof {
        assert(final(out)@ =~= old(out)@ + spec_json_string(s@));
    }
}

fn push_spaces(out: &mut String, n: usize)
    ensures
        final(out)@ == old(out)@ + spec_spaces(n as int),
{
    let mut k: usize = 0;
    proof {
        assert(out@ =~= out@ + spec_spaces(0));
    }
    while k < n
        invariant
            k <= n,
            out@ == old(out)@ + spec_spaces(k as int),
        decreases n - k,
    {
        push_char(out, ' ');
        k = k + 1;
    }
}

fn push_nl_ind(out: &mut String, n: usize)
    ensures
        final(out)@ == old(out)@ + nl_ind(n as int),
{
    push_char(out, '\n');
    push_spaces(out, n);
    proof {
        assert(final(out)@ =~= old(out)@ + nl_ind(n as int));
    }
}

/// Opens a field line: newline, indentation, quoted key, colon, space.
fn push_key(out: &mut String, key: &str, ind: usize)
    ensures
        final(out)@ == old(out)@ + nl_ind(ind as int) + key@ + colon_sp(),
{
    push_nl_ind(out, ind);
    out.append(key);
    push_char(out, ':');
    push_char(out, ' ');
    proof {
        assert(final(out)@ =~= old(out)@ + nl_ind(ind as int) + key@ + colon_sp());
    }
}

fn push_opt_timestamp(out: &mut String, o: &Option<Timestamp>)
    requires
        o matches Some(t) ==> timestamp_valid(*t),
    ensures
        final(out)@ == old(out)@ + spec_opt_timestamp_chars(*o),
{
    match o {
        None => {
            out.append("null");
        },
        Some(t) => {
            push_char(out, '"');
            push_timestamp_chars(out, *t);
            push_char(out, '"');
            proof {
                assert(final(out)@ =~= old(out)@ + spec_opt_timestamp_chars(*o));
            }
        },
    }
}

fn push_opt_date(out: &mut String, o: &Option<Date>)
    requires
        o matches Some(d) ==> date_valid(*d),
    ensures
        final(out)@ == old(out)@ + spec_opt_date_chars(*o),
{
    match o {
        None => {
            out.append("null");
        },
        Some(d) => {
            push_char(out, '"');
            push_date_chars(out, *d);
            push_char(out, '"');
            proof {
                assert(final(out)@ =~= old(out)@ + spec_opt_date_chars(*o));
            }
        },
    }
}

fn push_opt_string(out: &mut String, o: &Option<String>)
    ensures
        final(out)@ == old(out)@ + spec_opt_string_chars(o.deep_view()),
{
    match o {
        None => {
            out.append("null");
        },
        Some(s) => {
            push_json_string(out, s.as_str());
        },
    }
}

fn push_priority(out: &mut String, p: ItemPriority)
    ensures
        final(out)@ == old(out)@ + spec_json_string(spec_pri_chars(p)),
{
    push_char(out, '"');
    match p {
        ItemPriority::High => {
            push_escaped_priority(out, "high");
        },
        ItemPriority::Medium => {
            push_escaped_priority(out, "medium");
        },
        ItemPriority::Low => {
            push_escaped_priority(out, "low");
        },
    }
    push_char(out, '"');
    proof {
        assert(final(out)@ =~= old(out)@ + spec_json_string(spec_pri_chars(p)));
    }
}

/// The three priority words contain nothing the escaper rewrites.
fn push_escaped_priority(out: &mut String, word: &str)
    ensures
        final(out)@ == old(out)@ + spec_escape(word@),
{
    push_escaped(out, word);
}

/// Tail of a string array: every element after the first.
fn push_tags_tail(out: &mut String, ts: &Vec<String>, ind: usize)
    requires
        ts@.len() >= 1,
    ensures
        final(out)@ == old(out)@ + spec_ser_tags_tail(ts.deep_view().drop_first(), ind as int),
{
    let n = ts.len();
    let mut k: usize = 1;
    proof {
        assert(out@ =~= out@ + spec_ser_tags_tail(ts.deep_view().subrange(1, 1), ind as int));
    }
    while k < n
        invariant
            1 <= k <= n == ts@.len(),
            out@ == old(out)@ + spec_ser_tags_tail(
                ts.deep_view().subrange(1, k as int),
                ind as int,
            ),
        decreases n - k,
    {
        let ghost pre = ts.deep_view().subrange(1, k as int);
        push_char(out, ',');
        push_nl_ind(out, ind);
        push_json_string(out, ts[k].as_str());
        proof {
            lemma_ser_tags_tail_snoc(pre, ts.deep_view()[k as int], ind as int);
            assert(ts.deep_view().subrange(1, k + 1) =~= pre.push(ts.deep_view()[k as int]));
        }
        k = k + 1;
    }
    proof {
        assert(ts.deep_view().subrange(1, n as int) =~= ts.deep_view().drop_first());
    }
}

/// Appending one element to a tag list appends its serialization.
proof fn lemma_ser_tags_tail_snoc(ts: Seq<Seq<char>>, t: Seq<char>, ind: int)
    ensures
        spec_ser_tags_tail(ts.push(t), ind) == spec_ser_tags_tail(ts, ind) + (seq![','] + nl_ind(
            ind,
        ) + spec_json_string(t)),
    decreases ts.len(),
{
    let piece = seq![','] + nl_ind(ind) + spec_json_string(t);
    if ts.len() == 0 {
        assert(ts.push(t)[0] == t);
        assert(ts.push(t).drop_first() =~= Seq::<Seq<char>>::empty());
        assert(spec_ser_tags_tail(ts.push(t).drop_first(), ind) == Seq::<char>::empty());
        assert(spec_ser_tags_tail(ts.push(t), ind) =~= spec_ser_tags_tail(ts, ind) + piece);
    } else {
        assert(ts.push(t)[0] == ts[0]);
        assert(ts.push(t).drop_first() =~= ts.drop_first().push(t));
        lemma_ser_tags_tail_snoc(ts.drop_first(), t, ind);
        assert(spec_ser_tags_tail(ts.push(t), ind) == seq![','] + nl_ind(ind) + spec_json_string(
            ts[0],
        ) + spec_ser_tags_tail(ts.drop_first().push(t), ind));
        assert(spec_ser_tags_tail(ts.push(t), ind) =~= spec_ser_tags_tail(ts, ind) + piece);
    }
}

fn push_tags(out: &mut String, ts: &Vec<String>, ind: usize)
    requires
        ind + 2 <= usize::MAX,
    ensures
        final(out)@ == old(out)@ + spec_ser_tags(ts.deep_view(), ind as int),
{
    if ts.len() == 0 {
        push_char(out, '[');
        push_char(out, ']');
        proof {
            assert(final(out)@ =~= old(out)@ + spec_ser_tags(ts.deep_view(), ind as int));
        }
    } else {
        push_char(out, '[');
        push_nl_ind(out, ind + 2);
        push_json_string(out, ts[0].as_str());
        push_tags_tail(out, ts, ind + 2);
        push_nl_ind(out, ind);
        push_char(out, ']');
        proof {
            assert(final(out)@ =~= old(out)@ + spec_ser_tags(ts.deep_view(), ind as int));
        }
    }
}

/// Stitches the nine field chunks into [`spec_ser_item`].
#[verifier::spinoff_prover]
#[verifier::rlimit(100)]
proof fn lemma_item_assemble(
    base: Seq<char>,
    i: ItemView,
    ind: int,
    s1: Seq<char>,
    s2: Seq<char>,
    s3: Seq<char>,
    s4: Seq<char>,
    s5: Seq<char>,
    s6: Seq<char>,
    s7: Seq<char>,
    s8: Seq<char>,
    out: Seq<char>,
)
    requires
        s1 == base + (seq!['{'] + spec_field("\"id\""@, spec_json_string(i.id), ind + 2)),
        s2 == s1 + spec_next_field("\"text\""@, spec_json_string(i.text), ind + 2),
        s3 == s2 + spec_next_field(
            "\"created_at\""@,
            seq!['"'] + spec_timestamp_chars(i.created_at) + seq!['"'],
            ind + 2,
        ),
        s4 == s3 + spec_next_field("\"done_at\""@, spec_opt_timestamp_chars(i.done_at), ind + 2),
        s5 == s4 + spec_next_field(
            "\"priority\""@,
            spec_json_string(spec_pri_chars(i.priority)),
            ind + 2,
        ),
        s6 == s5 + spec_next_field("\"tags\""@, spec_ser_tags(i.tags, ind + 2), ind + 2),
        s7 == s6 + spec_next_field("\"due\""@, spec_opt_timestamp_chars(i.due), ind + 2),
        s8 == s7 + spec_next_field("\"notes\""@, spec_opt_string_chars(i.notes), ind + 2),
        out == s8 + (spec_next_field(
            "\"migrated_from\""@,
            spec_opt_date_chars(i.migrated_from),
            ind + 2,
        ) + nl_ind(ind) + seq!['}']),
    ensures
        out == base + spec_ser_item(i, ind),
{
    reveal(spec_ser_item);
    assert(out =~= base + spec_ser_item(i, ind));
}

/// Comma, newline-indent, quoted key, colon: the frame of every field
/// after the first.
fn push_next_key(out: &mut String, key: &str, ind: usize)
    ensures
        final(out)@ == old(out)@ + (seq![','] + nl_ind(ind as int) + key@ + colon_sp()),
{
    push_char(out, ',');
    push_key(out, key, ind);
    proof {
        assert(final(out)@ =~= old(out)@ + (seq![','] + nl_ind(ind as int) + key@ + colon_sp()));
    }
}

/// A timestamp in its JSON quotes.
fn push_quoted_timestamp(out: &mut String, t: Timestamp)
    requires
        timestamp_valid(t),
    ensures
        final(out)@ == old(out)@ + (seq!['"'] + spec_timestamp_chars(t) + seq!['"']),
{
    push_char(out, '"');
    push_timestamp_chars(out, t);
    push_char(out, '"');
    proof {
        assert(final(out)@ =~= old(out)@ + (seq!['"'] + spec_timestamp_chars(t) + seq!['"']));
    }
}

/// Frame plus value make one follow-up field.
#[verifier::spinoff_prover]
proof fn lemma_chunk(s: Seq<char>, key: Seq<char>, val: Seq<char>, d: int, a: Seq<char>, b: Seq<char>)
    requires
        a == s + (seq![','] + nl_ind(d) + key + colon_sp()),
        b == a + val,
    ensures
        b == s + spec_next_field(key, val, d),
{
    assert(b =~= s + spec_next_field(key, val, d));
}

#[verifier::spinoff_prover]
#[verifier::rlimit(100)]
fn push_item(out: &mut String, i: &Item, ind: usize)
    requires
        item_valid(i@),
        ind + 2 <= 10000,
    ensures
        final(out)@ == old(out)@ + spec_ser_item(i@, ind as int),
{
    let ghost d = ind + 2int;
    push_char(out, '{');
    push_key(out, "\"id\"", ind + 2);
    push_json_string(out, i.id.as_str());
    proof {
        assert(out@ =~= old(out)@ + (seq!['{'] + spec_field("\"id\""@, spec_json_string(i@.id), d)));
    }
    let ghost s1 = out@;
    push_next_key(out, "\"text\"", ind + 2);
    let ghost m2 = out@;
    push_json_string(out, i.text.as_str());
    proof {
        lemma_chunk(s1, "\"text\""@, spec_json_string(i@.text), d, m2, out@);
    }
    let ghost s2 = out@;
    push_next_key(out, "\"created_at\"", ind + 2);
    let ghost m3 = out@;
    push_quoted_timestamp(out, i.created_at);
    proof {
        lemma_chunk(
            s2,
            "\"created_at\""@,
            seq!['"'] + spec_timestamp_chars(i@.created_at) + seq!['"'],
            d,
            m3,
            out@,
        );
    }
    let ghost s3 = out@;
    push_next_key(out, "\"done_at\"", ind + 2);
    let ghost m4 = out@;
    push_opt_timestamp(out, &i.done_at);
    proof {
        lemma_chunk(s3, "\"done_at\""@, spec_opt_timestamp_chars(i@.done_at), d, m4, out@);
    }
    let ghost s4 = out@;
    push_next_key(out, "\"priority\"", ind + 2);
    let ghost m5 = out@;
    push_priority(out, i.priority);
    proof {
        lemma_chunk(s4, "\"priority\""@, spec_json_string(spec_pri_chars(i@.priority)), d, m5, out@);
    }
    let ghost s5 = out@;
    push_next_key(out, "\"tags\"", ind + 2);
    let ghost m6 = out@;
    push_tags(out, &i.tags, ind + 2);
    proof {
        lemma_chunk(s5, "\"tags\""@, spec_ser_tags(i@.tags, d), d, m6, out@);
    }
    let ghost s6 = out@;
    push_next_key(out, "\"due\"", ind + 2);
    let ghost m7 = out@;
    push_opt_timestamp(out, &i.due);
    proof {
        lemma_chunk(s6, "\"due\""@, spec_opt_timestamp_chars(i@.due), d, m7, out@);
    }
    let ghost s7 = out@;
    push_next_key(out, "\"notes\"", ind + 2);
    let ghost m8 = out@;
    push_opt_string(out, &i.notes);
    proof {
        lemma_chunk(s7, "\"notes\""@, spec_opt_string_chars(i@.notes), d, m8, out@);
    }
    let ghost s8 = out@;
    push_next_key(out, "\"migrated_from\"", ind + 2);
    let ghost m9 = out@;
    push_opt_date(out, &i.migrated_from);
    proof {
        lemma_chunk(s8, "\"migrated_from\""@, spec_opt_date_chars(i@.migrated_from), d, m9, out@);
    }
    let ghost s9 = out@;
    push_nl_ind(out, ind);
    push_char(out, '}');
    proof {
        assert(out@ =~= s8 + (spec_next_field(
            "\"migrated_from\""@,
            spec_opt_date_chars(i@.migrated_from),
            d,
        ) + nl_ind(ind as int) + seq!['}'])) by {
            assert(s9 == s8 + spec_next_field(
                "\"migrated_from\""@,
                spec_opt_date_chars(i@.migrated_from),
                d,
            ));
            assert(out@ == s9 + nl_ind(ind as int).push('}'));
            assert(nl_ind(ind as int).push('}') =~= nl_ind(ind as int) + seq!['}']);
        }
        lemma_item_assemble(old(out)@, i@, ind as int, s1, s2, s3, s4, s5, s6, s7, s8, out@);
    }
}

/// Appending one item to a list appends its serialization.
proof fn lemma_ser_items_tail_snoc(items: Seq<ItemView>, i: ItemView, ind: int)
    ensures
        spec_ser_items_tail(items.push(i), ind) == spec_ser_items_tail(items, ind) + (seq![',']
            + nl_ind(ind) + spec_ser_item(i, ind)),
    decreases items.len(),
{
    let piece = seq![','] + nl_ind(ind) + spec_ser_item(i, ind);
    if items.len() == 0 {
        assert(items.push(i)[0] == i);
        assert(items.push(i).drop_first() =~= Seq::<ItemView>::empty());
        assert(spec_ser_items_tail(items.push(i).drop_first(), ind) == Seq::<char>::empty());
        assert(spec_ser_items_tail(items.push(i), ind) =~= spec_ser_items_tail(items, ind) + piece);
    } else {
        assert(items.push(i)[0] == items[0]);
        assert(items.push(i).drop_first() =~= items.drop_first().push(i));
        lemma_ser_items_tail_snoc(items.drop_first(), i, ind);
        assert(spec_ser_items_tail(items.push(i), ind) == seq![','] + nl_ind(ind) + spec_ser_item(
            items[0],
            ind,
        ) + spec_ser_items_tail(items.drop_first().push(i), ind));
        assert(spec_ser_items_tail(items.push(i), ind) =~= spec_ser_items_tail(items, ind) + piece);
    }
}

#[verifier::rlimit(100)]
fn push_items(out: &mut String, items: &Vec<Item>, ind: usize)
    requires
        forall|k: int| 0 <= k < items@.len() ==> item_valid(#[trigger] items.deep_view()[k]),
        ind + 4 <= 10000,
    ensures
        final(out)@ == old(out)@ + spec_ser_items(items.deep_view(), ind as int),
{
    let n = items.len();
    if n == 0 {
        push_char(out, '[');
        push_char(out, ']');
        proof {
            assert(final(out)@ =~= old(out)@ + spec_ser_items(items.deep_view(), ind as int));
        }
        return ;
    }
    push_char(out, '[');
    push_nl_ind(out, ind + 2);
    proof {
        assert(item_valid(items.deep_view()[0]));
    }
    push_item(out, &items[0], ind + 2);
    let mut k: usize = 1;
    proof {
        assert(out@ =~= out@ + spec_ser_items_tail(items.deep_view().subrange(1, 1), ind + 2));
    }
    while k < n
        invariant
            1 <= k <= n == items@.len(),
            forall|j: int| 0 <= j < items@.len() ==> item_valid(#[trigger] items.deep_view()[j]),
            ind + 4 <= 10000,
            out@ == old(out)@ + (seq!['['] + nl_ind(ind + 2) + spec_ser_item(
                items.deep_view()[0],
                ind + 2,
            )) + spec_ser_items_tail(items.deep_view().subrange(1, k as int), ind + 2),
        decreases n - k,
    {
        let ghost pre = items.deep_view().subrange(1, k as int);
        push_char(out, ',');
        push_nl_ind(out, ind + 2);
        proof {
            assert(item_valid(items.deep_view()[k as int]));
        }
        push_item(out, &items[k], ind + 2);
        proof {
            lemma_ser_items_tail_snoc(pre, items.deep_view()[k as int], ind + 2);
            assert(items.deep_view().subrange(1, k + 1) =~= pre.push(items.deep_view()[k as int]));
        }
        k = k + 1;
    }
    push_nl_ind(out, ind);
    push_char(out, ']');
    proof {
        assert(items.deep_view().subrange(1, n as int) =~= items.deep_view().drop_first());
        assert(final(out)@ =~= old(out)@ + spec_ser_items(items.deep_view(), ind as int));
    }
}

/// The canonical text of one item, starting at indentation zero; used
/// where a single item is reported as JSON.
pub fn serialize_item(i: &Item) -> (r: String)
    requires
        item_valid(i@),
    ensures
        r@ == spec_ser_item(i@, 0),
{
    let mut out = String::new();
    push_item(&mut out, i, 0);
    out
}

/// The canonical text of a whole day-file, trailing newline included:
/// exactly [`spec_ser_dayfile`] of its value.
#[verifier::rlimit(100)]
pub fn serialize_dayfile(df: &DayFile) -> (r: String)
    requires
        dayfile_valid(df@),
    ensures
        r@ == spec_ser_dayfile(df@),
{
    let mut out = String::new();
    push_char(&mut out, '{');
    push_key(&mut out, "\"date\"", 2);
    push_char(&mut out, '"');
    push_date_chars(&mut out, df.date);
    push_char(&mut out, '"');
    push_char(&mut out, ',');
    push_key(&mut out, "\"items\"", 2);
    proof {
        assert forall|k: int|
            0 <= k < df.items@.len() implies item_valid(#[trigger] df.items.deep_view()[k]) by {
            assert(item_valid(df@.items[k]));
        }
    }
    push_items(&mut out, &df.items, 2);
    push_nl_ind(&mut out, 0);
    push_char(&mut out, '}');
    push_char(&mut out, '\n');
    proof {
        assert(out@ =~= spec_ser_dayfile(df@));
    }
    out
}

} // verus!
