//! Character-level string utilities: every piece of text handling in
//! this crate works over `Seq<char>`, and these functions move between
//! `String` and `Vec<char>` with exact contracts.

use vstd::prelude::*;
use vstd::std_specs::iter::IteratorSpec;
use vstd::string::StringExecFns;

use crate::sys;

verus! {

/// The characters this library treats as whitespace: the Unicode
/// White_Space set, as `str::trim` and `split_whitespace` see it —
/// tab through carriage return, the blank, next line, no-break space,
/// ogham space mark, the typographic spaces, the line and paragraph
/// separators, narrow no-break space, medium mathematical space, and
/// the ideographic space.
pub open spec fn is_space(c: char) -> bool {
    let u = c as u32;
    ||| (9 <= u && u <= 13)
    ||| u == 32
    ||| u == 0x85
    ||| u == 0xA0
    ||| u == 0x1680
    ||| (0x2000 <= u && u <= 0x200A)
    ||| u == 0x2028
    ||| u == 0x2029
    ||| u == 0x202F
    ||| u == 0x205F
    ||| u == 0x3000
}

pub fn char_is_space(c: char) -> (r: bool)
    ensures
        r == is_space(c),
{
    let u = c as u32;
    (9 <= u && u <= 13) || u == 32 || u == 0x85 || u == 0xA0 || u == 0x1680 || (0x2000 <= u && u
        <= 0x200A) || u == 0x2028 || u == 0x2029 || u == 0x202F || u == 0x205F || u == 0x3000
}

/// Ascii upper-case letters fold to lower case; every other character
/// stays as it is.
pub open spec fn lower_char(c: char) -> char {
    if 65 <= c as u32 <= 90 {
        ((c as u32 + 32) as char)
    } else {
        c
    }
}

pub open spec fn spec_lower(s: Seq<char>) -> Seq<char> {
    s.map_values(|c: char| lower_char(c))
}

pub fn char_lower(c: char) -> (r: char)
    ensures
        r == lower_char(c),
{
    let u = c as u32;
    if 65 <= u && u <= 90 {
        let l = ((u + 32) as u8) as char;
        proof {
            vstd::utf8::char_u32_cast(l, (c as u32 + 32) as u32);
        }
        l
    } else {
        c
    }
}

/// The characters of `s`, in order.
pub fn str_chars(s: &str) -> (r: Vec<char>)
    ensures
        r@ == s@,
{
    let mut r: Vec<char> = Vec::new();
    for c in it: s.chars()
        invariant
            it.seq() == s@,
            r@ == s@.take(it.index() as int),
    {
        let ghost idx0 = it.index() as int;
        r.push(c);
        proof {
            assert(s@.take(idx0 + 1) =~= s@.take(idx0).push(s@[idx0]));
        }
    }
    proof {
        assert(r@ =~= s@);
    }
    r
}

/// The substring `v[from..to]` as a `String`.
pub fn string_from_range(v: &Vec<char>, from: usize, to: usize) -> (r: String)
    requires
        from <= to <= v@.len(),
    ensures
        r@ == v@.subrange(from as int, to as int),
{
    let mut r = String::new();
    let mut k = from;
    while k < to
        invariant
            from <= k <= to <= v@.len(),
            r@ == v@.subrange(from as int, k as int),
        decreases to - k,
    {
        sys::push_char(&mut r, v[k]);
        k = k + 1;
        proof {
            assert(r@ =~= v@.subrange(from as int, k as int));
        }
    }
    r
}

/// The characters of `s` with ascii letters folded to lower case.
pub fn lower_chars(s: &str) -> (r: Vec<char>)
    ensures
        r@ == spec_lower(s@),
{
    let chars = str_chars(s);
    let n = chars.len();
    let mut r: Vec<char> = Vec::new();
    let mut k: usize = 0;
    while k < n
        invariant
            k <= n == chars@.len(),
            chars@ == s@,
            r@ == spec_lower(s@.take(k as int)),
        decreases n - k,
    {
        r.push(char_lower(chars[k]));
        k = k + 1;
        proof {
            assert(r@ =~= spec_lower(s@.take(k as int)));
        }
    }
    proof {
        assert(s@.take(n as int) =~= s@);
    }
    r
}

/// Whether two character lists are equal.
pub fn chars_eq(a: &Vec<char>, b: &Vec<char>) -> (r: bool)
    ensures
        r == (a@ == b@),
{
    let n = a.len();
    if b.len() != n {
        proof {
            assert(a@.len() != b@.len());
        }
        return false;
    }
    let mut k: usize = 0;
    while k < n
        invariant
            k <= n == a@.len() == b@.len(),
            forall|j: int| 0 <= j < k ==> a@[j] == b@[j],
        decreases n - k,
    {
        if a[k] != b[k] {
            return false;
        }
        k = k + 1;
    }
    proof {
        assert(a@ =~= b@);
    }
    true
}

/// A copy of a list of strings with the very same characters.
pub fn clone_strings(v: &Vec<String>) -> (r: Vec<String>)
    ensures
        r.deep_view() == v.deep_view(),
{
    let n = v.len();
    let mut r: Vec<String> = Vec::new();
    let mut k: usize = 0;
    while k < n
        invariant
            k <= n == v@.len(),
            r.deep_view() == v.deep_view().take(k as int),
        decreases n - k,
    {
        let c = v[k].clone();
        proof {
            assert(r.deep_view().len() == r@.len());
        }
        r.push(c);
        k = k + 1;
        proof {
            assert(r.deep_view() =~~= v.deep_view().take(k as int));
        }
    }
    proof {
        assert(v.deep_view().take(n as int) =~~= v.deep_view());
    }
    r
}

/// Whether `s` spells exactly the string `lit`.
pub fn string_eq_lit(s: &String, lit: &str) -> (r: bool)
    ensures
        r == (s@ == lit@),
{
    let l = String::from_str(lit);
    s.eq(&l)
}

/// Whether the characters of `v` spell exactly the string `lit`.
pub fn chars_eq_str(v: &Vec<char>, lit: &str) -> (r: bool)
    ensures
        r == (v@ == lit@),
{
    let n = lit.unicode_len();
    if v.len() != n {
        proof {
            assert(v@.len() != lit@.len());
        }
        return false;
    }
    let mut k: usize = 0;
    while k < n
        invariant
            k <= n,
            n == lit@.len() == v@.len(),
            forall|j: int| 0 <= j < k ==> v@[j] == lit@[j],
        decreases n - k,
    {
        if v[k] != lit.get_char(k) {
            proof {
                assert(v@[k as int] != lit@[k as int]);
            }
            return false;
        }
        k = k + 1;
    }
    proof {
        assert(v@ =~= lit@);
    }
    true
}

} // verus!
