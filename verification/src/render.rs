//! The data the renderer consumes: its options, and the two small text
//! helpers whose output shape is worth pinning down. Colour and terminal
//! handling live with the caller; nothing here writes anywhere.

use vstd::prelude::*;

use crate::sys::push_char;

verus! {

/// How output should be produced: machine-readable JSON or
/// human-readable text, with or without colour, terse or verbose.
pub struct RenderOpts {
    pub json: bool,
    pub verbose: bool,
    pub no_color: bool,
    pub vault_name: Option<String>,
    pub dry_run: bool,
}

/// The first `len` characters of an identifier; the whole identifier
/// when it is shorter.
pub fn abbrev_id(id: &str, len: usize) -> (r: String)
    ensures
        r@ == if id@.len() <= len {
            id@
        } else {
            id@.take(len as int)
        },
{
    let chars = crate::strings::str_chars(id);
    let n = chars.len();
    let stop = if n <= len {
        n
    } else {
        len
    };
    let r = crate::strings::string_from_range(&chars, 0, stop);
    proof {
        if id@.len() <= len {
            assert(id@.subrange(0, stop as int) =~= id@);
        } else {
            assert(id@.subrange(0, stop as int) =~= id@.take(len as int));
        }
    }
    r
}

/// `n` copies of one character, as for a title underline.
pub fn repeat_char(c: char, n: usize) -> (r: String)
    ensures
        r@.len() == n,
        forall|k: int| 0 <= k < n ==> r@[k] == c,
{
    let mut r = String::new();
    let mut k: usize = 0;
    while k < n
        invariant
            k <= n,
            r@.len() == k,
            forall|j: int| 0 <= j < k ==> r@[j] == c,
        decreases n - k,
    {
        push_char(&mut r, c);
        k = k + 1;
    }
    r
}

} // verus!
