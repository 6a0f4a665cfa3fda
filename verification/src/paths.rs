//! The path resolver: a calendar date, a vault name and a data root
//! determine where the day's file lives —
//! `<root>/vaults/<vault>/<YYYY>/<MM>/<YYYY-MM-DD>.json`. The root is
//! handed in by the caller; looking up a platform directory is not this
//! module's business.

use vstd::prelude::*;
use vstd::string::StringExecFns;

use crate::codec::{push_d2, push_d4, push_date_chars, spec_d2, spec_d4, spec_date_chars};
use crate::date::{Date, date_valid};
use crate::strings::{char_lower, lower_char, str_chars};
use crate::sys::push_char;

verus! {

/// The characters a vault name may keep: ascii letters and digits,
/// hyphen and underscore.
pub open spec fn keep_vault_char(c: char) -> bool {
    ||| 48 <= c as u32 <= 57
    ||| 65 <= c as u32 <= 90
    ||| 97 <= c as u32 <= 122
    ||| c == '-'
    ||| c == '_'
}

/// A raw vault name, filtered to the kept characters and folded to
/// lower case.
pub open spec fn spec_normalise(s: Seq<char>) -> Seq<char>
    decreases s.len(),
{
    if s.len() == 0 {
        Seq::empty()
    } else {
        (if keep_vault_char(s[0]) {
            seq![lower_char(s[0])]
        } else {
            Seq::<char>::empty()
        }) + spec_normalise(s.drop_first())
    }
}

/// The vault a raw name lands in: the normalised name, or `default`
/// when nothing usable is left — so distinct raw names may share a
/// vault deliberately.
pub open spec fn spec_vault_name(v: Option<Seq<char>>) -> Seq<char> {
    match v {
        Option::None => "default"@,
        Option::Some(s) => if spec_normalise(s).len() == 0 {
            "default"@
        } else {
            spec_normalise(s)
        },
    }
}

/// Normalises a vault name: unwanted characters dropped, ascii folded
/// to lower case, and `default` when nothing is left.
pub fn normalise_or_default(vault: Option<&str>) -> (r: String)
    ensures
        r@ == spec_vault_name(crate::ops::view_opt_str(vault)),
{
    match vault {
        None => String::from_str("default"),
        Some(s) => {
            let chars = str_chars(s);
            let n = chars.len();
            let mut out = String::new();
            let mut kept: usize = 0;
            let mut k: usize = 0;
            proof {
                assert(s@.skip(0) =~= s@);
                assert(out@ + spec_normalise(s@.skip(0)) =~= spec_normalise(s@));
            }
            while k < n
                invariant
                    k <= n == chars@.len(),
                    chars@ == s@,
                    kept <= k,
                    kept == out@.len(),
                    out@ + spec_normalise(s@.skip(k as int)) == spec_normalise(s@),
                decreases n - k,
            {
                let c = chars[k];
                proof {
                    assert(s@.skip(k as int)[0] == c);
                    assert(s@.skip(k as int).drop_first() =~= s@.skip(k + 1));
                }
                let u = c as u32;
                if (48 <= u && u <= 57) || (65 <= u && u <= 90) || (97 <= u && u <= 122) || c == '-'
                    || c == '_' {
                    push_char(&mut out, char_lower(c));
                    kept = kept + 1;
                    proof {
                        assert(out@ + spec_normalise(s@.skip(k + 1)) =~= spec_normalise(s@));
                    }
                } else {
                    proof {
                        assert(out@ + spec_normalise(s@.skip(k + 1)) =~= spec_normalise(s@));
                    }
                }
                k = k + 1;
            }
            proof {
                assert(spec_normalise(s@.skip(n as int)) =~= Seq::<char>::empty());
                assert(out@ =~= spec_normalise(s@));
            }
            if kept == 0 {
                String::from_str("default")
            } else {
                out
            }
        },
    }
}

/// The file path of a date's day-file under a root and a vault.
pub open spec fn spec_day_file_path(root: Seq<char>, vault: Option<Seq<char>>, d: Date) -> Seq<
    char,
> {
    root + "/vaults/"@ + spec_vault_name(vault) + seq!['/'] + spec_d4(d.year as int) + seq!['/']
        + spec_d2(d.month as int) + seq!['/'] + spec_date_chars(d) + ".json"@
}

/// Resolves the file path of `date`'s day-file: the root verbatim, the
/// normalised vault, the zero-padded year and month directories, and
/// the ISO date as file name.
pub fn resolve_day_file_path(root: &str, vault: Option<&str>, date: Date) -> (r: String)
    requires
        date_valid(date),
    ensures
        r@ == spec_day_file_path(root@, crate::ops::view_opt_str(vault), date),
{
    let mut out = String::from_str(root);
    out.append("/vaults/");
    let v = normalise_or_default(vault);
    out.append(v.as_str());
    push_char(&mut out, '/');
    push_d4(&mut out, date.year);
    push_char(&mut out, '/');
    push_d2(&mut out, date.month);
    push_char(&mut out, '/');
    push_date_chars(&mut out, date);
    out.append(".json");
    proof {
        assert(out@ =~= spec_day_file_path(root@, crate::ops::view_opt_str(vault), date));
    }
    out
}

} // verus!
