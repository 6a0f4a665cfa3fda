//! Small input-handling helpers shared by the command logic: position
//! validation, text trimming, priority parsing and tag extraction.

use vstd::prelude::*;

use crate::errors::TuskError;
use crate::item::ItemPriority;
use crate::strings::{
    char_is_space, char_lower, chars_eq_str, is_space, lower_char, spec_lower, str_chars,
    string_from_range,
};

verus! {

/// `s` with leading whitespace removed.
pub open spec fn trim_front(s: Seq<char>) -> Seq<char>
    decreases s.len(),
{
    if s.len() > 0 && is_space(s[0]) {
        trim_front(s.drop_first())
    } else {
        s
    }
}

/// `s` with trailing whitespace removed.
pub open spec fn trim_back(s: Seq<char>) -> Seq<char>
    decreases s.len(),
{
    if s.len() > 0 && is_space(s.last()) {
        trim_back(s.drop_last())
    } else {
        s
    }
}

/// `s` with whitespace removed at both ends.
pub open spec fn spec_trim(s: Seq<char>) -> Seq<char> {
    trim_back(trim_front(s))
}

proof fn lemma_trim_front_skip(s: Seq<char>, i: int)
    requires
        0 <= i <= s.len(),
        forall|k: int| 0 <= k < i ==> is_space(s[k]),
        i < s.len() ==> !is_space(s[i]),
    ensures
        trim_front(s) == s.skip(i),
    decreases i,
{
    if i == 0 {
        assert(s.skip(0) =~= s);
    } else {
        lemma_trim_front_skip(s.drop_first(), i - 1);
        assert(s.drop_first().skip(i - 1) =~= s.skip(i));
    }
}

proof fn lemma_trim_back_take(s: Seq<char>, j: int)
    requires
        0 <= j <= s.len(),
        forall|k: int| j <= k < s.len() ==> is_space(s[k]),
        j > 0 ==> !is_space(s[j - 1]),
    ensures
        trim_back(s) == s.take(j),
    decreases s.len() - j,
{
    if j == s.len() {
        assert(s.take(j) =~= s);
    } else {
        lemma_trim_back_take(s.drop_last(), j);
        assert(s.drop_last().take(j) =~= s.take(j));
    }
}

/// Trims `text`; empty results are a user error, reported before any
/// state changes.
pub fn sanitise_str(text: &str) -> (r: Result<String, TuskError>)
    ensures
        r matches Ok(t) ==> t@ == spec_trim(text@) && t@.len() > 0,
        r is Err <==> spec_trim(text@).len() == 0,
        r matches Err(e) ==> e == TuskError::EmptyText,
{
    let chars = str_chars(text);
    let n = chars.len();
    let mut i: usize = 0;
    while i < n && char_is_space(chars[i])
        invariant
            0 <= i <= n == text@.len(),
            chars@ == text@,
            forall|k: int| 0 <= k < i ==> is_space(text@[k]),
        decreases n - i,
    {
        i = i + 1;
    }
    proof {
        lemma_trim_front_skip(text@, i as int);
    }
    if i == n {
        proof {
            assert(trim_front(text@) =~= Seq::<char>::empty());
            assert(spec_trim(text@) =~= Seq::<char>::empty());
        }
        return Err(TuskError::EmptyText);
    }
    let mut j: usize = n;
    while j > i && char_is_space(chars[j - 1])
        invariant
            i < j <= n == text@.len() || j == i,
            chars@ == text@,
            forall|k: int| j <= k < n ==> is_space(text@[k]),
            !is_space(text@[i as int]),
            i < n,
        decreases j,
    {
        j = j - 1;
    }
    proof {
        // the scan cannot pass position i, which holds a non-space
        assert(j > i);
        lemma_trim_back_take(text@.skip(i as int), j - i);
        assert(text@.skip(i as int).take(j - i) =~= text@.subrange(i as int, j as int));
    }
    Ok(string_from_range(&chars, i, j))
}

/// The priority a free-text argument names: `high` gives `High`, `med`
/// or `medium` gives `Medium`, anything else — and no argument — is
/// `Low` by design, compared ignoring ascii case.
pub open spec fn spec_priority(p: Option<Seq<char>>) -> ItemPriority {
    match p {
        Option::None => ItemPriority::Low,
        Option::Some(s) => {
            let l = spec_lower(s);
            if l == "high"@ {
                ItemPriority::High
            } else if l == "med"@ || l == "medium"@ {
                ItemPriority::Medium
            } else {
                ItemPriority::Low
            }
        },
    }
}

pub fn get_item_priority(priority: Option<&str>) -> (r: ItemPriority)
    ensures
        r == spec_priority(match priority {
            Option::Some(s) => Option::Some(s@),
            Option::None => Option::None,
        }),
{
    match priority {
        None => ItemPriority::Low,
        Some(s) => {
            let chars = str_chars(s);
            let mut lowered: Vec<char> = Vec::new();
            let n = chars.len();
            let mut k: usize = 0;
            while k < n
                invariant
                    k <= n == chars@.len(),
                    chars@ == s@,
                    lowered@ == spec_lower(s@.take(k as int)),
                decreases n - k,
            {
                lowered.push(char_lower(chars[k]));
                k = k + 1;
                proof {
                    assert(lowered@ =~= spec_lower(s@.take(k as int)));
                }
            }
            proof {
                assert(s@.take(n as int) =~= s@);
            }
            if chars_eq_str(&lowered, "high") {
                ItemPriority::High
            } else if chars_eq_str(&lowered, "med") || chars_eq_str(&lowered, "medium") {
                ItemPriority::Medium
            } else {
                ItemPriority::Low
            }
        },
    }
}

/// One word's contribution to the tag list: a word starting with `#`
/// contributes itself without the `#`; every other word contributes
/// nothing.
pub open spec fn emit_tag(w: Seq<char>) -> Seq<Seq<char>> {
    if w.len() > 0 && w[0] == '#' {
        seq![w.drop_first()]
    } else {
        Seq::empty()
    }
}

/// Scan of the text with `cur` the word read so far: whitespace closes
/// the current word, any other character extends it.
pub open spec fn tags_scan(s: Seq<char>, cur: Seq<char>) -> Seq<Seq<char>>
    decreases s.len(),
{
    if s.len() == 0 {
        emit_tag(cur)
    } else if is_space(s[0]) {
        emit_tag(cur) + tags_scan(s.drop_first(), Seq::empty())
    } else {
        tags_scan(s.drop_first(), cur.push(s[0]))
    }
}

/// The `#word` tokens of `s`, in order, `#` stripped, duplicates kept.
pub open spec fn spec_tags(s: Seq<char>) -> Seq<Seq<char>> {
    tags_scan(s, Seq::empty())
}

pub fn extract_tags(s: &str) -> (r: Vec<String>)
    ensures
        r.deep_view() == spec_tags(s@),
{
    let chars = str_chars(s);
    let n = chars.len();
    let mut tags: Vec<String> = Vec::new();
    // the current word is chars[start..k]; start == k means no word is open
    let mut start: usize = 0;
    let mut k: usize = 0;
    proof {
        assert(s@.skip(0) =~= s@);
        assert(s@.subrange(0, 0) =~= Seq::<char>::empty());
        assert(tags.deep_view() + tags_scan(s@, Seq::empty()) =~= tags_scan(s@, Seq::empty()));
    }
    while k < n
        invariant
            start <= k <= n == chars@.len(),
            chars@ == s@,
            forall|j: int| start <= j < k ==> !is_space(chars@[j]),
            spec_tags(s@) == tags.deep_view() + tags_scan(
                s@.skip(k as int),
                s@.subrange(start as int, k as int),
            ),
        decreases n - k,
    {
        let c = chars[k];
        proof {
            assert(s@.skip(k as int).drop_first() =~= s@.skip(k + 1));
        }
        if char_is_space(c) {
            let ghost w = s@.subrange(start as int, k as int);
            if k > start && chars[start] == '#' {
                tags.push(string_from_range(&chars, start + 1, k));
                proof {
                    assert(w.drop_first() =~= s@.subrange(start + 1, k as int));
                    assert(tags.deep_view() =~= tags.deep_view().drop_last() + emit_tag(w));
                }
            } else {
                proof {
                    assert(emit_tag(w) =~= Seq::<Seq<char>>::empty());
                    assert(tags.deep_view() + emit_tag(w) =~= tags.deep_view());
                }
            }
            k = k + 1;
            start = k;
            proof {
                assert(s@.subrange(start as int, k as int) =~= Seq::<char>::empty());
            }
        } else {
            k = k + 1;
            proof {
                assert(s@.subrange(start as int, k as int) =~= s@.subrange(
                    start as int,
                    k - 1,
                ).push(s@[k - 1]));
            }
        }
    }
    proof {
        assert(s@.skip(n as int) =~= Seq::<char>::empty());
    }
    let ghost w = s@.subrange(start as int, n as int);
    if k > start && chars[start] == '#' {
        tags.push(string_from_range(&chars, start + 1, n));
        proof {
            assert(w.drop_first() =~= s@.subrange(start + 1, n as int));
            assert(tags.deep_view() =~= tags.deep_view().drop_last() + emit_tag(w));
        }
    } else {
        proof {
            assert(emit_tag(w) =~= Seq::<Seq<char>>::empty());
            assert(tags.deep_view() + emit_tag(w) =~= tags.deep_view());
        }
    }
    tags
}

/// Translates a user-facing 1-based position into a 0-based index into a
/// list of `len` items. Position 0 and any position beyond the current
/// length are out of range, on an empty list as well as a populated one.
pub fn validate_index(i: usize, len: usize) -> (r: Result<usize, TuskError>)
    ensures
        1 <= i <= len <==> r is Ok,
        r matches Ok(p) ==> p == i - 1 && p < len,
        r matches Err(e) ==> e == (TuskError::IndexOutOfRange { index: i }),
{
    if i == 0 || i > len {
        Err(TuskError::IndexOutOfRange { index: i })
    } else {
        Ok(i - 1)
    }
}

} // verus!
