//! Character-level text scanning: string equality, tab-field splitting and
//! decimal parsing, each reflected into a spec-level model of the text.

use vstd::prelude::*;
use vstd::string::StrSliceExecFns;

verus! {

/// Whether `c` is a decimal digit.
pub open spec fn is_dec_digit(c: char) -> bool {
    '0' <= c && c <= '9'
}

/// The numeric value of a decimal digit (0 for any other character).
pub open spec fn dec_digit_val(c: char) -> nat {
    if is_dec_digit(c) {
        (c as int - '0' as int) as nat
    } else {
        0
    }
}

/// Whether every character of `s` is a decimal digit.
pub open spec fn all_dec_digits(s: Seq<char>) -> bool {
    forall|i: int| 0 <= i < s.len() ==> is_dec_digit(#[trigger] s[i])
}

/// The value of `s` read as a decimal numeral, most significant digit first.
pub open spec fn dec_val(s: Seq<char>) -> nat
    decreases s.len(),
{
    if s.len() == 0 {
        0
    } else {
        dec_val(s.drop_last()) * 10 + dec_digit_val(s.last())
    }
}

/// Whether `s` is a decimal numeral for a value that fits in a `u64`:
/// non-empty, digits only, and at most `u64::MAX`.
pub open spec fn is_dec_u64(s: Seq<char>) -> bool {
    s.len() > 0 && all_dec_digits(s) && dec_val(s) <= u64::MAX
}

/// The index of the first tab character of `s`, or `s.len()` if none occurs.
pub open spec fn first_tab(s: Seq<char>) -> int
    decreases s.len(),
{
    if s.len() == 0 {
        0
    } else if s[0] == '\t' {
        0
    } else {
        1 + first_tab(s.drop_first())
    }
}

proof fn lemma_first_tab_bounds(s: Seq<char>)
    ensures
        0 <= first_tab(s) <= s.len(),
    decreases s.len(),
{
    if s.len() != 0 && s[0] != '\t' {
        lemma_first_tab_bounds(s.drop_first());
    }
}

/// `first_tab` is pinned down by a tab-free prefix followed by a tab (or the
/// end of the text).
proof fn lemma_first_tab_at(s: Seq<char>, i: int)
    requires
        0 <= i <= s.len(),
        forall|j: int| 0 <= j < i ==> s[j] != '\t',
        i < s.len() ==> s[i] == '\t',
    ensures
        first_tab(s) == i,
    decreases s.len(),
{
    if s.len() == 0 {
    } else if s[0] == '\t' {
        assert(i == 0);
    } else {
        assert(i >= 1);
        let t = s.drop_first();
        assert forall|j: int| 0 <= j < i - 1 implies t[j] != '\t' by {
            assert(t[j] == s[j + 1]);
        }
        if i - 1 < t.len() {
            assert(t[i - 1] == s[i]);
        }
        lemma_first_tab_at(t, i - 1);
    }
}

#[via_fn]
proof fn split_tabs_decreases(s: Seq<char>) {
    lemma_first_tab_bounds(s);
}

/// `s` split on tab characters: its fields, in order. Always at least one
/// field; a text with k tabs has k + 1 fields.
pub open spec fn split_tabs(s: Seq<char>) -> Seq<Seq<char>>
    decreases s.len(),
    via split_tabs_decreases
{
    let i = first_tab(s);
    if i == s.len() {
        seq![s]
    } else {
        seq![s.subrange(0, i)] + split_tabs(s.subrange(i + 1, s.len() as int))
    }
}

/// A split never yields an empty field list.
pub proof fn lemma_split_tabs_len_pos(s: Seq<char>)
    ensures
        split_tabs(s).len() >= 1,
{
    lemma_first_tab_bounds(s);
}

/// Character-by-character string equality, reflected into the views.
pub fn str_eq(a: &str, b: &str) -> (r: bool)
    ensures
        r == (a@ == b@),
{
    let an = a.unicode_len();
    let bn = b.unicode_len();
    if an != bn {
        return false;
    }
    let mut i: usize = 0;
    while i < an
        invariant
            i <= an,
            an == a@.len(),
            an == b@.len(),
            forall|j: int| 0 <= j < i ==> a@[j] == b@[j],
        decreases an - i,
    {
        if a.get_char(i) != b.get_char(i) {
            return false;
        }
        i += 1;
    }
    proof {
        assert(a@ =~= b@);
    }
    true
}

/// The index of the first tab of `s`, or its length when it has none.
pub fn find_tab(s: &str) -> (i: usize)
    ensures
        i == first_tab(s@),
        i <= s@.len(),
{
    let n = s.unicode_len();
    let mut i: usize = 0;
    while i < n
        invariant
            i <= n,
            n == s@.len(),
            forall|j: int| 0 <= j < i ==> s@[j] != '\t',
        decreases n - i,
    {
        if s.get_char(i) == '\t' {
            proof {
                lemma_first_tab_at(s@, i as int);
            }
            return i;
        }
        i += 1;
    }
    proof {
        lemma_first_tab_at(s@, i as int);
    }
    i
}

/// Splits `s` at its first tab: the leading field, and the remainder after
/// the tab (`None` when `s` holds no tab).
pub fn split_first<'a>(s: &'a str) -> (res: (&'a str, Option<&'a str>))
    ensures
        res.0@ == s@.subrange(0, first_tab(s@)),
        match res.1 {
            Some(rest) => first_tab(s@) < s@.len() && rest@ == s@.subrange(
                first_tab(s@) + 1,
                s@.len() as int,
            ),
            None => first_tab(s@) == s@.len(),
        },
{
    let n = s.unicode_len();
    let i = find_tab(s);
    let head = s.substring_char(0, i);
    if i < n {
        let tail = s.substring_char(i + 1, n);
        (head, Some(tail))
    } else {
        (head, None)
    }
}

/// A decimal numeral's value only grows as digits are appended: any prefix
/// reads as at most the whole.
proof fn lemma_dec_val_prefix_le(s: Seq<char>, i: int)
    requires
        0 <= i <= s.len(),
        all_dec_digits(s),
    ensures
        dec_val(s.subrange(0, i)) <= dec_val(s),
    decreases s.len() - i,
{
    if i < s.len() {
        lemma_dec_val_prefix_le(s, i + 1);
        let t = s.subrange(0, i + 1);
        assert(t.drop_last() =~= s.subrange(0, i));
        assert(t.last() == s[i]);
        assert(dec_val(t) == dec_val(s.subrange(0, i)) * 10 + dec_digit_val(s[i]));
        assert(dec_val(s.subrange(0, i)) <= dec_val(t));
    } else {
        assert(s.subrange(0, i) =~= s);
    }
}

/// Parses `s` as a non-negative decimal `u64`. Succeeds exactly on the
/// numerals `is_dec_u64` describes, and then returns their value.
pub fn parse_u64(s: &str) -> (r: Option<u64>)
    ensures
        match r {
            Some(v) => is_dec_u64(s@) && v == dec_val(s@),
            None => !is_dec_u64(s@),
        },
{
    let n = s.unicode_len();
    if n == 0 {
        return None;
    }
    let mut acc: u64 = 0;
    let mut i: usize = 0;
    while i < n
        invariant
            i <= n,
            n == s@.len(),
            all_dec_digits(s@.subrange(0, i as int)),
            acc == dec_val(s@.subrange(0, i as int)),
        decreases n - i,
    {
        let c = s.get_char(i);
        if c < '0' || c > '9' {
            return None;
        }
        let d: u64 = (c as u32 - '0' as u32) as u64;
        proof {
            let pfx = s@.subrange(0, i as int);
            let pfx1 = s@.subrange(0, i as int + 1);
            assert(pfx1.drop_last() =~= pfx);
            assert(pfx1.last() == s@[i as int]);
            assert forall|j: int| 0 <= j < pfx1.len() implies is_dec_digit(pfx1[j]) by {
                if j < i as int {
                    assert(pfx1[j] == pfx[j]);
                } else {
                    assert(pfx1[j] == s@[i as int]);
                }
            }
            assert(dec_val(pfx1) == dec_val(pfx) * 10 + dec_digit_val(s@[i as int]));
        }
        if acc > 1844674407370955161 || (acc == 1844674407370955161 && d > 5) {
            proof {
                if all_dec_digits(s@) {
                    lemma_dec_val_prefix_le(s@, i as int + 1);
                }
            }
            return None;
        }
        acc = acc * 10 + d;
        i += 1;
    }
    proof {
        assert(s@.subrange(0, n as int) =~= s@);
    }
    Some(acc)
}

} // verus!
