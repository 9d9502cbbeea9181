//! Whitespace trimming over character sequences: the leading and the
//! trailing run of whitespace are dropped, and nothing inside.

use vstd::prelude::*;

verus! {

/// Whether a character counts as whitespace; the meaning is fixed by
/// `char::is_whitespace` and named here so contracts can speak of it.
pub uninterp spec fn char_is_whitespace(c: char) -> bool;

/// Relies on `char::is_whitespace`: whether the character has the
/// Unicode `White_Space` property, a function of the character alone.
#[verifier::external_body]
pub(crate) fn is_whitespace_char(c: char) -> (r: bool)
    ensures
        r == char_is_whitespace(c),
{
    c.is_whitespace()
}

/// The length of the run of whitespace at the start of `s`.
pub open spec fn ws_prefix_len(s: Seq<char>) -> int
    decreases s.len(),
{
    if s.len() == 0 {
        0
    } else if char_is_whitespace(s[0]) {
        1 + ws_prefix_len(s.drop_first())
    } else {
        0
    }
}

/// The length of the run of whitespace at the end of `s`.
pub open spec fn ws_suffix_len(s: Seq<char>) -> int
    decreases s.len(),
{
    if s.len() == 0 {
        0
    } else if char_is_whitespace(s.last()) {
        1 + ws_suffix_len(s.drop_last())
    } else {
        0
    }
}

/// `s` with its leading and trailing whitespace removed.
pub open spec fn spec_trim(s: Seq<char>) -> Seq<char> {
    if ws_prefix_len(s) == s.len() {
        Seq::empty()
    } else {
        s.subrange(ws_prefix_len(s), s.len() - ws_suffix_len(s))
    }
}

pub proof fn lemma_ws_prefix_bounds(s: Seq<char>)
    ensures
        0 <= ws_prefix_len(s) <= s.len(),
        forall|j: int| 0 <= j < ws_prefix_len(s) ==> char_is_whitespace(s[j]),
        ws_prefix_len(s) < s.len() ==> !char_is_whitespace(s[ws_prefix_len(s)]),
    decreases s.len(),
{
    if s.len() > 0 && char_is_whitespace(s[0]) {
        lemma_ws_prefix_bounds(s.drop_first());
        assert forall|j: int| 0 <= j < ws_prefix_len(s) implies char_is_whitespace(s[j]) by {
            if j >= 1 {
                assert(char_is_whitespace(s.drop_first()[j - 1]));
            }
        }
    }
}

pub proof fn lemma_ws_prefix_determined(s: Seq<char>, i: int)
    requires
        0 <= i <= s.len(),
        forall|j: int| 0 <= j < i ==> char_is_whitespace(s[j]),
        i < s.len() ==> !char_is_whitespace(s[i]),
    ensures
        ws_prefix_len(s) == i,
    decreases s.len(),
{
    if s.len() > 0 && char_is_whitespace(s[0]) {
        assert(i >= 1);
        assert(forall|j: int| 0 <= j < s.len() - 1 ==> s.drop_first()[j] == s[j + 1]);
        lemma_ws_prefix_determined(s.drop_first(), i - 1);
    }
}

pub proof fn lemma_ws_suffix_bounds(s: Seq<char>)
    ensures
        0 <= ws_suffix_len(s) <= s.len(),
        forall|j: int| s.len() - ws_suffix_len(s) <= j < s.len() ==> char_is_whitespace(s[j]),
        ws_suffix_len(s) < s.len() ==> !char_is_whitespace(s[s.len() - 1 - ws_suffix_len(s)]),
    decreases s.len(),
{
    if s.len() > 0 && char_is_whitespace(s.last()) {
        lemma_ws_suffix_bounds(s.drop_last());
        assert(forall|j: int| 0 <= j < s.len() - 1 ==> s.drop_last()[j] == s[j]);
    }
}

pub proof fn lemma_ws_suffix_determined(s: Seq<char>, k: int)
    requires
        0 <= k <= s.len(),
        forall|j: int| s.len() - k <= j < s.len() ==> char_is_whitespace(s[j]),
        k < s.len() ==> !char_is_whitespace(s[s.len() - 1 - k]),
    ensures
        ws_suffix_len(s) == k,
    decreases s.len(),
{
    if s.len() > 0 && char_is_whitespace(s.last()) {
        assert(k >= 1);
        assert(forall|j: int| 0 <= j < s.len() - 1 ==> s.drop_last()[j] == s[j]);
        lemma_ws_suffix_determined(s.drop_last(), k - 1);
    }
}

/// When some character of `s` is not whitespace, the trimmed range is
/// non-empty and sits inside `s`.
pub proof fn lemma_trim_range(s: Seq<char>)
    requires
        ws_prefix_len(s) < s.len(),
    ensures
        0 <= ws_prefix_len(s) < s.len() - ws_suffix_len(s) <= s.len(),
        spec_trim(s).len() > 0,
{
    lemma_ws_prefix_bounds(s);
    lemma_ws_suffix_bounds(s);
    let a = ws_prefix_len(s);
    let b = ws_suffix_len(s);
    if s.len() - b <= a {
        assert(char_is_whitespace(s[a]));
        assert(false);
    }
}

/// Trimming drops exactly the leading and trailing whitespace runs.
pub fn trim_to_string(s: &str) -> (r: String)
    ensures
        r@ == spec_trim(s@),
{
    let n = s.unicode_len();
    let mut start: usize = 0;
    while start < n && is_whitespace_char(s.get_char(start))
        invariant
            0 <= start <= n,
            n == s@.len(),
            forall|j: int| 0 <= j < start ==> char_is_whitespace(s@[j]),
        decreases n - start,
    {
        start = start + 1;
    }
    proof {
        lemma_ws_prefix_determined(s@, start as int);
    }
    if start == n {
        return String::new();
    }
    let mut end: usize = n;
    while is_whitespace_char(s.get_char(end - 1))
        invariant
            start < end <= n,
            n == s@.len(),
            !char_is_whitespace(s@[start as int]),
            forall|j: int| end <= j < n ==> char_is_whitespace(s@[j]),
        decreases end,
    {
        end = end - 1;
    }
    proof {
        lemma_ws_suffix_determined(s@, n - end as int);
        lemma_trim_range(s@);
    }
    let t = s.substring_char(start, end);
    t.to_owned()
}

/// Trimming is idempotent: a trimmed sequence trims to itself.
pub proof fn lemma_trim_idempotent(s: Seq<char>)
    ensures
        spec_trim(spec_trim(s)) == spec_trim(s),
{
    let t = spec_trim(s);
    if ws_prefix_len(s) == s.len() {
        lemma_ws_prefix_determined(t, 0);
        assert(t =~= Seq::<char>::empty());
    } else {
        lemma_ws_prefix_bounds(s);
        lemma_trim_range(s);
        lemma_ws_prefix_bounds(s);
        lemma_ws_suffix_bounds(s);
        assert(!char_is_whitespace(t[0]));
        assert(!char_is_whitespace(t[t.len() - 1]));
        lemma_ws_prefix_determined(t, 0);
        lemma_ws_suffix_determined(t, 0);
        assert(spec_trim(t) =~= t);
    }
}

} // verus!
