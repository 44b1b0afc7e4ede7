//! The base address of a page, read from its `base` element.

use crate::text::{chars_of, slice_of, string_of};
use vstd::prelude::*;

verus! {

/// Whether `pat` stands in `s` at position `i`.
pub open spec fn spec_stands_at(s: Seq<char>, pat: Seq<char>, i: int) -> bool {
    0 <= i && i + pat.len() <= s.len() && s.subrange(i, i + pat.len()) == pat
}

/// Whether `pat` stands in `s` at position `i`.
pub fn stands_at(s: &[char], pat: &[char], i: usize) -> (r: bool)
    ensures
        r == spec_stands_at(s@, pat@, i as int),
{
    if i > s.len() || pat.len() > s.len() - i {
        return false;
    }
    let n = s.len();
    let mut k: usize = 0;
    while k < pat.len()
        invariant
            k <= pat@.len(),
            n == s@.len(),
            i + pat@.len() <= s@.len(),
            s@.subrange(i as int, i + k) == pat@.subrange(0, k as int),
        decreases pat@.len() - k,
    {
        if s[i + k] != pat[k] {
            assert(s@.subrange(i as int, i + pat@.len())[k as int] != pat@[k as int]);
            return false;
        }
        k += 1;
        assert(s@.subrange(i as int, i + k) =~= s@.subrange(i as int, i + k - 1).push(
            s@[i + k - 1],
        ));
        assert(pat@.subrange(0, k as int) =~= pat@.subrange(0, k - 1).push(pat@[k - 1]));
    }
    assert(pat@.subrange(0, pat@.len() as int) =~= pat@);
    true
}

/// The first position at or after `from` at which `pat` stands in `s`, or
/// the length of `s` where it stands at none.
pub open spec fn spec_find_sub(s: Seq<char>, pat: Seq<char>, from: int) -> int
    decreases s.len() - from,
{
    if from >= s.len() {
        s.len() as int
    } else if spec_stands_at(s, pat, from) {
        from
    } else {
        spec_find_sub(s, pat, from + 1)
    }
}

/// The first position at or after `from` at which `pat` stands in `s`, or
/// the length of `s` where it stands at none.
pub fn find_sub(s: &[char], pat: &[char], from: usize) -> (r: usize)
    requires
        from <= s@.len(),
    ensures
        r == spec_find_sub(s@, pat@, from as int),
        from <= r <= s@.len(),
{
    let mut i: usize = from;
    while i < s.len()
        invariant
            from <= i <= s@.len(),
            spec_find_sub(s@, pat@, from as int) == spec_find_sub(s@, pat@, i as int),
        decreases s@.len() - i,
    {
        if stands_at(s, pat, i) {
            return i;
        }
        i += 1;
    }
    i
}

/// Whether a text may serve as a base address: it ends in a slash and holds
/// no quote, double quote or ampersand.
pub open spec fn spec_is_base(href: Seq<char>) -> bool {
    &&& href.len() > 0
    &&& href.last() == '/'
    &&& forall|i: int|
        0 <= i < href.len() ==> (#[trigger] href[i]) != '\'' && href[i] != '"' && href[i] != '&'
}

/// Whether a text may serve as a base address.
pub fn is_base(href: &[char]) -> (r: bool)
    ensures
        r == spec_is_base(href@),
{
    if href.len() == 0 || href[href.len() - 1] != '/' {
        return false;
    }
    let mut i: usize = 0;
    while i < href.len()
        invariant
            i <= href@.len(),
            forall|k: int|
                0 <= k < i ==> (#[trigger] href@[k]) != '\'' && href@[k] != '"' && href@[k] != '&',
        decreases href@.len() - i,
    {
        let c = href[i];
        if c == '\'' || c == '"' || c == '&' {
            return false;
        }
        i += 1;
    }
    true
}

/// The base address that a page declares: the text between the first
/// `<base href="` and the first `" />` after it, where both are there and
/// the text may serve as a base address; else nothing.
pub open spec fn spec_parse_base_href(html: Seq<char>) -> Seq<char> {
    let open = "<base href=\""@;
    let close = "\" />"@;
    let at = spec_find_sub(html, open, 0);
    if at >= html.len() {
        seq![]
    } else {
        let start = at + open.len();
        let end = spec_find_sub(html, close, start);
        if end >= html.len() || start > end {
            seq![]
        } else if spec_is_base(html.subrange(start, end)) {
            html.subrange(start, end)
        } else {
            seq![]
        }
    }
}

/// The base address that a page declares, or nothing.
pub fn parse_base_href(html: &str) -> (r: String)
    ensures
        r@ == spec_parse_base_href(html@),
{
    let s = chars_of(html);
    let open = chars_of("<base href=\"");
    let close = chars_of("\" />");
    let at = find_sub(s.as_slice(), open.as_slice(), 0);
    if at >= s.len() {
        return String::new();
    }
    assert(spec_stands_at(s@, open@, at as int)) by {
        lemma_find_sub(s@, open@, 0);
    }
    let start = at + open.len();
    let end = find_sub(s.as_slice(), close.as_slice(), start);
    if end >= s.len() {
        return String::new();
    }
    let href = slice_of(s.as_slice(), start, end);
    if is_base(href.as_slice()) {
        string_of(href.as_slice())
    } else {
        String::new()
    }
}

/// What `spec_find_sub` finds is a position at which the pattern stands,
/// and the first one from `from` on; where it finds nothing, the pattern
/// stands nowhere from `from` on.
pub proof fn lemma_find_sub(s: Seq<char>, pat: Seq<char>, from: int)
    requires
        0 <= from <= s.len(),
    ensures
        from <= spec_find_sub(s, pat, from) <= s.len(),
        spec_find_sub(s, pat, from) < s.len() ==> spec_stands_at(
            s,
            pat,
            spec_find_sub(s, pat, from),
        ),
        forall|k: int| from <= k < spec_find_sub(s, pat, from) ==> !spec_stands_at(s, pat, k),
    decreases s.len() - from,
{
    if from < s.len() && !spec_stands_at(s, pat, from) {
        lemma_find_sub(s, pat, from + 1);
    }
}

} // verus!
