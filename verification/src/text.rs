//! Conversions between strings and character vectors, and the splitting of
//! catalog text into rows and fields.

use vstd::prelude::*;
use vstd::std_specs::iter::IteratorSpec;

verus! {

/// `String::push` appends one character to the end of the string.
pub assume_specification[ String::push ](s: &mut String, c: char)
    ensures
        final(s)@ == old(s)@.push(c),
;

/// The characters of `s`, in order.
pub fn chars_of(s: &str) -> (r: Vec<char>)
    ensures
        r@ == s@,
{
    broadcast use vstd::string::group_string_axioms;

    let mut it = s.chars();
    let mut r: Vec<char> = Vec::new();
    loop
        invariant
            r@ + it.remaining() == s@,
            it.decrease() is Some,
        decreases it.decrease()->0,
    {
        let ghost before = it.remaining();
        match it.next() {
            Some(c) => {
                r.push(c);
                assert(r@ + it.remaining() =~= s@) by {
                    assert(before =~= seq![c] + before.drop_first());
                }
            },
            None => {
                assert(r@ + it.remaining() =~= r@);
                return r;
            },
        }
    }
}

/// The string made of the characters of `v`, in order.
pub fn string_of(v: &[char]) -> (r: String)
    ensures
        r@ == v@,
{
    let mut r = String::new();
    let mut i: usize = 0;
    while i < v.len()
        invariant
            i <= v@.len(),
            r@ == v@.subrange(0, i as int),
        decreases v@.len() - i,
    {
        r.push(v[i]);
        i += 1;
        assert(r@ =~= v@.subrange(0, i as int));
    }
    assert(v@.subrange(0, v@.len() as int) =~= v@);
    r
}

/// Whether `a` holds exactly the characters of `s`.
pub fn eq_str(a: &[char], s: &str) -> (r: bool)
    ensures
        r == (a@ == s@),
{
    let n = s.unicode_len();
    if a.len() != n {
        return false;
    }
    let mut i: usize = 0;
    while i < n
        invariant
            n == s@.len(),
            n == a@.len(),
            i <= n,
            a@.subrange(0, i as int) == s@.subrange(0, i as int),
        decreases n - i,
    {
        if a[i] != s.get_char(i) {
            return false;
        }
        i += 1;
        assert(a@.subrange(0, i as int) =~= a@.subrange(0, i - 1).push(a@[i - 1]));
        assert(s@.subrange(0, i as int) =~= s@.subrange(0, i - 1).push(s@[i - 1]));
    }
    assert(a@ =~= a@.subrange(0, n as int));
    assert(s@ =~= s@.subrange(0, n as int));
    true
}

/// The characters of `v` from `from` up to, not including, `to`.
pub fn slice_of(v: &[char], from: usize, to: usize) -> (r: Vec<char>)
    requires
        from <= to <= v@.len(),
    ensures
        r@ == v@.subrange(from as int, to as int),
{
    let mut r: Vec<char> = Vec::new();
    let mut i: usize = from;
    while i < to
        invariant
            from <= i <= to <= v@.len(),
            r@ == v@.subrange(from as int, i as int),
        decreases to - i,
    {
        r.push(v[i]);
        i += 1;
        assert(r@ =~= v@.subrange(from as int, i as int));
    }
    r
}

/// A copy of the characters of `v`.
pub fn copy_of(v: &[char]) -> (r: Vec<char>)
    ensures
        r@ == v@,
{
    assert(v@.subrange(0, v@.len() as int) =~= v@);
    slice_of(v, 0, v.len())
}

/// The views of a sequence of character vectors.
pub open spec fn views(v: Seq<Vec<char>>) -> Seq<Seq<char>> {
    v.map_values(|x: Vec<char>| x@)
}

/// The position of the first `c` in `s` at or after `from`, or the length of
/// `s` where there is none.
pub open spec fn spec_find(s: Seq<char>, c: char, from: int) -> int
    decreases s.len() - from,
{
    if from >= s.len() {
        s.len() as int
    } else if s[from] == c {
        from
    } else {
        spec_find(s, c, from + 1)
    }
}

/// What `spec_find` returns lies between `from` and the end, marks a `c`
/// unless it is the end, and no `c` stands before it.
pub proof fn lemma_find(s: Seq<char>, c: char, from: int)
    requires
        0 <= from <= s.len(),
    ensures
        from <= spec_find(s, c, from) <= s.len(),
        spec_find(s, c, from) < s.len() ==> s[spec_find(s, c, from)] == c,
        forall|k: int| from <= k < spec_find(s, c, from) ==> s[k] != c,
    decreases s.len() - from,
{
    if from < s.len() && s[from] != c {
        lemma_find(s, c, from + 1);
    }
}

/// The position of the first `c` in `s` at or after `from`, or the length of
/// `s` where there is none.
pub fn find(s: &[char], c: char, from: usize) -> (r: usize)
    requires
        from <= s@.len(),
    ensures
        r == spec_find(s@, c, from as int),
        from <= r <= s@.len(),
{
    let mut i: usize = from;
    while i < s.len() && s[i] != c
        invariant
            from <= i <= s@.len(),
            spec_find(s@, c, from as int) == spec_find(s@, c, i as int),
        decreases s@.len() - i,
    {
        i += 1;
    }
    i
}

/// The pieces into which the occurrences of `sep` at or after `from` cut
/// the rest of `s`.  There is always at least one piece.
pub open spec fn spec_split_from(s: Seq<char>, sep: char, from: int) -> Seq<Seq<char>>
    decreases s.len() - from,
{
    let i = spec_find(s, sep, from);
    if from <= i < s.len() {
        seq![s.subrange(from, i)] + spec_split_from(s, sep, i + 1)
    } else {
        seq![s.subrange(from, s.len() as int)]
    }
}

/// The pieces into which the occurrences of `sep` cut `s`: one more than
/// there are occurrences, empty pieces included.
pub open spec fn spec_split(s: Seq<char>, sep: char) -> Seq<Seq<char>> {
    spec_split_from(s, sep, 0)
}

/// The pieces into which the occurrences of `sep` cut `s`.
pub fn split(s: &[char], sep: char) -> (r: Vec<Vec<char>>)
    ensures
        views(r@) == spec_split(s@, sep),
{
    let mut r: Vec<Vec<char>> = Vec::new();
    let mut from: usize = 0;
    loop
        invariant
            from <= s@.len(),
            views(r@) + spec_split_from(s@, sep, from as int) == spec_split(s@, sep),
        decreases s@.len() - from,
    {
        let i = find(s, sep, from);
        let piece = slice_of(s, from, i);
        let ghost before = views(r@);
        r.push(piece);
        assert(views(r@) =~= before.push(piece@));
        if i >= s.len() {
            assert(views(r@) =~= spec_split(s@, sep));
            return r;
        }
        assert(views(r@) + spec_split_from(s@, sep, i + 1) =~= before + spec_split_from(
            s@,
            sep,
            from as int,
        ));
        from = i + 1;
    }
}

/// `s` without the run of `c` at its end.
pub open spec fn spec_trim_end(s: Seq<char>, c: char) -> Seq<char>
    decreases s.len(),
{
    if s.len() > 0 && s.last() == c {
        spec_trim_end(s.drop_last(), c)
    } else {
        s
    }
}

/// `s` without the run of `c` at its end.
pub fn trim_end(s: &[char], c: char) -> (r: Vec<char>)
    ensures
        r@ == spec_trim_end(s@, c),
{
    let mut n: usize = s.len();
    assert(s@.subrange(0, s@.len() as int) =~= s@);
    while n > 0 && s[n - 1] == c
        invariant
            n <= s@.len(),
            spec_trim_end(s@, c) == spec_trim_end(s@.subrange(0, n as int), c),
        decreases n,
    {
        assert(s@.subrange(0, n as int).drop_last() =~= s@.subrange(0, n - 1));
        n -= 1;
    }
    slice_of(s, 0, n)
}

/// The line from `from` to the line feed at `end`, without the carriage
/// return that may stand just before the line feed.
pub open spec fn spec_line(s: Seq<char>, from: int, end: int) -> Seq<char> {
    if from < end && s[end - 1] == '\r' {
        s.subrange(from, end - 1)
    } else {
        s.subrange(from, end)
    }
}

/// The lines of the rest of `s` from `from` on.
pub open spec fn spec_lines_from(s: Seq<char>, from: int) -> Seq<Seq<char>>
    decreases s.len() - from,
{
    let i = spec_find(s, '\n', from);
    if from >= s.len() {
        seq![]
    } else if from <= i < s.len() {
        seq![spec_line(s, from, i)] + spec_lines_from(s, i + 1)
    } else {
        seq![s.subrange(from, s.len() as int)]
    }
}

/// The lines of `s`.  A line ends at a line feed or at the end of the text;
/// the line feed, and a carriage return just before it, are not part of the
/// line.  Nothing follows a line feed at the very end.
pub open spec fn spec_lines(s: Seq<char>) -> Seq<Seq<char>> {
    spec_lines_from(s, 0)
}

/// The lines of `s`.
pub fn lines(s: &[char]) -> (r: Vec<Vec<char>>)
    ensures
        views(r@) == spec_lines(s@),
{
    let mut r: Vec<Vec<char>> = Vec::new();
    let mut from: usize = 0;
    while from < s.len()
        invariant
            from <= s@.len(),
            views(r@) + spec_lines_from(s@, from as int) == spec_lines(s@),
        decreases s@.len() - from,
    {
        let i = find(s, '\n', from);
        let end = if i < s.len() && from < i && s[i - 1] == '\r' {
            i - 1
        } else {
            i
        };
        let line = slice_of(s, from, end);
        let ghost before = views(r@);
        r.push(line);
        assert(views(r@) =~= before.push(line@));
        if i >= s.len() {
            assert(spec_lines_from(s@, from as int) =~= seq![line@]);
            assert(views(r@) =~= spec_lines(s@));
            return r;
        }
        assert(views(r@) + spec_lines_from(s@, i + 1) =~= before + spec_lines_from(
            s@,
            from as int,
        ));
        from = i + 1;
    }
    assert(views(r@) + spec_lines_from(s@, from as int) =~= views(r@));
    r
}

/// The value of a decimal digit, if the character is one.
pub open spec fn spec_digit(c: char) -> Option<int> {
    if '0' <= c <= '9' {
        Some(c as int - '0' as int)
    } else {
        None
    }
}

/// Whether every character is a decimal digit.
pub open spec fn spec_all_digits(s: Seq<char>) -> bool {
    forall|i: int| 0 <= i < s.len() ==> (#[trigger] spec_digit(s[i])) is Some
}

/// The number that a sequence of decimal digits writes.
pub open spec fn spec_decimal(s: Seq<char>) -> int
    decreases s.len(),
{
    if s.len() == 0 {
        0
    } else {
        spec_decimal(s.drop_last()) * 10 + spec_digit(s.last()).unwrap_or(0)
    }
}

/// The number that `s` writes in decimal digits, where it is one or more
/// digits and the number fits.
pub open spec fn spec_parse_u64(s: Seq<char>) -> Option<u64> {
    if s.len() > 0 && spec_all_digits(s) && spec_decimal(s) <= u64::MAX {
        Some(spec_decimal(s) as u64)
    } else {
        None
    }
}

/// A number in digits is not negative, and is at least the number that
/// fewer of its digits write.
pub proof fn lemma_decimal_grows(s: Seq<char>, n: int)
    requires
        0 <= n <= s.len(),
    ensures
        0 <= spec_decimal(s.subrange(0, n)) <= spec_decimal(s),
    decreases s.len() - n,
{
    lemma_decimal_nonnegative(s.subrange(0, n));
    if n < s.len() {
        assert(s.subrange(0, n + 1).drop_last() =~= s.subrange(0, n));
        lemma_decimal_grows(s, n + 1);
    } else {
        assert(s.subrange(0, n) =~= s);
    }
}

/// A number in digits is not negative.
pub proof fn lemma_decimal_nonnegative(s: Seq<char>)
    ensures
        0 <= spec_decimal(s),
    decreases s.len(),
{
    if s.len() > 0 {
        lemma_decimal_nonnegative(s.drop_last());
    }
}

/// The number that `s` writes in decimal digits, where it is one or more
/// digits and the number fits.
pub fn parse_u64(s: &[char]) -> (r: Option<u64>)
    ensures
        r == spec_parse_u64(s@),
{
    if s.len() == 0 {
        return None;
    }
    let mut value: u64 = 0;
    let mut i: usize = 0;
    while i < s.len()
        invariant
            i <= s@.len(),
            spec_all_digits(s@.subrange(0, i as int)),
            value == spec_decimal(s@.subrange(0, i as int)),
        decreases s@.len() - i,
    {
        let c = s[i];
        proof {
            assert(s@.subrange(0, i + 1).drop_last() =~= s@.subrange(0, i as int));
            lemma_decimal_grows(s@, i + 1);
        }
        if !('0' <= c && c <= '9') {
            assert(spec_digit(s@[i as int]) is None);
            return None;
        }
        let d: u64 = (c as u32 - '0' as u32) as u64;
        if value > (u64::MAX - d) / 10 {
            assert(spec_decimal(s@.subrange(0, i + 1)) > u64::MAX);
            assert(spec_all_digits(s@) ==> spec_digit(s@[i as int]) is Some);
            return None;
        }
        value = value * 10 + d;
        i += 1;
        assert forall|k: int| 0 <= k < i implies (#[trigger] spec_digit(
            s@.subrange(0, i as int)[k],
        )) is Some by {
            if k < i - 1 {
                assert(s@.subrange(0, i as int)[k] == s@.subrange(0, i - 1)[k]);
            }
        }
    }
    assert(s@.subrange(0, s@.len() as int) =~= s@);
    Some(value)
}

} // verus!
