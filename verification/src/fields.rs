//! Cutting a line of bytes into the fields between separators.

use vstd::prelude::*;
use vstd::slice::slice_subrange;

verus! {

/// The position of the first `sep` in `s`, or the length of `s` where `s`
/// holds none.
pub open spec fn first_position(s: Seq<u8>, sep: u8) -> int
    decreases s.len(),
{
    if s.len() == 0 || s[0] == sep {
        0
    } else {
        1 + first_position(s.drop_first(), sep)
    }
}

/// The `k`-th field of `s`, counted from 0, where each `sep` ends one field
/// and starts the next. Two separators in a row enclose an empty field. There
/// is no such field when `s` holds fewer than `k` separators.
pub open spec fn field(s: Seq<u8>, sep: u8, k: nat) -> Option<Seq<u8>>
    decreases k,
{
    let end = first_position(s, sep);
    if k == 0 {
        Some(s.take(end))
    } else if end >= s.len() {
        None
    } else {
        field(s.skip(end + 1), sep, (k - 1) as nat)
    }
}

/// The part of `s` in front of its first `mark`, if `s` holds one.
pub open spec fn before_mark(s: Seq<u8>, mark: u8) -> Option<Seq<u8>> {
    let end = first_position(s, mark);
    if end < s.len() {
        Some(s.take(end))
    } else {
        None
    }
}

/// `s` without the run of `b` at its end.
pub open spec fn without_trailing(s: Seq<u8>, b: u8) -> Seq<u8>
    decreases s.len(),
{
    if s.len() > 0 && s.last() == b {
        without_trailing(s.drop_last(), b)
    } else {
        s
    }
}

/// `first_position` is the one index that holds `sep` with no `sep` in front
/// of it, or the length where there is no `sep` at all.
pub proof fn lemma_first_position(s: Seq<u8>, sep: u8, i: int)
    requires
        0 <= i <= s.len(),
        forall|j: int| 0 <= j < i ==> s[j] != sep,
        i < s.len() ==> s[i] == sep,
    ensures
        first_position(s, sep) == i,
    decreases i,
{
    if i > 0 {
        let rest = s.drop_first();
        assert forall|j: int| 0 <= j < i - 1 implies rest[j] != sep by {
            assert(rest[j] == s[j + 1]);
        }
        lemma_first_position(rest, sep, i - 1);
    }
}

/// The index of the first `sep` in `line` at or after `start`, or the length
/// of `line` where none follows.
fn find_from(line: &[u8], sep: u8, start: usize) -> (end: usize)
    requires
        start <= line.len(),
    ensures
        start <= end <= line.len(),
        end - start == first_position(line@.skip(start as int), sep),
{
    let mut i: usize = start;
    while i < line.len() && line[i] != sep
        invariant
            start <= i <= line.len(),
            forall|j: int| start <= j < i ==> line@[j] != sep,
        decreases line.len() - i,
    {
        i = i + 1;
    }
    proof {
        lemma_first_position(line@.skip(start as int), sep, i - start);
    }
    i
}

/// The `k`-th field of `line` between the separators `sep`, counted from 0.
pub fn nth_field(line: &[u8], sep: u8, k: usize) -> (r: Option<&[u8]>)
    ensures
        match r {
            Some(f) => field(line@, sep, k as nat) == Some(f@),
            None => field(line@, sep, k as nat) is None,
        },
{
    let mut start: usize = 0;
    let mut left: usize = k;
    assert(line@.skip(0) == line@);
    loop
        invariant
            start <= line.len(),
            left <= k,
            field(line@, sep, k as nat) == field(line@.skip(start as int), sep, left as nat),
        decreases left,
    {
        let end = find_from(line, sep, start);
        if left == 0 {
            assert(line@.skip(start as int).take(end - start) == line@.subrange(
                start as int,
                end as int,
            ));
            return Some(slice_subrange(line, start, end));
        }
        if end == line.len() {
            return None;
        }
        assert(line@.skip(start as int).skip(end - start + 1) == line@.skip(end + 1));
        start = end + 1;
        left = left - 1;
    }
}

/// The part of `s` in front of its first `mark`.
pub fn prefix_before(s: &[u8], mark: u8) -> (r: Option<&[u8]>)
    ensures
        match r {
            Some(p) => before_mark(s@, mark) == Some(p@),
            None => before_mark(s@, mark) is None,
        },
{
    let end = find_from(s, mark, 0);
    assert(s@.skip(0) == s@);
    if end < s.len() {
        assert(s@.take(end as int) == s@.subrange(0, end as int));
        Some(slice_subrange(s, 0, end))
    } else {
        None
    }
}

/// `s` without the run of `b` at its end.
pub fn trim_trailing(s: &[u8], b: u8) -> (r: &[u8])
    ensures
        r@ == without_trailing(s@, b),
{
    let mut end: usize = s.len();
    assert(s@.take(end as int) == s@);
    while end > 0 && s[end - 1] == b
        invariant
            end <= s.len(),
            without_trailing(s@, b) == without_trailing(s@.take(end as int), b),
        decreases end,
    {
        assert(s@.take(end as int).drop_last() == s@.take(end - 1));
        end = end - 1;
    }
    assert(s@.take(end as int) == s@.subrange(0, end as int));
    slice_subrange(s, 0, end)
}

} // verus!
