//! Byte-level helpers for fixed-column ASCII text.

use vstd::prelude::*;

verus! {

/// The elements of `s` from `start` up to `end`.
pub fn span(s: &[u8], start: usize, end: usize) -> (r: &[u8])
    requires
        start <= end <= s@.len(),
    ensures
        r@ == s@.subrange(start as int, end as int),
{
    let (a, _b) = s.split_at(end);
    let (_c, d) = a.split_at(start);
    assert(d@ =~= s@.subrange(start as int, end as int));
    d
}

/// Appends every element of `s` to `out`.
pub fn push_all(out: &mut Vec<u8>, s: &[u8])
    ensures
        final(out)@ == old(out)@ + s@,
{
    let mut i: usize = 0;
    while i < s.len()
        invariant
            i <= s@.len(),
            out@ == old(out)@ + s@.subrange(0, i as int),
        decreases s@.len() - i,
    {
        out.push(s[i]);
        i = i + 1;
        assert(out@ =~= old(out)@ + s@.subrange(0, i as int));
    }
    assert(s@.subrange(0, s@.len() as int) =~= s@);
}

} // verus!
