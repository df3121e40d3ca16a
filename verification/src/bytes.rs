//! Copying byte ranges, with the copied range pinned down.

use vstd::prelude::*;

verus! {

/// Appends `src[start..end]` to `dst`.
pub(crate) fn copy_range(dst: &mut Vec<u8>, src: &[u8], start: usize, end: usize)
    requires
        start <= end <= src@.len(),
    ensures
        final(dst)@ == old(dst)@ + src@.subrange(start as int, end as int),
{
    let mut j: usize = start;
    while j < end
        invariant
            start <= j <= end <= src@.len(),
            dst@ == old(dst)@ + src@.subrange(start as int, j as int),
        decreases end - j,
    {
        let b = src[j];
        dst.push(b);
        proof {
            assert(src@.subrange(start as int, j + 1int) =~= src@.subrange(
                start as int,
                j as int,
            ).push(src@[j as int]));
            assert(dst@ =~= old(dst)@ + src@.subrange(start as int, j + 1int));
        }
        j += 1;
    }
    proof {
        assert(dst@ =~= old(dst)@ + src@.subrange(start as int, end as int));
    }
}

} // verus!
