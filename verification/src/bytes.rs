//! Copying ranges of bytes.

use vstd::prelude::*;

verus! {

/// Appends `src[from..to]` to `out`.
pub fn append_range(out: &mut Vec<u8>, src: &[u8], from: usize, to: usize)
    requires
        from <= to <= src@.len(),
    ensures
        final(out)@ == old(out)@ + src@.subrange(from as int, to as int),
{
    let mut i: usize = from;
    while i < to
        invariant
            from <= i <= to <= src@.len(),
            out@ == old(out)@ + src@.subrange(from as int, i as int),
        decreases to - i,
    {
        out.push(src[i]);
        assert(src@.subrange(from as int, i + 1) == src@.subrange(from as int, i as int).push(
            src@[i as int],
        ));
        i += 1;
    }
}

/// The bytes `src[from..to]`.
pub fn copy_range(src: &[u8], from: usize, to: usize) -> (out: Vec<u8>)
    requires
        from <= to <= src@.len(),
    ensures
        out@ == src@.subrange(from as int, to as int),
{
    let mut out: Vec<u8> = Vec::new();
    append_range(&mut out, src, from, to);
    out
}

} // verus!
