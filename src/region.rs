use vstd::prelude::*;

verus! {

/// `n` zero bytes.
pub open spec fn zeros(n: nat) -> Seq<u8> {
    Seq::new(n, |i: int| 0u8)
}

/// Appends `n` zero bytes to `out`.
pub fn push_zeros(out: &mut Vec<u8>, n: usize)
    ensures
        final(out)@ == old(out)@ + zeros(n as nat),
{
    let mut i: usize = 0;
    while i < n
        invariant
            0 <= i <= n,
            out@ == old(out)@ + zeros(i as nat),
        decreases n - i,
    {
        out.push(0u8);
        i = i + 1;
        assert(out@ =~= old(out)@ + zeros(i as nat));
    }
}

/// Appends all of `src` to `out`.
pub fn extend_bytes(out: &mut Vec<u8>, src: &Vec<u8>)
    ensures
        final(out)@ == old(out)@ + src@,
{
    let mut i: usize = 0;
    while i < src.len()
        invariant
            0 <= i <= src@.len(),
            out@ == old(out)@ + src@.subrange(0, i as int),
        decreases src@.len() - i,
    {
        out.push(src[i]);
        i = i + 1;
        assert(out@ =~= old(out)@ + src@.subrange(0, i as int));
    }
    assert(src@.subrange(0, src@.len() as int) =~= src@);
}

/// Overwrites `e.len()` bytes of `data` from `start` on.
pub fn write_bytes(data: &mut Vec<u8>, start: usize, e: &Vec<u8>)
    requires
        start + e@.len() <= old(data)@.len(),
    ensures
        final(data)@ == old(data)@.subrange(0, start as int) + e@
            + old(data)@.subrange(start + e@.len(), old(data)@.len() as int),
{
    let _ = data.len();
    let mut j: usize = 0;
    while j < e.len()
        invariant
            0 <= j <= e@.len(),
            start + e@.len() <= old(data)@.len(),
            data@.len() == old(data)@.len(),
            old(data)@.len() <= usize::MAX,
            forall|x: int| 0 <= x < start ==> data@[x] == old(data)@[x],
            forall|x: int| start + e@.len() <= x < data@.len() ==> data@[x] == old(data)@[x],
            forall|x: int| start <= x < start + j ==> data@[x] == e@[x - start],
            forall|x: int| start + j <= x < start + e@.len() ==> data@[x] == old(data)@[x],
        decreases e@.len() - j,
    {
        data[start + j] = e[j];
        j = j + 1;
    }
    assert(data@ =~= old(data)@.subrange(0, start as int) + e@
        + old(data)@.subrange(start + e@.len(), old(data)@.len() as int));
}

} // verus!
