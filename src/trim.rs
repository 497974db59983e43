use vstd::prelude::*;
use vstd::slice::slice_subrange;

verus! {

/// Offset of the first non-zero byte of `s` at or after `from`; `s.len()` where there is none.
pub open spec fn first_nonzero(s: Seq<u8>, from: int) -> int
    decreases s.len() - from,
{
    if from >= s.len() || from < 0 {
        s.len() as int
    } else if s[from] != 0u8 {
        from
    } else {
        first_nonzero(s, from + 1)
    }
}

/// End of the last non-zero byte of `s` below `hi`; zero where there is none.
pub open spec fn nonzero_end(s: Seq<u8>, hi: int) -> int
    decreases hi,
{
    if hi <= 0 || hi > s.len() {
        0
    } else if s[hi - 1] != 0u8 {
        hi
    } else {
        nonzero_end(s, hi - 1)
    }
}

/// `data` without its leading zero bytes.
pub fn l_trim256(data: &[u8]) -> (r: &[u8])
    ensures
        r@ == data@.subrange(first_nonzero(data@, 0), data@.len() as int),
{
    let len = data.len();
    let mut i: usize = 0;
    while i < len && data[i] == 0u8
        invariant
            i <= len,
            len == data@.len(),
            first_nonzero(data@, 0) == first_nonzero(data@, i as int),
        decreases len - i,
    {
        i += 1;
    }
    slice_subrange(data, i, len)
}

/// `buf` without its trailing zero bytes.
pub fn r_trim256(buf: &[u8]) -> (r: &[u8])
    ensures
        r@ == buf@.subrange(0, nonzero_end(buf@, buf@.len() as int)),
{
    let len = buf.len();
    let mut i: usize = len;
    while i > 0 && buf[i - 1] == 0u8
        invariant
            i <= len,
            len == buf@.len(),
            nonzero_end(buf@, len as int) == nonzero_end(buf@, i as int),
        decreases i,
    {
        i -= 1;
    }
    slice_subrange(buf, 0, i)
}

} // verus!
