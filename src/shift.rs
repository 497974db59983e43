use vstd::prelude::*;

verus! {

/// `b` after its first `len` bytes are moved to its tail: the tail holds them,
/// what is left of the head is zero, and the bytes in between stay.
pub open spec fn shifted(b: Seq<u8>, len: int) -> Seq<u8> {
    let d = b.len() - len;
    Seq::new(
        b.len(),
        |k: int|
            if k >= d {
                b[k - d]
            } else if k < len {
                0u8
            } else {
                b[k]
            },
    )
}

/// `size - len` zero bytes followed by the first `len` bytes of `b`.
pub open spec fn tail_aligned(b: Seq<u8>, len: int, size: int) -> Seq<u8> {
    Seq::new((size - len) as nat, |i: int| 0u8) + b.subrange(0, len)
}

/// Moves the first `len` bytes of `buf` to its tail and zeroes the head.
pub fn shift_safe(buf: &mut [u8], len: usize)
    requires
        len <= old(buf)@.len(),
    ensures
        final(buf)@ == shifted(old(buf)@, len as int),
{
    let total = buf.len();
    let d = total - len;
    let ghost b = buf@;
    let mut i: usize = len;
    while i > 0
        invariant
            i <= len,
            total == b.len(),
            d == total - len,
            buf@.len() == total,
            forall|k: int|
                0 <= k < total ==> #[trigger] buf@[k] == if k >= d + i {
                    b[k - d]
                } else if i <= k < len {
                    0u8
                } else {
                    b[k]
                },
        decreases i,
    {
        i -= 1;
        let v = buf[i];
        buf[i] = 0u8;
        buf[d + i] = v;
    }
    assert(buf@ =~= shifted(b, len as int));
}

/// A fresh area of `size` bytes holding the first `len` bytes of `buf` at its tail.
pub fn shift_ub(buf: &[u8], len: usize, size: usize) -> (r: Vec<u8>)
    requires
        len <= buf@.len(),
        len <= size,
    ensures
        r@ == tail_aligned(buf@, len as int, size as int),
{
    let mut out: Vec<u8> = Vec::with_capacity(size);
    while out.len() < size - len
        invariant
            len <= size,
            out@.len() <= size - len,
            forall|i: int| 0 <= i < out@.len() ==> out@[i] == 0u8,
        decreases size - len - out@.len(),
    {
        out.push(0u8);
    }
    let mut i: usize = 0;
    while i < len
        invariant
            i <= len,
            len <= buf@.len(),
            out@ == Seq::new((size - len) as nat, |j: int| 0u8) + buf@.subrange(0, i as int),
        decreases len - i,
    {
        out.push(buf[i]);
        i += 1;
        assert(out@ =~= Seq::new((size - len) as nat, |j: int| 0u8) + buf@.subrange(0, i as int));
    }
    assert(out@ =~= tail_aligned(buf@, len as int, size as int));
    out
}

} // verus!
