use vstd::prelude::*;
use vstd::slice::slice_subrange;

verus! {

/// `b` with the bytes of `s` written over it from offset `at`.
pub open spec fn splice(b: Seq<u8>, at: int, s: Seq<u8>) -> Seq<u8> {
    b.subrange(0, at) + s + b.subrange(at + s.len(), b.len() as int)
}

/// The ASCII decimal digits of `v`, most significant first, without leading zeros.
pub open spec fn decimal_digits(v: nat) -> Seq<u8>
    decreases v,
{
    if v < 10 {
        seq![(v + 48) as u8]
    } else {
        decimal_digits(v / 10) + seq![((v % 10) + 48) as u8]
    }
}

/// The last `len` ASCII decimal digits of `v`, padded with `'0'` on the left.
pub open spec fn fixed_digits(v: nat, len: nat) -> Seq<u8>
    decreases len,
{
    if len == 0 {
        Seq::empty()
    } else {
        fixed_digits(v / 10, (len - 1) as nat) + seq![((v % 10) + 48) as u8]
    }
}

/// Copies bytes between buffers.
pub struct TachyonDataLakeTools;

impl TachyonDataLakeTools {
    /// Writes all of `src` into `dst` from offset `at`.
    pub fn write_to(dst: &mut Vec<u8>, at: usize, src: &[u8])
        requires
            at + src@.len() <= old(dst)@.len(),
        ensures
            final(dst)@ == splice(old(dst)@, at as int, src@),
    {
        let len = src.len();
        let dlen = dst.len();
        let mut i: usize = 0;
        while i < len
            invariant
                i <= len,
                len == src@.len(),
                dlen == dst@.len(),
                at + len <= dlen,
                dst@.len() == old(dst)@.len(),
                dst@ == splice(old(dst)@, at as int, src@.subrange(0, i as int)),
            decreases len - i,
        {
            dst.set(at + i, src[i]);
            i += 1;
            assert(dst@ =~= splice(old(dst)@, at as int, src@.subrange(0, i as int)));
        }
        assert(src@.subrange(0, len as int) =~= src@);
    }
}

/// A fixed-capacity byte lake with a write cursor: the outbound staging area of
/// one connection. A write that does not fit behind the cursor starts over at
/// offset zero.
pub struct TachyonDataLake<const N: usize> {
    buf: Vec<u8>,
    pos: usize,
}

impl<const N: usize> View for TachyonDataLake<N> {
    /// The whole byte area and the cursor.
    type V = (Seq<u8>, nat);

    closed spec fn view(&self) -> (Seq<u8>, nat) {
        (self.buf@, self.pos as nat)
    }
}

impl<const N: usize> TachyonDataLake<N> {
    /// The area holds exactly `N` bytes and the cursor lies within it.
    pub open spec fn wf(&self) -> bool {
        &&& self@.0.len() == N
        &&& self@.1 <= N
    }

    /// The bytes staged so far: the area up to the cursor.
    pub open spec fn staged(&self) -> Seq<u8> {
        self@.0.subrange(0, self@.1 as int)
    }

    /// The cursor after a write of `len` bytes at cursor `pos`.
    pub open spec fn cursor_after(pos: nat, len: nat) -> nat {
        if len <= N - pos {
            pos + len
        } else {
            len
        }
    }

    /// The area after a write of `s` at cursor `pos`.
    pub open spec fn area_after(b: Seq<u8>, pos: nat, s: Seq<u8>) -> Seq<u8> {
        if s.len() <= N - pos {
            splice(b, pos as int, s)
        } else {
            splice(b, 0, s)
        }
    }

    /// An empty lake: `N` zero bytes and the cursor at zero.
    pub fn build() -> (r: Self)
        ensures
            r.wf(),
            r@.1 == 0,
            r@.0 == Seq::new(N as nat, |i: int| 0u8),
    {
        let mut buf: Vec<u8> = Vec::with_capacity(N);
        while buf.len() < N
            invariant
                buf@.len() <= N,
                forall|i: int| 0 <= i < buf@.len() ==> buf@[i] == 0u8,
            decreases N - buf@.len(),
        {
            buf.push(0u8);
        }
        let r = TachyonDataLake { buf, pos: 0 };
        assert(r@.0 =~= Seq::new(N as nat, |i: int| 0u8));
        r
    }

    /// Moves the cursor back to zero; the bytes stay.
    pub fn reset_pos(&mut self)
        ensures
            final(self)@ == (old(self)@.0, 0nat),
    {
        self.pos = 0;
    }

    /// Writes one byte at the cursor; the cursor wraps to zero at the end of the area.
    pub fn write_byte(&mut self, c: u8)
        requires
            old(self).wf(),
            old(self)@.1 < N,
        ensures
            final(self).wf(),
            final(self)@.0 == old(self)@.0.update(old(self)@.1 as int, c),
            final(self)@.1 == if old(self)@.1 + 1 >= N { 0 } else { old(self)@.1 + 1 },
    {
        self.buf.set(self.pos, c);
        self.pos = self.pos + 1;
        if self.pos >= self.buf.len() {
            self.pos = 0;
        }
    }

    /// The lake itself, borrowed read-only while its bytes are being sent.
    pub fn freeze_ref(&mut self) -> (r: &Self)
        ensures
            *r == *old(self),
    {
        &*self
    }

    /// The lake itself, as a shared reference.
    pub fn freeze_ptr(&self) -> (r: &Self)
        ensures
            *r == *self,
    {
        self
    }

    /// The staged bytes.
    pub fn as_slice(&self) -> (r: &[u8])
        requires
            self.wf(),
        ensures
            r@ == self.staged(),
    {
        slice_subrange(self.buf.as_slice(), 0, self.pos)
    }

    /// The cursor: how many bytes are staged.
    pub fn len(&self) -> (r: usize)
        ensures
            r == self@.1,
    {
        self.pos
    }

    /// Writes `src` at the cursor, or at offset zero where it does not fit behind
    /// the cursor, and moves the cursor past it.
    pub fn write(&mut self, src: &[u8])
        requires
            old(self).wf(),
            src@.len() <= N,
        ensures
            final(self).wf(),
            final(self)@.0 == Self::area_after(old(self)@.0, old(self)@.1, src@),
            final(self)@.1 == Self::cursor_after(old(self)@.1, src@.len()),
    {
        let len = src.len();
        if len > self.buf.len() - self.pos {
            self.pos = 0;
        }
        TachyonDataLakeTools::write_to(&mut self.buf, self.pos, src);
        self.pos = self.pos + len;
    }

    /// Writes the decimal digits of `value` at the cursor, as `write` does.
    pub fn write_num_str(&mut self, value: usize)
        requires
            old(self).wf(),
            N >= 20,
        ensures
            final(self).wf(),
            final(self)@.0 == Self::area_after(old(self)@.0, old(self)@.1, decimal_digits(value as nat)),
            final(self)@.1 == Self::cursor_after(old(self)@.1, decimal_digits(value as nat).len()),
    {
        let tmp = decimal_string(value);
        proof {
            lemma_decimal_digits_len(value as nat);
        }
        self.write(tmp.as_slice());
    }

    /// Writes the last `len` decimal digits of `value`, zero-padded, at the
    /// cursor, and moves the cursor past them.
    pub fn write_num_str_fixed(&mut self, value: usize, len: usize)
        requires
            old(self).wf(),
            old(self)@.1 + len <= N,
        ensures
            final(self).wf(),
            final(self)@.0 == splice(old(self)@.0, old(self)@.1 as int, fixed_digits(value as nat, len as nat)),
            final(self)@.1 == old(self)@.1 + len,
    {
        let tmp = fixed_decimal(value, len);
        TachyonDataLakeTools::write_to(&mut self.buf, self.pos, tmp.as_slice());
        self.pos = self.pos + len;
    }

    /// The byte area and the cursor, taking the lake apart.
    pub fn into_raw_parts(self) -> (r: (Vec<u8>, usize))
        ensures
            r.0@ == self@.0,
            r.1 == self@.1,
    {
        (self.buf, self.pos)
    }
}

/// The last `len` decimal digits of `value`, zero-padded, as bytes.
pub fn fixed_decimal(value: usize, len: usize) -> (r: Vec<u8>)
    ensures
        r@ == fixed_digits(value as nat, len as nat),
        r@.len() == len,
{
    let mut tmp: Vec<u8> = Vec::new();
    let mut v: usize = value;
    let mut k: usize = 0;
    while k < len
        invariant
            k <= len,
            tmp@.len() == k,
            fixed_digits(value as nat, len as nat) == fixed_digits(v as nat, (len - k) as nat) + tmp@,
        decreases len - k,
    {
        let d: u8 = (v % 10) as u8 + 48u8;
        proof {
            assert(fixed_digits(v as nat, (len - k) as nat) == fixed_digits(
                (v / 10) as nat,
                (len - k - 1) as nat,
            ) + seq![d]);
        }
        tmp.insert(0, d);
        v = v / 10;
        k += 1;
        proof {
            assert(fixed_digits(value as nat, len as nat) =~= fixed_digits(v as nat, (len - k) as nat)
                + tmp@);
        }
    }
    assert(fixed_digits(v as nat, 0) =~= Seq::<u8>::empty());
    assert(tmp@ =~= fixed_digits(value as nat, len as nat));
    tmp
}

/// Appends all of `s` to `out`.
pub fn extend_bytes(out: &mut Vec<u8>, s: &[u8])
    ensures
        final(out)@ == old(out)@ + s@,
{
    let len = s.len();
    let mut i: usize = 0;
    while i < len
        invariant
            i <= len,
            len == s@.len(),
            out@ == old(out)@ + s@.subrange(0, i as int),
        decreases len - i,
    {
        out.push(s[i]);
        i += 1;
        assert(out@ =~= old(out)@ + s@.subrange(0, i as int));
    }
    assert(s@.subrange(0, len as int) =~= s@);
}

/// Between two flushes the write cursor only moves forward: a write that fits
/// behind the cursor leaves it that many bytes further on. A flush
/// (`reset_pos`) puts it back to zero. A write that does not fit starts over
/// at zero, so it is left out here.
pub proof fn lemma_cursor_monotonic<const N: usize>(pos: nat, len: nat)
    requires
        pos + len <= N,
    ensures
        TachyonDataLake::<N>::cursor_after(pos, len) == pos + len,
        TachyonDataLake::<N>::cursor_after(pos, len) >= pos,
{
}

/// The decimal digits of `value` as bytes.
pub fn decimal_string(value: usize) -> (r: Vec<u8>)
    ensures
        r@ == decimal_digits(value as nat),
{
    let mut tmp: Vec<u8> = Vec::new();
    let mut v: usize = value;
    while v >= 10
        invariant
            decimal_digits(value as nat) == decimal_digits(v as nat) + tmp@,
        decreases v,
    {
        let d: u8 = (v % 10) as u8 + 48u8;
        tmp.insert(0, d);
        v = v / 10;
        proof {
            assert(decimal_digits(value as nat) =~= decimal_digits(v as nat) + tmp@);
        }
    }
    tmp.insert(0, v as u8 + 48u8);
    assert(tmp@ =~= decimal_digits(value as nat));
    tmp
}

/// No `usize` has more than twenty decimal digits.
pub proof fn lemma_decimal_digits_len(v: nat)
    requires
        v <= usize::MAX,
    ensures
        decimal_digits(v).len() <= 20,
{
    reveal_with_fuel(pow10, 21);
    assert(pow10(20) == 100_000_000_000_000_000_000);
    lemma_decimal_digits_bound(v, 20);
}

proof fn lemma_decimal_digits_bound(v: nat, k: nat)
    requires
        k >= 1,
        v < pow10(k),
    ensures
        decimal_digits(v).len() <= k,
    decreases k,
{
    if v >= 10 {
        assert(k >= 2) by {
            if k == 1 {
                assert(pow10(1) == 10 * pow10(0));
                assert(pow10(0) == 1);
            }
        };
        assert(pow10(k) == 10 * pow10((k - 1) as nat));
        assert(v / 10 < pow10((k - 1) as nat)) by (nonlinear_arith)
            requires
                v < pow10(k),
                pow10(k) == 10 * pow10((k - 1) as nat),
        ;
        lemma_decimal_digits_bound(v / 10, (k - 1) as nat);
    }
}

/// `10^k`.
pub open spec fn pow10(k: nat) -> nat
    decreases k,
{
    if k == 0 {
        1
    } else {
        10 * pow10((k - 1) as nat)
    }
}

} // verus!
