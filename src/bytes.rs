//! Little-endian integers and a forward-only cursor over a byte buffer.

use vstd::prelude::*;

verus! {

/// The integer held little-endian in `b[p]`, `b[p + 1]`.
pub open spec fn le_u16(b: Seq<u8>, p: int) -> int {
    b[p] as int + 256 * (b[p + 1] as int)
}

/// The integer held little-endian in the four bytes at `b[p]`.
pub open spec fn le_u32(b: Seq<u8>, p: int) -> int {
    le_u16(b, p) + 65536 * le_u16(b, p + 2)
}

/// The integer held little-endian in the eight bytes at `b[p]`.
pub open spec fn le_u64(b: Seq<u8>, p: int) -> int {
    le_u32(b, p) + 4294967296 * le_u32(b, p + 4)
}

/// A slice never holds more elements than `usize` can count.
pub proof fn lemma_slice_len_fits<T>(b: &[T])
    ensures
        b@.len() <= usize::MAX,
{
    broadcast use vstd::slice::axiom_spec_len;

    assert(vstd::slice::spec_slice_len(b) == b@.len());
}

/// Reads a little-endian `u16` at `pos`.
pub fn read_u16(b: &[u8], pos: usize) -> (r: u16)
    requires
        pos + 2 <= b@.len(),
    ensures
        r as int == le_u16(b@, pos as int),
{
    b[pos] as u16 + 256 * (b[pos + 1] as u16)
}

/// Reads a little-endian `u32` at `pos`.
pub fn read_u32(b: &[u8], pos: usize) -> (r: u32)
    requires
        pos + 4 <= b@.len(),
    ensures
        r as int == le_u32(b@, pos as int),
{
    proof {
        lemma_slice_len_fits(b);
    }
    let lo = read_u16(b, pos) as u32;
    let hi = read_u16(b, pos + 2) as u32;
    lo + 65536 * hi
}

/// Reads a little-endian `u64` at `pos`.
pub fn read_u64(b: &[u8], pos: usize) -> (r: u64)
    requires
        pos + 8 <= b@.len(),
    ensures
        r as int == le_u64(b@, pos as int),
{
    proof {
        lemma_slice_len_fits(b);
    }
    let lo = read_u32(b, pos) as u64;
    let hi = read_u32(b, pos + 4) as u64;
    lo + 4294967296 * hi
}

/// The smallest multiple of `align` that is not below `a`.
pub open spec fn align_up(a: int, align: int) -> int
    recommends
        align > 0,
{
    if a % align == 0 {
        a
    } else {
        a + (align - a % align)
    }
}

/// Rounding up lands on a multiple of `align`, less than `align` past `a`,
/// and rounding again changes nothing.
pub proof fn lemma_align_up(a: int, align: int)
    requires
        0 <= a,
        0 < align,
    ensures
        align_up(a, align) % align == 0,
        a <= align_up(a, align) < a + align,
        align_up(align_up(a, align), align) == align_up(a, align),
        a % align == 0 ==> align_up(a, align) == a,
{
    let q = a / align;
    let r = a % align;
    vstd::arithmetic::div_mod::lemma_fundamental_div_mod(a, align);
    vstd::arithmetic::div_mod::lemma_mod_pos_bound(a, align);
    if r != 0 {
        assert(align_up(a, align) == (q + 1) * align) by (nonlinear_arith)
            requires
                a == align * q + r,
                align_up(a, align) == a + (align - r),
        ;
        vstd::arithmetic::div_mod::lemma_mod_multiples_basic(q + 1, align);
    }
}

/// Sequential reader over a byte buffer.
///
/// It tracks only a read position; each read states in `requires` how many
/// bytes must remain, and it is the caller's duty to know that they do.
pub struct RawCursor<'a> {
    buf: &'a [u8],
    pos: usize,
}

impl<'a> RawCursor<'a> {
    /// The whole buffer the cursor reads.
    pub closed spec fn buffer(&self) -> Seq<u8> {
        self.buf@
    }

    /// The current read position.
    pub closed spec fn position(&self) -> int {
        self.pos as int
    }

    pub closed spec fn wf(&self) -> bool {
        self.pos <= self.buf@.len()
    }

    /// The buffer's length fits in `usize`, and the position is not negative.
    pub proof fn lemma_buffer_fits(&self)
        ensures
            self.buffer().len() <= usize::MAX,
            0 <= self.position(),
    {
        lemma_slice_len_fits(self.buf);
    }

    /// A cursor at the start of `buf`.
    pub fn new(buf: &'a [u8]) -> (r: Self)
        ensures
            r.wf(),
            r.buffer() == buf@,
            r.position() == 0,
    {
        RawCursor { buf, pos: 0 }
    }

    /// The current read position.
    pub fn offset(&self) -> (r: usize)
        ensures
            r == self.position(),
    {
        self.pos
    }

    /// The little-endian `u64` at the current position, without advancing.
    pub fn peek_u64(&self) -> (r: u64)
        requires
            self.wf(),
            self.position() + 8 <= self.buffer().len(),
        ensures
            r as int == le_u64(self.buffer(), self.position()),
    {
        read_u64(self.buf, self.pos)
    }

    /// How many bytes remain past the current position.
    pub fn remaining(&self) -> (r: usize)
        requires
            self.wf(),
        ensures
            r == self.buffer().len() - self.position(),
    {
        self.buf.len() - self.pos
    }

    /// Returns the current position and advances past `len` bytes.
    pub fn get_raw(&mut self, len: usize) -> (r: usize)
        requires
            old(self).wf(),
            old(self).position() + len <= old(self).buffer().len(),
        ensures
            final(self).wf(),
            r == old(self).position(),
            final(self).buffer() == old(self).buffer(),
            final(self).position() == old(self).position() + len,
    {
        proof {
            lemma_slice_len_fits(self.buf);
        }
        let p = self.pos;
        self.pos = p + len;
        p
    }

    /// Returns the next `len` bytes and advances past them.
    pub fn get_bytes(&mut self, len: usize) -> (r: &'a [u8])
        requires
            old(self).wf(),
            old(self).position() + len <= old(self).buffer().len(),
        ensures
            final(self).wf(),
            r@ == old(self).buffer().subrange(old(self).position(), old(self).position() + len),
            final(self).buffer() == old(self).buffer(),
            final(self).position() == old(self).position() + len,
    {
        let p = self.get_raw(len);
        vstd::slice::slice_subrange(self.buf, p, p + len)
    }

    /// Reads one byte and advances past it.
    pub fn get_u8(&mut self) -> (r: u8)
        requires
            old(self).wf(),
            old(self).position() + 1 <= old(self).buffer().len(),
        ensures
            final(self).wf(),
            r == old(self).buffer()[old(self).position()],
            final(self).buffer() == old(self).buffer(),
            final(self).position() == old(self).position() + 1,
    {
        let p = self.get_raw(1);
        self.buf[p]
    }

    /// Reads a little-endian `u64` and advances past it.
    pub fn get_u64(&mut self) -> (r: u64)
        requires
            old(self).wf(),
            old(self).position() + 8 <= old(self).buffer().len(),
        ensures
            final(self).wf(),
            r as int == le_u64(old(self).buffer(), old(self).position()),
            final(self).buffer() == old(self).buffer(),
            final(self).position() == old(self).position() + 8,
    {
        let p = self.get_raw(8);
        read_u64(self.buf, p)
    }

    /// Reads an eight-byte length and then that many bytes, advancing past
    /// both.
    pub fn get_slice(&mut self) -> (r: &'a [u8])
        requires
            old(self).wf(),
            old(self).position() + 8 <= old(self).buffer().len(),
            old(self).position() + 8 + le_u64(old(self).buffer(), old(self).position())
                <= old(self).buffer().len(),
        ensures
            final(self).wf(),
            r@ == old(self).buffer().subrange(
                old(self).position() + 8,
                old(self).position() + 8 + le_u64(old(self).buffer(), old(self).position()),
            ),
            final(self).buffer() == old(self).buffer(),
            final(self).position() == old(self).position() + 8 + le_u64(
                old(self).buffer(),
                old(self).position(),
            ),
    {
        proof {
            lemma_slice_len_fits(self.buf);
        }
        let n = self.get_u64();
        let len = n as usize;
        self.get_bytes(len)
    }

    /// Advances to the next multiple of `alignment`, counted from the start of
    /// the buffer.
    pub fn align(&mut self, alignment: usize)
        requires
            old(self).wf(),
            alignment > 0,
            align_up(old(self).position(), alignment as int) <= old(self).buffer().len(),
        ensures
            final(self).wf(),
            final(self).buffer() == old(self).buffer(),
            final(self).position() == align_up(old(self).position(), alignment as int),
    {
        proof {
            lemma_slice_len_fits(self.buf);
        }
        let rem = self.pos % alignment;
        if rem != 0 {
            self.pos = self.pos + (alignment - rem);
        }
    }
}

} // verus!
