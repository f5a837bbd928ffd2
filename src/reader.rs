//! A sequential reader of little-endian integers over a byte slice.
use vstd::prelude::*;
use crate::bytes::{u16_le, u32_le, u64_le};

verus! {

/// Reads fixed-width integers one after the other, advancing its offset by
/// each read's width. It checks no bounds itself: every read requires that
/// the bytes it takes lie inside the slice, which the caller has validated
/// beforehand against the record's declared size.
pub struct Reader<'a> {
    buf: &'a [u8],
    off: usize,
}

impl<'a> Reader<'a> {
    /// The bytes read from.
    pub closed spec fn bytes(&self) -> Seq<u8> {
        self.buf@
    }

    /// The offset of the next read.
    pub closed spec fn offset(&self) -> nat {
        self.off as nat
    }

    pub closed spec fn wf(&self) -> bool {
        self.off <= self.buf@.len()
    }

    /// A reader at offset `off` of `buf`.
    pub fn new(buf: &'a [u8], off: usize) -> (r: Self)
        requires
            off <= buf@.len(),
        ensures
            r.wf(),
            r.bytes() == buf@,
            r.offset() == off,
    {
        Reader { buf, off }
    }

    pub fn read_u8(&mut self) -> (r: u8)
        requires
            old(self).wf(),
            old(self).offset() + 1 <= old(self).bytes().len(),
        ensures
            final(self).wf(),
            final(self).bytes() == old(self).bytes(),
            final(self).offset() == old(self).offset() + 1,
            r == old(self).bytes()[old(self).offset() as int],
    {
        let b = self.buf[self.off];
        let n = self.buf.len();
        assert(self.off < n);
        self.off = self.off + 1;
        b
    }

    pub fn read_u16(&mut self) -> (r: u16)
        requires
            old(self).wf(),
            old(self).offset() + 2 <= old(self).bytes().len(),
        ensures
            final(self).wf(),
            final(self).bytes() == old(self).bytes(),
            final(self).offset() == old(self).offset() + 2,
            r == u16_le(old(self).bytes(), old(self).offset() as int),
    {
        let lo = self.read_u8();
        let hi = self.read_u8();
        (lo as u16) | ((hi as u16) << 8u16)
    }

    pub fn read_u32(&mut self) -> (r: u32)
        requires
            old(self).wf(),
            old(self).offset() + 4 <= old(self).bytes().len(),
        ensures
            final(self).wf(),
            final(self).bytes() == old(self).bytes(),
            final(self).offset() == old(self).offset() + 4,
            r == u32_le(old(self).bytes(), old(self).offset() as int),
    {
        let lo = self.read_u16();
        let hi = self.read_u16();
        (lo as u32) | ((hi as u32) << 16u32)
    }

    pub fn read_u64(&mut self) -> (r: u64)
        requires
            old(self).wf(),
            old(self).offset() + 8 <= old(self).bytes().len(),
        ensures
            final(self).wf(),
            final(self).bytes() == old(self).bytes(),
            final(self).offset() == old(self).offset() + 8,
            r == u64_le(old(self).bytes(), old(self).offset() as int),
    {
        let lo = self.read_u32();
        let hi = self.read_u32();
        (lo as u64) | ((hi as u64) << 32u64)
    }

    /// The offset of the next read, from which a caller may build a further
    /// view of the same bytes.
    pub fn current_address(&self) -> (r: usize)
        ensures
            r == self.offset(),
    {
        self.off
    }
}

} // verus!
