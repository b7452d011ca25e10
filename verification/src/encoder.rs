//! Support for encoding primitives into output buffers.

use vstd::prelude::*;
use crate::le::{encode_u16, encode_u32, le_bytes_u16, le_bytes_u32};

verus! {

/// A simple type which helps encode CodeView records into a buffer.
pub struct Encoder<'a> {
    /// The output buffer; encoded values are appended to it.
    pub buf: &'a mut Vec<u8>,
}

impl<'a> View for Encoder<'a> {
    type V = Seq<u8>;

    open spec fn view(&self) -> Seq<u8> {
        self.buf@
    }
}

impl<'a> Encoder<'a> {
    /// Starts encoding at the end of `buf`. What is encoded is appended to `buf`: once the
    /// encoder is done, `buf` holds what the encoder's view last held.
    pub fn new(buf: &'a mut Vec<u8>) -> (e: Self)
        ensures
            e@ == old(buf)@,
            *final(buf) == *final(e.buf),
    {
        Self { buf }
    }

    /// The number of bytes in the buffer.
    pub fn len(&self) -> (n: usize)
        ensures
            n == self@.len(),
    {
        self.buf.len()
    }

    /// Whether the buffer is empty.
    pub fn is_empty(&self) -> (b: bool)
        ensures
            b <==> self@.len() == 0,
    {
        self.buf.len() == 0
    }

    /// Appends one byte.
    pub fn u8(&mut self, x: u8)
        ensures
            final(self)@ == old(self)@.push(x),
            *final(final(self).buf) == *final(old(self).buf),
    {
        self.buf.push(x);
    }

    /// Appends a sequence of bytes.
    pub fn bytes(&mut self, b: &[u8])
        ensures
            final(self)@ == old(self)@ + b@,
            *final(final(self).buf) == *final(old(self).buf),
    {
        let mut i: usize = 0;
        let ghost start = self.buf@;
        while i < b.len()
            invariant
                i <= b@.len(),
                self.buf@ == start + b@.take(i as int),
                *final(self.buf) == *final(old(self).buf),
            decreases b@.len() - i,
        {
            self.buf.push(b[i]);
            i = i + 1;
            assert(self.buf@ =~= start + b@.take(i as int));
        }
        assert(b@.take(b@.len() as int) =~= b@);
    }

    /// Appends a `u16` in little-endian order.
    pub fn u16(&mut self, x: u16)
        ensures
            final(self)@ == old(self)@ + le_bytes_u16(x),
            *final(final(self).buf) == *final(old(self).buf),
    {
        let a = encode_u16(x);
        self.bytes(&a);
    }

    /// Appends a `u32` in little-endian order.
    pub fn u32(&mut self, x: u32)
        ensures
            final(self)@ == old(self)@ + le_bytes_u32(x),
            *final(final(self).buf) == *final(old(self).buf),
    {
        let a = encode_u32(x);
        self.bytes(&a);
    }

    /// Appends a string followed by a NUL terminator.
    pub fn strz(&mut self, s: &[u8])
        ensures
            final(self)@ == old(self)@ + s@ + seq![0u8],
            *final(final(self).buf) == *final(old(self).buf),
    {
        self.bytes(s);
        self.buf.push(0);
    }
}

} // verus!
