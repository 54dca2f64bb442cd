//! Concrete borrowed-slice readers.
//!
//! Each type borrows a byte slice and tracks its position by
//! re-slicing: the visible state is always the unread bytes, and a
//! cursor moves forward only.  The types differ solely in which byte
//! orders they support, so that mixing orders where one order is
//! intended is ruled out by the type.

use crate::readers::traits::BigEndianByteReader;
use crate::readers::traits::ByteReader;
use crate::readers::traits::LittleEndianByteReader;
use crate::readers::traits::NativeEndianByteReader;
use vstd::prelude::*;
use vstd::slice::slice_subrange;

verus! {

/// A reader over a borrowed slice, supporting all three byte orders.
pub struct FastByteReader<'reader> {
    byte_array: &'reader [u8],
}

impl ByteReader for FastByteReader<'_> {
    closed spec fn remaining(&self) -> Seq<u8> {
        self.byte_array@
    }

    fn byte_array(&self) -> (s: &[u8]) {
        self.byte_array
    }

    fn advance(&mut self, advancement: usize, new_size: usize) {
        let length = self.byte_array.len();
        self.byte_array = slice_subrange(self.byte_array, advancement, length);
        proof {
            assert(self.byte_array@ =~= old(self).byte_array@.skip(advancement as int));
        }
    }
}

impl BigEndianByteReader for FastByteReader<'_> {}

impl LittleEndianByteReader for FastByteReader<'_> {}

impl NativeEndianByteReader for FastByteReader<'_> {}

impl<'reader> FastByteReader<'reader> {
    /// Wraps a borrowed slice; every byte of it is initially unread.
    pub fn new(byte_array: &'reader [u8]) -> (r: Self)
        ensures
            r.remaining() == byte_array@,
    {
        Self { byte_array }
    }
}

/// A network-focused reader over a borrowed slice: strictly big-endian,
/// so a little- or native-order read cannot be written at all.
pub struct NetworkReader<'reader> {
    byte_array: &'reader [u8],
}

impl ByteReader for NetworkReader<'_> {
    closed spec fn remaining(&self) -> Seq<u8> {
        self.byte_array@
    }

    fn byte_array(&self) -> (s: &[u8]) {
        self.byte_array
    }

    fn advance(&mut self, advancement: usize, new_size: usize) {
        let length = self.byte_array.len();
        self.byte_array = slice_subrange(self.byte_array, advancement, length);
        proof {
            assert(self.byte_array@ =~= old(self).byte_array@.skip(advancement as int));
        }
    }
}

impl BigEndianByteReader for NetworkReader<'_> {}

impl<'reader> NetworkReader<'reader> {
    /// Wraps a borrowed slice; every byte of it is initially unread.
    pub fn new(byte_array: &'reader [u8]) -> (r: Self)
        ensures
            r.remaining() == byte_array@,
    {
        Self { byte_array }
    }
}

/// A strictly little-endian reader over a borrowed slice.
pub struct LittleReader<'reader> {
    byte_array: &'reader [u8],
}

impl ByteReader for LittleReader<'_> {
    closed spec fn remaining(&self) -> Seq<u8> {
        self.byte_array@
    }

    fn byte_array(&self) -> (s: &[u8]) {
        self.byte_array
    }

    fn advance(&mut self, advancement: usize, new_size: usize) {
        let length = self.byte_array.len();
        self.byte_array = slice_subrange(self.byte_array, advancement, length);
        proof {
            assert(self.byte_array@ =~= old(self).byte_array@.skip(advancement as int));
        }
    }
}

impl LittleEndianByteReader for LittleReader<'_> {}

impl<'reader> LittleReader<'reader> {
    /// Wraps a borrowed slice; every byte of it is initially unread.
    pub fn new(byte_array: &'reader [u8]) -> (r: Self)
        ensures
            r.remaining() == byte_array@,
    {
        Self { byte_array }
    }
}

/// A strictly native-endian reader over a borrowed slice.
pub struct NativeReader<'reader> {
    byte_array: &'reader [u8],
}

impl ByteReader for NativeReader<'_> {
    closed spec fn remaining(&self) -> Seq<u8> {
        self.byte_array@
    }

    fn byte_array(&self) -> (s: &[u8]) {
        self.byte_array
    }

    fn advance(&mut self, advancement: usize, new_size: usize) {
        let length = self.byte_array.len();
        self.byte_array = slice_subrange(self.byte_array, advancement, length);
        proof {
            assert(self.byte_array@ =~= old(self).byte_array@.skip(advancement as int));
        }
    }
}

impl NativeEndianByteReader for NativeReader<'_> {}

impl<'reader> NativeReader<'reader> {
    /// Wraps a borrowed slice; every byte of it is initially unread.
    pub fn new(byte_array: &'reader [u8]) -> (r: Self)
        ensures
            r.remaining() == byte_array@,
    {
        Self { byte_array }
    }
}

} // verus!
