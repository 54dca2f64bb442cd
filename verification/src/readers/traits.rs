//! Reader capabilities over a byte cursor.
//!
//! [`ByteReader`] is the cursor state: a view of the unread bytes
//! ([`ByteReader::remaining`]), and the one mutating primitive,
//! [`ByteReader::advance`], which discards a prefix of that view.
//! `advance` trusts its caller: the bounds check happens exactly once,
//! in the decoding operation, and the precondition carries it here.
//!
//! The order traits ([`BigEndianByteReader`], [`LittleEndianByteReader`],
//! [`NativeEndianByteReader`]) each add the decoding algorithm for one
//! byte order; a cursor type declares the orders it supports by
//! implementing the matching traits.  Every decode or skip consumes
//! exactly the width it claims: the new view of the cursor is the old
//! one with that many bytes dropped from the front.  A raw-span read
//! copies the bytes verbatim in every order: re-ordering applies to
//! the bytes of one scalar, never across a span.

use crate::endianness::be_value;
use crate::endianness::le_value;
use crate::endianness::to_signed;
use crate::usize_width;
use vstd::prelude::*;
use vstd::slice::slice_subrange;
use vstd::slice::slice_to_vec;

verus! {

pub trait ByteReader {
    /// The unread bytes of this cursor.
    spec fn remaining(&self) -> Seq<u8>;

    /// The current underlying byte slice: exactly the unread bytes.
    fn byte_array(&self) -> (s: &[u8])
        ensures
            s@ == self.remaining(),
    ;

    /// Advances the reader over `advancement` bytes, leaving `new_size`
    /// unread.  The caller has already checked that the two add up to
    /// the bytes remaining; the check is not repeated here.
    fn advance(&mut self, advancement: usize, new_size: usize)
        requires
            advancement + new_size == old(self).remaining().len(),
        ensures
            final(self).remaining() == old(self).remaining().skip(advancement as int),
    ;

    /// Skips `byte_size` bytes, advancing the reader forward.
    fn skip_n(&mut self, byte_size: usize)
        requires
            byte_size <= old(self).remaining().len(),
        ensures
            final(self).remaining() == old(self).remaining().skip(byte_size as int),
    {
        let byte_array = self.byte_array();
        let new_length = byte_array.len() - byte_size;
        self.advance(byte_size, new_length);
    }

    /// Skips the width of a `u8`, advancing the reader forward.
    fn skip_u8(&mut self)
        requires
            old(self).remaining().len() >= 1,
        ensures
            final(self).remaining() == old(self).remaining().skip(1),
    {
        self.skip_n(1);
    }

    /// Skips the width of a `u16`, advancing the reader forward.
    fn skip_u16(&mut self)
        requires
            old(self).remaining().len() >= 2,
        ensures
            final(self).remaining() == old(self).remaining().skip(2),
    {
        self.skip_n(2);
    }

    /// Skips the width of a `u32`, advancing the reader forward.
    fn skip_u32(&mut self)
        requires
            old(self).remaining().len() >= 4,
        ensures
            final(self).remaining() == old(self).remaining().skip(4),
    {
        self.skip_n(4);
    }

    /// Skips the width of a `u64`, advancing the reader forward.
    fn skip_u64(&mut self)
        requires
            old(self).remaining().len() >= 8,
        ensures
            final(self).remaining() == old(self).remaining().skip(8),
    {
        self.skip_n(8);
    }

    /// Skips the width of a `u128`, advancing the reader forward.
    fn skip_u128(&mut self)
        requires
            old(self).remaining().len() >= 16,
        ensures
            final(self).remaining() == old(self).remaining().skip(16),
    {
        self.skip_n(16);
    }

    /// Skips the width of a `usize`, advancing the reader forward.
    fn skip_usize(&mut self)
        requires
            old(self).remaining().len() >= usize_width(),
        ensures
            final(self).remaining() == old(self).remaining().skip(usize_width() as int),
    {
        self.skip_n((usize::BITS / 8) as usize);
    }

    /// Skips the width of an `i8`, advancing the reader forward.
    fn skip_i8(&mut self)
        requires
            old(self).remaining().len() >= 1,
        ensures
            final(self).remaining() == old(self).remaining().skip(1),
    {
        self.skip_n(1);
    }

    /// Skips the width of an `i16`, advancing the reader forward.
    fn skip_i16(&mut self)
        requires
            old(self).remaining().len() >= 2,
        ensures
            final(self).remaining() == old(self).remaining().skip(2),
    {
        self.skip_n(2);
    }

    /// Skips the width of an `i32`, advancing the reader forward.
    fn skip_i32(&mut self)
        requires
            old(self).remaining().len() >= 4,
        ensures
            final(self).remaining() == old(self).remaining().skip(4),
    {
        self.skip_n(4);
    }

    /// Skips the width of an `i64`, advancing the reader forward.
    fn skip_i64(&mut self)
        requires
            old(self).remaining().len() >= 8,
        ensures
            final(self).remaining() == old(self).remaining().skip(8),
    {
        self.skip_n(8);
    }

    /// Skips the width of an `i128`, advancing the reader forward.
    fn skip_i128(&mut self)
        requires
            old(self).remaining().len() >= 16,
        ensures
            final(self).remaining() == old(self).remaining().skip(16),
    {
        self.skip_n(16);
    }

    /// Skips the width of an `isize`, advancing the reader forward.
    fn skip_isize(&mut self)
        requires
            old(self).remaining().len() >= usize_width(),
        ensures
            final(self).remaining() == old(self).remaining().skip(usize_width() as int),
    {
        self.skip_n((usize::BITS / 8) as usize);
    }

    /// Skips the width of a half-precision float, advancing the reader forward.
    fn skip_f16(&mut self)
        requires
            old(self).remaining().len() >= 2,
        ensures
            final(self).remaining() == old(self).remaining().skip(2),
    {
        self.skip_n(2);
    }

    /// Skips the width of a single-precision float, advancing the reader forward.
    fn skip_f32(&mut self)
        requires
            old(self).remaining().len() >= 4,
        ensures
            final(self).remaining() == old(self).remaining().skip(4),
    {
        self.skip_n(4);
    }

    /// Skips the width of a double-precision float, advancing the reader forward.
    fn skip_f64(&mut self)
        requires
            old(self).remaining().len() >= 8,
        ensures
            final(self).remaining() == old(self).remaining().skip(8),
    {
        self.skip_n(8);
    }
}

pub trait NativeEndianByteReader: ByteReader {
    /// Reads a native-endian `u8`, advancing the reader by one byte.
    fn read_u8_ne(&mut self) -> (r: u8)
        requires
            old(self).remaining().len() >= 1,
        ensures
            r == le_value(old(self).remaining().subrange(0, 1)),
            final(self).remaining() == old(self).remaining().skip(1),
    {
        let byte_array = self.byte_array();
        let data = crate::read_u8_ne(byte_array);
        let new_length = byte_array.len() - 1;
        self.advance(1, new_length);
        data
    }

    /// Reads a native-endian `u16`, advancing the reader by two bytes.
    fn read_u16_ne(&mut self) -> (r: u16)
        requires
            old(self).remaining().len() >= 2,
        ensures
            r == le_value(old(self).remaining().subrange(0, 2)),
            final(self).remaining() == old(self).remaining().skip(2),
    {
        let byte_array = self.byte_array();
        let data = crate::read_u16_ne(byte_array);
        let new_length = byte_array.len() - 2;
        self.advance(2, new_length);
        data
    }

    /// Reads a native-endian `u32`, advancing the reader by four bytes.
    fn read_u32_ne(&mut self) -> (r: u32)
        requires
            old(self).remaining().len() >= 4,
        ensures
            r == le_value(old(self).remaining().subrange(0, 4)),
            final(self).remaining() == old(self).remaining().skip(4),
    {
        let byte_array = self.byte_array();
        let data = crate::read_u32_ne(byte_array);
        let new_length = byte_array.len() - 4;
        self.advance(4, new_length);
        data
    }

    /// Reads a native-endian `u64`, advancing the reader by eight bytes.
    fn read_u64_ne(&mut self) -> (r: u64)
        requires
            old(self).remaining().len() >= 8,
        ensures
            r == le_value(old(self).remaining().subrange(0, 8)),
            final(self).remaining() == old(self).remaining().skip(8),
    {
        let byte_array = self.byte_array();
        let data = crate::read_u64_ne(byte_array);
        let new_length = byte_array.len() - 8;
        self.advance(8, new_length);
        data
    }

    /// Reads a native-endian `u128`, advancing the reader by sixteen bytes.
    fn read_u128_ne(&mut self) -> (r: u128)
        requires
            old(self).remaining().len() >= 16,
        ensures
            r == le_value(old(self).remaining().subrange(0, 16)),
            final(self).remaining() == old(self).remaining().skip(16),
    {
        let byte_array = self.byte_array();
        let data = crate::read_u128_ne(byte_array);
        let new_length = byte_array.len() - 16;
        self.advance(16, new_length);
        data
    }

    /// Reads a native-endian `usize`, advancing the reader by its width.
    fn read_usize_ne(&mut self) -> (r: usize)
        requires
            old(self).remaining().len() >= usize_width(),
        ensures
            r == le_value(old(self).remaining().subrange(0, usize_width() as int)),
            final(self).remaining() == old(self).remaining().skip(usize_width() as int),
    {
        let byte_array = self.byte_array();
        let data = crate::read_usize_ne(byte_array);
        let width = (usize::BITS / 8) as usize;
        let new_length = byte_array.len() - width;
        self.advance(width, new_length);
        data
    }

    /// Reads a native-endian `i8`, advancing the reader by one byte.
    fn read_i8_ne(&mut self) -> (r: i8)
        requires
            old(self).remaining().len() >= 1,
        ensures
            r == to_signed(le_value(old(self).remaining().subrange(0, 1)), 1),
            final(self).remaining() == old(self).remaining().skip(1),
    {
        let byte_array = self.byte_array();
        let data = crate::read_i8_ne(byte_array);
        let new_length = byte_array.len() - 1;
        self.advance(1, new_length);
        data
    }

    /// Reads a native-endian `i16`, advancing the reader by two bytes.
    fn read_i16_ne(&mut self) -> (r: i16)
        requires
            old(self).remaining().len() >= 2,
        ensures
            r == to_signed(le_value(old(self).remaining().subrange(0, 2)), 2),
            final(self).remaining() == old(self).remaining().skip(2),
    {
        let byte_array = self.byte_array();
        let data = crate::read_i16_ne(byte_array);
        let new_length = byte_array.len() - 2;
        self.advance(2, new_length);
        data
    }

    /// Reads a native-endian `i32`, advancing the reader by four bytes.
    fn read_i32_ne(&mut self) -> (r: i32)
        requires
            old(self).remaining().len() >= 4,
        ensures
            r == to_signed(le_value(old(self).remaining().subrange(0, 4)), 4),
            final(self).remaining() == old(self).remaining().skip(4),
    {
        let byte_array = self.byte_array();
        let data = crate::read_i32_ne(byte_array);
        let new_length = byte_array.len() - 4;
        self.advance(4, new_length);
        data
    }

    /// Reads a native-endian `i64`, advancing the reader by eight bytes.
    fn read_i64_ne(&mut self) -> (r: i64)
        requires
            old(self).remaining().len() >= 8,
        ensures
            r == to_signed(le_value(old(self).remaining().subrange(0, 8)), 8),
            final(self).remaining() == old(self).remaining().skip(8),
    {
        let byte_array = self.byte_array();
        let data = crate::read_i64_ne(byte_array);
        let new_length = byte_array.len() - 8;
        self.advance(8, new_length);
        data
    }

    /// Reads a native-endian `i128`, advancing the reader by sixteen bytes.
    fn read_i128_ne(&mut self) -> (r: i128)
        requires
            old(self).remaining().len() >= 16,
        ensures
            r == to_signed(le_value(old(self).remaining().subrange(0, 16)), 16),
            final(self).remaining() == old(self).remaining().skip(16),
    {
        let byte_array = self.byte_array();
        let data = crate::read_i128_ne(byte_array);
        let new_length = byte_array.len() - 16;
        self.advance(16, new_length);
        data
    }

    /// Reads a native-endian `isize`, advancing the reader by its width.
    fn read_isize_ne(&mut self) -> (r: isize)
        requires
            old(self).remaining().len() >= usize_width(),
        ensures
            r == to_signed(
                le_value(old(self).remaining().subrange(0, usize_width() as int)),
                usize_width(),
            ),
            final(self).remaining() == old(self).remaining().skip(usize_width() as int),
    {
        let byte_array = self.byte_array();
        let data = crate::read_isize_ne(byte_array);
        let width = (usize::BITS / 8) as usize;
        let new_length = byte_array.len() - width;
        self.advance(width, new_length);
        data
    }

    /// Reads `byte_size` raw bytes as an owned buffer, advancing the
    /// reader forward.  The bytes are copied verbatim.
    fn read_n_ne(&mut self, byte_size: usize) -> (r: Vec<u8>)
        requires
            byte_size <= old(self).remaining().len(),
        ensures
            r@ == old(self).remaining().subrange(0, byte_size as int),
            final(self).remaining() == old(self).remaining().skip(byte_size as int),
    {
        let byte_array = self.byte_array();
        let head = slice_subrange(byte_array, 0, byte_size);
        let bytes = slice_to_vec(head);
        let new_length = byte_array.len() - byte_size;
        self.advance(byte_size, new_length);
        bytes
    }
}

pub trait LittleEndianByteReader: ByteReader {
    /// Reads a little-endian `u8`, advancing the reader by one byte.
    fn read_u8_le(&mut self) -> (r: u8)
        requires
            old(self).remaining().len() >= 1,
        ensures
            r == le_value(old(self).remaining().subrange(0, 1)),
            final(self).remaining() == old(self).remaining().skip(1),
    {
        let byte_array = self.byte_array();
        let data = crate::read_u8_le(byte_array);
        let new_length = byte_array.len() - 1;
        self.advance(1, new_length);
        data
    }

    /// Reads a little-endian `u16`, advancing the reader by two bytes.
    fn read_u16_le(&mut self) -> (r: u16)
        requires
            old(self).remaining().len() >= 2,
        ensures
            r == le_value(old(self).remaining().subrange(0, 2)),
            final(self).remaining() == old(self).remaining().skip(2),
    {
        let byte_array = self.byte_array();
        let data = crate::read_u16_le(byte_array);
        let new_length = byte_array.len() - 2;
        self.advance(2, new_length);
        data
    }

    /// Reads a little-endian `u32`, advancing the reader by four bytes.
    fn read_u32_le(&mut self) -> (r: u32)
        requires
            old(self).remaining().len() >= 4,
        ensures
            r == le_value(old(self).remaining().subrange(0, 4)),
            final(self).remaining() == old(self).remaining().skip(4),
    {
        let byte_array = self.byte_array();
        let data = crate::read_u32_le(byte_array);
        let new_length = byte_array.len() - 4;
        self.advance(4, new_length);
        data
    }

    /// Reads a little-endian `u64`, advancing the reader by eight bytes.
    fn read_u64_le(&mut self) -> (r: u64)
        requires
            old(self).remaining().len() >= 8,
        ensures
            r == le_value(old(self).remaining().subrange(0, 8)),
            final(self).remaining() == old(self).remaining().skip(8),
    {
        let byte_array = self.byte_array();
        let data = crate::read_u64_le(byte_array);
        let new_length = byte_array.len() - 8;
        self.advance(8, new_length);
        data
    }

    /// Reads a little-endian `u128`, advancing the reader by sixteen bytes.
    fn read_u128_le(&mut self) -> (r: u128)
        requires
            old(self).remaining().len() >= 16,
        ensures
            r == le_value(old(self).remaining().subrange(0, 16)),
            final(self).remaining() == old(self).remaining().skip(16),
    {
        let byte_array = self.byte_array();
        let data = crate::read_u128_le(byte_array);
        let new_length = byte_array.len() - 16;
        self.advance(16, new_length);
        data
    }

    /// Reads a little-endian `usize`, advancing the reader by its width.
    fn read_usize_le(&mut self) -> (r: usize)
        requires
            old(self).remaining().len() >= usize_width(),
        ensures
            r == le_value(old(self).remaining().subrange(0, usize_width() as int)),
            final(self).remaining() == old(self).remaining().skip(usize_width() as int),
    {
        let byte_array = self.byte_array();
        let data = crate::read_usize_le(byte_array);
        let width = (usize::BITS / 8) as usize;
        let new_length = byte_array.len() - width;
        self.advance(width, new_length);
        data
    }

    /// Reads a little-endian `i8`, advancing the reader by one byte.
    fn read_i8_le(&mut self) -> (r: i8)
        requires
            old(self).remaining().len() >= 1,
        ensures
            r == to_signed(le_value(old(self).remaining().subrange(0, 1)), 1),
            final(self).remaining() == old(self).remaining().skip(1),
    {
        let byte_array = self.byte_array();
        let data = crate::read_i8_le(byte_array);
        let new_length = byte_array.len() - 1;
        self.advance(1, new_length);
        data
    }

    /// Reads a little-endian `i16`, advancing the reader by two bytes.
    fn read_i16_le(&mut self) -> (r: i16)
        requires
            old(self).remaining().len() >= 2,
        ensures
            r == to_signed(le_value(old(self).remaining().subrange(0, 2)), 2),
            final(self).remaining() == old(self).remaining().skip(2),
    {
        let byte_array = self.byte_array();
        let data = crate::read_i16_le(byte_array);
        let new_length = byte_array.len() - 2;
        self.advance(2, new_length);
        data
    }

    /// Reads a little-endian `i32`, advancing the reader by four bytes.
    fn read_i32_le(&mut self) -> (r: i32)
        requires
            old(self).remaining().len() >= 4,
        ensures
            r == to_signed(le_value(old(self).remaining().subrange(0, 4)), 4),
            final(self).remaining() == old(self).remaining().skip(4),
    {
        let byte_array = self.byte_array();
        let data = crate::read_i32_le(byte_array);
        let new_length = byte_array.len() - 4;
        self.advance(4, new_length);
        data
    }

    /// Reads a little-endian `i64`, advancing the reader by eight bytes.
    fn read_i64_le(&mut self) -> (r: i64)
        requires
            old(self).remaining().len() >= 8,
        ensures
            r == to_signed(le_value(old(self).remaining().subrange(0, 8)), 8),
            final(self).remaining() == old(self).remaining().skip(8),
    {
        let byte_array = self.byte_array();
        let data = crate::read_i64_le(byte_array);
        let new_length = byte_array.len() - 8;
        self.advance(8, new_length);
        data
    }

    /// Reads a little-endian `i128`, advancing the reader by sixteen bytes.
    fn read_i128_le(&mut self) -> (r: i128)
        requires
            old(self).remaining().len() >= 16,
        ensures
            r == to_signed(le_value(old(self).remaining().subrange(0, 16)), 16),
            final(self).remaining() == old(self).remaining().skip(16),
    {
        let byte_array = self.byte_array();
        let data = crate::read_i128_le(byte_array);
        let new_length = byte_array.len() - 16;
        self.advance(16, new_length);
        data
    }

    /// Reads a little-endian `isize`, advancing the reader by its width.
    fn read_isize_le(&mut self) -> (r: isize)
        requires
            old(self).remaining().len() >= usize_width(),
        ensures
            r == to_signed(
                le_value(old(self).remaining().subrange(0, usize_width() as int)),
                usize_width(),
            ),
            final(self).remaining() == old(self).remaining().skip(usize_width() as int),
    {
        let byte_array = self.byte_array();
        let data = crate::read_isize_le(byte_array);
        let width = (usize::BITS / 8) as usize;
        let new_length = byte_array.len() - width;
        self.advance(width, new_length);
        data
    }

    /// Reads `byte_size` raw bytes as an owned buffer, advancing the
    /// reader forward.  The bytes are copied verbatim: the declared
    /// order never alters a raw span.
    fn read_n_le(&mut self, byte_size: usize) -> (r: Vec<u8>)
        requires
            byte_size <= old(self).remaining().len(),
        ensures
            r@ == old(self).remaining().subrange(0, byte_size as int),
            final(self).remaining() == old(self).remaining().skip(byte_size as int),
    {
        let byte_array = self.byte_array();
        let head = slice_subrange(byte_array, 0, byte_size);
        let bytes = slice_to_vec(head);
        let new_length = byte_array.len() - byte_size;
        self.advance(byte_size, new_length);
        bytes
    }
}

pub trait BigEndianByteReader: ByteReader {
    /// Reads a big-endian `u8`, advancing the reader by one byte.
    fn read_u8_be(&mut self) -> (r: u8)
        requires
            old(self).remaining().len() >= 1,
        ensures
            r == be_value(old(self).remaining().subrange(0, 1)),
            final(self).remaining() == old(self).remaining().skip(1),
    {
        let byte_array = self.byte_array();
        let data = crate::read_u8_be(byte_array);
        let new_length = byte_array.len() - 1;
        self.advance(1, new_length);
        data
    }

    /// Reads a big-endian `u16`, advancing the reader by two bytes.
    fn read_u16_be(&mut self) -> (r: u16)
        requires
            old(self).remaining().len() >= 2,
        ensures
            r == be_value(old(self).remaining().subrange(0, 2)),
            final(self).remaining() == old(self).remaining().skip(2),
    {
        let byte_array = self.byte_array();
        let data = crate::read_u16_be(byte_array);
        let new_length = byte_array.len() - 2;
        self.advance(2, new_length);
        data
    }

    /// Reads a big-endian `u32`, advancing the reader by four bytes.
    fn read_u32_be(&mut self) -> (r: u32)
        requires
            old(self).remaining().len() >= 4,
        ensures
            r == be_value(old(self).remaining().subrange(0, 4)),
            final(self).remaining() == old(self).remaining().skip(4),
    {
        let byte_array = self.byte_array();
        let data = crate::read_u32_be(byte_array);
        let new_length = byte_array.len() - 4;
        self.advance(4, new_length);
        data
    }

    /// Reads a big-endian `u64`, advancing the reader by eight bytes.
    fn read_u64_be(&mut self) -> (r: u64)
        requires
            old(self).remaining().len() >= 8,
        ensures
            r == be_value(old(self).remaining().subrange(0, 8)),
            final(self).remaining() == old(self).remaining().skip(8),
    {
        let byte_array = self.byte_array();
        let data = crate::read_u64_be(byte_array);
        let new_length = byte_array.len() - 8;
        self.advance(8, new_length);
        data
    }

    /// Reads a big-endian `u128`, advancing the reader by sixteen bytes.
    fn read_u128_be(&mut self) -> (r: u128)
        requires
            old(self).remaining().len() >= 16,
        ensures
            r == be_value(old(self).remaining().subrange(0, 16)),
            final(self).remaining() == old(self).remaining().skip(16),
    {
        let byte_array = self.byte_array();
        let data = crate::read_u128_be(byte_array);
        let new_length = byte_array.len() - 16;
        self.advance(16, new_length);
        data
    }

    /// Reads a big-endian `usize`, advancing the reader by its width.
    fn read_usize_be(&mut self) -> (r: usize)
        requires
            old(self).remaining().len() >= usize_width(),
        ensures
            r == be_value(old(self).remaining().subrange(0, usize_width() as int)),
            final(self).remaining() == old(self).remaining().skip(usize_width() as int),
    {
        let byte_array = self.byte_array();
        let data = crate::read_usize_be(byte_array);
        let width = (usize::BITS / 8) as usize;
        let new_length = byte_array.len() - width;
        self.advance(width, new_length);
        data
    }

    /// Reads a big-endian `i8`, advancing the reader by one byte.
    fn read_i8_be(&mut self) -> (r: i8)
        requires
            old(self).remaining().len() >= 1,
        ensures
            r == to_signed(be_value(old(self).remaining().subrange(0, 1)), 1),
            final(self).remaining() == old(self).remaining().skip(1),
    {
        let byte_array = self.byte_array();
        let data = crate::read_i8_be(byte_array);
        let new_length = byte_array.len() - 1;
        self.advance(1, new_length);
        data
    }

    /// Reads a big-endian `i16`, advancing the reader by two bytes.
    fn read_i16_be(&mut self) -> (r: i16)
        requires
            old(self).remaining().len() >= 2,
        ensures
            r == to_signed(be_value(old(self).remaining().subrange(0, 2)), 2),
            final(self).remaining() == old(self).remaining().skip(2),
    {
        let byte_array = self.byte_array();
        let data = crate::read_i16_be(byte_array);
        let new_length = byte_array.len() - 2;
        self.advance(2, new_length);
        data
    }

    /// Reads a big-endian `i32`, advancing the reader by four bytes.
    fn read_i32_be(&mut self) -> (r: i32)
        requires
            old(self).remaining().len() >= 4,
        ensures
            r == to_signed(be_value(old(self).remaining().subrange(0, 4)), 4),
            final(self).remaining() == old(self).remaining().skip(4),
    {
        let byte_array = self.byte_array();
        let data = crate::read_i32_be(byte_array);
        let new_length = byte_array.len() - 4;
        self.advance(4, new_length);
        data
    }

    /// Reads a big-endian `i64`, advancing the reader by eight bytes.
    fn read_i64_be(&mut self) -> (r: i64)
        requires
            old(self).remaining().len() >= 8,
        ensures
            r == to_signed(be_value(old(self).remaining().subrange(0, 8)), 8),
            final(self).remaining() == old(self).remaining().skip(8),
    {
        let byte_array = self.byte_array();
        let data = crate::read_i64_be(byte_array);
        let new_length = byte_array.len() - 8;
        self.advance(8, new_length);
        data
    }

    /// Reads a big-endian `i128`, advancing the reader by sixteen bytes.
    fn read_i128_be(&mut self) -> (r: i128)
        requires
            old(self).remaining().len() >= 16,
        ensures
            r == to_signed(be_value(old(self).remaining().subrange(0, 16)), 16),
            final(self).remaining() == old(self).remaining().skip(16),
    {
        let byte_array = self.byte_array();
        let data = crate::read_i128_be(byte_array);
        let new_length = byte_array.len() - 16;
        self.advance(16, new_length);
        data
    }

    /// Reads a big-endian `isize`, advancing the reader by its width.
    fn read_isize_be(&mut self) -> (r: isize)
        requires
            old(self).remaining().len() >= usize_width(),
        ensures
            r == to_signed(
                be_value(old(self).remaining().subrange(0, usize_width() as int)),
                usize_width(),
            ),
            final(self).remaining() == old(self).remaining().skip(usize_width() as int),
    {
        let byte_array = self.byte_array();
        let data = crate::read_isize_be(byte_array);
        let width = (usize::BITS / 8) as usize;
        let new_length = byte_array.len() - width;
        self.advance(width, new_length);
        data
    }

    /// Reads `byte_size` raw bytes as an owned buffer, advancing the
    /// reader forward.  The bytes are copied verbatim: the declared
    /// order never alters a raw span.
    fn read_n_be(&mut self, byte_size: usize) -> (r: Vec<u8>)
        requires
            byte_size <= old(self).remaining().len(),
        ensures
            r@ == old(self).remaining().subrange(0, byte_size as int),
            final(self).remaining() == old(self).remaining().skip(byte_size as int),
    {
        let byte_array = self.byte_array();
        let head = slice_subrange(byte_array, 0, byte_size);
        let bytes = slice_to_vec(head);
        let new_length = byte_array.len() - byte_size;
        self.advance(byte_size, new_length);
        bytes
    }
}

} // verus!
