//! Writer capabilities over a growable byte buffer.
//!
//! [`ByteWriter`] is the sink state: a view of the bytes written so
//! far ([`ByteWriter::buffer`]) and the one mutating primitive,
//! [`ByteWriter::push_byte`], which appends a single byte at the end.
//! Prior bytes are never modified: every operation of the order traits
//! appends exactly the canonical representation of its value.
//!
//! The order traits ([`BigEndianByteWriter`], [`LittleEndianByteWriter`],
//! [`NativeEndianByteWriter`]) each add the encoding algorithm for one
//! byte order; a sink type declares the orders it supports by
//! implementing the matching traits.  A raw-span write appends the
//! bytes verbatim in every order: re-ordering applies to the bytes of
//! one scalar, never across a span.

use crate::endianness::be_bytes;
use crate::endianness::le_bytes;
use crate::endianness::lemma_be_bytes_mod;
use crate::endianness::lemma_be_bytes_split;
use crate::endianness::lemma_le_bytes_mod;
use crate::endianness::lemma_le_bytes_split;
use crate::endianness::lemma_pow256_values;
use crate::endianness::to_unsigned;
use crate::usize_width;
use vstd::prelude::*;
use vstd::slice::slice_index_get;

verus! {

pub trait ByteWriter {
    /// The bytes written to this sink so far.
    spec fn buffer(&self) -> Seq<u8>;

    /// Consumes the writer, yielding the raw owned byte buffer.
    fn to_vec(self) -> (v: Vec<u8>)
        ensures
            v@ == self.buffer(),
    ;

    /// Borrows the bytes written so far.
    fn as_slice(&self) -> (s: &[u8])
        ensures
            s@ == self.buffer(),
    ;

    /// Appends one byte at the end of the buffer.
    fn push_byte(&mut self, value: u8)
        ensures
            final(self).buffer() == old(self).buffer().push(value),
    ;
}

pub trait NativeEndianByteWriter: ByteWriter {
    /// Appends a `u8` in native-endian order: the byte itself.
    fn write_u8_ne(&mut self, value: u8)
        ensures
            final(self).buffer() == old(self).buffer() + le_bytes(value as nat, 1),
    {
        self.push_byte(value);
        proof {
            reveal_with_fuel(le_bytes, 2);
            assert(old(self).buffer() + le_bytes(value as nat, 1) =~= old(self).buffer().push(
                value,
            ));
        }
    }

    /// Appends a `u16` in native-endian order.  The supported targets
    /// are little-endian, so this is the little-endian encoding.
    fn write_u16_ne(&mut self, value: u16)
        ensures
            final(self).buffer() == old(self).buffer() + le_bytes(value as nat, 2),
    {
        self.push_byte((value % 256) as u8);
        self.push_byte((value / 256) as u8);
        proof {
            reveal_with_fuel(le_bytes, 3);
            assert(old(self).buffer() + le_bytes(value as nat, 2) =~= old(self).buffer().push(
                (value % 256) as u8,
            ).push((value / 256) as u8));
        }
    }

    /// Appends a `u32` in native-endian order.  The supported targets
    /// are little-endian, so this is the little-endian encoding.
    fn write_u32_ne(&mut self, value: u32)
        ensures
            final(self).buffer() == old(self).buffer() + le_bytes(value as nat, 4),
    {
        proof {
            lemma_pow256_values();
            lemma_le_bytes_split(value as nat, 2, 2);
            lemma_le_bytes_mod(value as nat, 2);
        }
        self.write_u16_ne((value % 0x10000) as u16);
        self.write_u16_ne((value / 0x10000) as u16);
        proof {
            assert(final(self).buffer() =~= old(self).buffer() + le_bytes(value as nat, 4));
        }
    }

    /// Appends a `u64` in native-endian order.  The supported targets
    /// are little-endian, so this is the little-endian encoding.
    fn write_u64_ne(&mut self, value: u64)
        ensures
            final(self).buffer() == old(self).buffer() + le_bytes(value as nat, 8),
    {
        proof {
            lemma_pow256_values();
            lemma_le_bytes_split(value as nat, 4, 4);
            lemma_le_bytes_mod(value as nat, 4);
        }
        self.write_u32_ne((value % 0x1_0000_0000) as u32);
        self.write_u32_ne((value / 0x1_0000_0000) as u32);
        proof {
            assert(final(self).buffer() =~= old(self).buffer() + le_bytes(value as nat, 8));
        }
    }

    /// Appends a `u128` in native-endian order.  The supported targets
    /// are little-endian, so this is the little-endian encoding.
    fn write_u128_ne(&mut self, value: u128)
        ensures
            final(self).buffer() == old(self).buffer() + le_bytes(value as nat, 16),
    {
        proof {
            lemma_pow256_values();
            lemma_le_bytes_split(value as nat, 8, 8);
            lemma_le_bytes_mod(value as nat, 8);
        }
        self.write_u64_ne((value % 0x1_0000_0000_0000_0000) as u64);
        self.write_u64_ne((value / 0x1_0000_0000_0000_0000) as u64);
        proof {
            assert(final(self).buffer() =~= old(self).buffer() + le_bytes(value as nat, 16));
        }
    }

    /// Appends a `usize` in native-endian order.  The supported targets
    /// are little-endian, so this is the little-endian encoding.
    fn write_usize_ne(&mut self, value: usize)
        ensures
            final(self).buffer() == old(self).buffer() + le_bytes(value as nat, usize_width()),
    {
        if usize::BITS == 64 {
            self.write_u64_ne(value as u64);
        } else {
            self.write_u32_ne(value as u32);
        }
    }

    /// Appends an `i8` in native-endian order: its two's-complement byte.
    fn write_i8_ne(&mut self, value: i8)
        ensures
            final(self).buffer() == old(self).buffer() + le_bytes(to_unsigned(value as int, 1), 1),
    {
        proof {
            lemma_pow256_values();
        }
        let unsigned_image: u8 = if value >= 0 {
            value as u8
        } else {
            ((value - i8::MIN) as u8) + 0x80u8
        };
        self.write_u8_ne(unsigned_image);
    }

    /// Appends an `i16` in native-endian order.  The supported targets
    /// are little-endian, so this is the little-endian encoding.
    fn write_i16_ne(&mut self, value: i16)
        ensures
            final(self).buffer() == old(self).buffer() + le_bytes(to_unsigned(value as int, 2), 2),
    {
        proof {
            lemma_pow256_values();
        }
        let unsigned_image: u16 = if value >= 0 {
            value as u16
        } else {
            ((value - i16::MIN) as u16) + 0x8000u16
        };
        self.write_u16_ne(unsigned_image);
    }

    /// Appends an `i32` in native-endian order.  The supported targets
    /// are little-endian, so this is the little-endian encoding.
    fn write_i32_ne(&mut self, value: i32)
        ensures
            final(self).buffer() == old(self).buffer() + le_bytes(to_unsigned(value as int, 4), 4),
    {
        proof {
            lemma_pow256_values();
        }
        let unsigned_image: u32 = if value >= 0 {
            value as u32
        } else {
            ((value - i32::MIN) as u32) + 0x8000_0000u32
        };
        self.write_u32_ne(unsigned_image);
    }

    /// Appends an `i64` in native-endian order.  The supported targets
    /// are little-endian, so this is the little-endian encoding.
    fn write_i64_ne(&mut self, value: i64)
        ensures
            final(self).buffer() == old(self).buffer() + le_bytes(to_unsigned(value as int, 8), 8),
    {
        proof {
            lemma_pow256_values();
        }
        let unsigned_image: u64 = if value >= 0 {
            value as u64
        } else {
            ((value - i64::MIN) as u64) + 0x8000_0000_0000_0000u64
        };
        self.write_u64_ne(unsigned_image);
    }

    /// Appends an `i128` in native-endian order.  The supported targets
    /// are little-endian, so this is the little-endian encoding.
    fn write_i128_ne(&mut self, value: i128)
        ensures
            final(self).buffer() == old(self).buffer() + le_bytes(
                to_unsigned(value as int, 16),
                16,
            ),
    {
        proof {
            lemma_pow256_values();
        }
        let unsigned_image: u128 = if value >= 0 {
            value as u128
        } else {
            ((value - i128::MIN) as u128) + 0x8000_0000_0000_0000_0000_0000_0000_0000u128
        };
        self.write_u128_ne(unsigned_image);
    }

    /// Appends an `isize` in native-endian order.  The supported targets
    /// are little-endian, so this is the little-endian encoding.
    fn write_isize_ne(&mut self, value: isize)
        ensures
            final(self).buffer() == old(self).buffer() + le_bytes(
                to_unsigned(value as int, usize_width()),
                usize_width(),
            ),
    {
        if usize::BITS == 64 {
            self.write_i64_ne(value as i64);
        } else {
            self.write_i32_ne(value as i32);
        }
    }

    /// Appends raw bytes verbatim: a raw span is never re-ordered.
    fn write_bytes_ne(&mut self, value: &[u8])
        ensures
            final(self).buffer() == old(self).buffer() + value@,
    {
        let length = value.len();
        let mut index: usize = 0;
        while index < length
            invariant
                index <= length,
                length == value@.len(),
                self.buffer() == old(self).buffer() + value@.subrange(0, index as int),
            decreases length - index,
        {
            self.push_byte(*slice_index_get(value, index));
            index = index + 1;
            proof {
                assert(self.buffer() =~= old(self).buffer() + value@.subrange(0, index as int));
            }
        }
        proof {
            assert(old(self).buffer() + value@.subrange(0, length as int) =~= old(self).buffer()
                + value@);
        }
    }
}

pub trait LittleEndianByteWriter: ByteWriter {
    /// Appends a `u8` in little-endian order: the byte itself.
    fn write_u8_le(&mut self, value: u8)
        ensures
            final(self).buffer() == old(self).buffer() + le_bytes(value as nat, 1),
    {
        self.push_byte(value);
        proof {
            reveal_with_fuel(le_bytes, 2);
            assert(old(self).buffer() + le_bytes(value as nat, 1) =~= old(self).buffer().push(
                value,
            ));
        }
    }

    /// Appends a `u16` in little-endian order: least significant byte first.
    fn write_u16_le(&mut self, value: u16)
        ensures
            final(self).buffer() == old(self).buffer() + le_bytes(value as nat, 2),
    {
        self.push_byte((value % 256) as u8);
        self.push_byte((value / 256) as u8);
        proof {
            reveal_with_fuel(le_bytes, 3);
            assert(old(self).buffer() + le_bytes(value as nat, 2) =~= old(self).buffer().push(
                (value % 256) as u8,
            ).push((value / 256) as u8));
        }
    }

    /// Appends a `u32` in little-endian order: least significant byte first.
    fn write_u32_le(&mut self, value: u32)
        ensures
            final(self).buffer() == old(self).buffer() + le_bytes(value as nat, 4),
    {
        proof {
            lemma_pow256_values();
            lemma_le_bytes_split(value as nat, 2, 2);
            lemma_le_bytes_mod(value as nat, 2);
        }
        self.write_u16_le((value % 0x10000) as u16);
        self.write_u16_le((value / 0x10000) as u16);
        proof {
            assert(final(self).buffer() =~= old(self).buffer() + le_bytes(value as nat, 4));
        }
    }

    /// Appends a `u64` in little-endian order: least significant byte first.
    fn write_u64_le(&mut self, value: u64)
        ensures
            final(self).buffer() == old(self).buffer() + le_bytes(value as nat, 8),
    {
        proof {
            lemma_pow256_values();
            lemma_le_bytes_split(value as nat, 4, 4);
            lemma_le_bytes_mod(value as nat, 4);
        }
        self.write_u32_le((value % 0x1_0000_0000) as u32);
        self.write_u32_le((value / 0x1_0000_0000) as u32);
        proof {
            assert(final(self).buffer() =~= old(self).buffer() + le_bytes(value as nat, 8));
        }
    }

    /// Appends a `u128` in little-endian order: least significant byte first.
    fn write_u128_le(&mut self, value: u128)
        ensures
            final(self).buffer() == old(self).buffer() + le_bytes(value as nat, 16),
    {
        proof {
            lemma_pow256_values();
            lemma_le_bytes_split(value as nat, 8, 8);
            lemma_le_bytes_mod(value as nat, 8);
        }
        self.write_u64_le((value % 0x1_0000_0000_0000_0000) as u64);
        self.write_u64_le((value / 0x1_0000_0000_0000_0000) as u64);
        proof {
            assert(final(self).buffer() =~= old(self).buffer() + le_bytes(value as nat, 16));
        }
    }

    /// Appends a `usize` in little-endian order: least significant byte first.
    fn write_usize_le(&mut self, value: usize)
        ensures
            final(self).buffer() == old(self).buffer() + le_bytes(value as nat, usize_width()),
    {
        if usize::BITS == 64 {
            self.write_u64_le(value as u64);
        } else {
            self.write_u32_le(value as u32);
        }
    }

    /// Appends an `i8` in little-endian order: its two's-complement byte.
    fn write_i8_le(&mut self, value: i8)
        ensures
            final(self).buffer() == old(self).buffer() + le_bytes(to_unsigned(value as int, 1), 1),
    {
        proof {
            lemma_pow256_values();
        }
        let unsigned_image: u8 = if value >= 0 {
            value as u8
        } else {
            ((value - i8::MIN) as u8) + 0x80u8
        };
        self.write_u8_le(unsigned_image);
    }

    /// Appends an `i16` in little-endian order: its two's-complement
    /// image, least significant byte first.
    fn write_i16_le(&mut self, value: i16)
        ensures
            final(self).buffer() == old(self).buffer() + le_bytes(to_unsigned(value as int, 2), 2),
    {
        proof {
            lemma_pow256_values();
        }
        let unsigned_image: u16 = if value >= 0 {
            value as u16
        } else {
            ((value - i16::MIN) as u16) + 0x8000u16
        };
        self.write_u16_le(unsigned_image);
    }

    /// Appends an `i32` in little-endian order: its two's-complement
    /// image, least significant byte first.
    fn write_i32_le(&mut self, value: i32)
        ensures
            final(self).buffer() == old(self).buffer() + le_bytes(to_unsigned(value as int, 4), 4),
    {
        proof {
            lemma_pow256_values();
        }
        let unsigned_image: u32 = if value >= 0 {
            value as u32
        } else {
            ((value - i32::MIN) as u32) + 0x8000_0000u32
        };
        self.write_u32_le(unsigned_image);
    }

    /// Appends an `i64` in little-endian order: its two's-complement
    /// image, least significant byte first.
    fn write_i64_le(&mut self, value: i64)
        ensures
            final(self).buffer() == old(self).buffer() + le_bytes(to_unsigned(value as int, 8), 8),
    {
        proof {
            lemma_pow256_values();
        }
        let unsigned_image: u64 = if value >= 0 {
            value as u64
        } else {
            ((value - i64::MIN) as u64) + 0x8000_0000_0000_0000u64
        };
        self.write_u64_le(unsigned_image);
    }

    /// Appends an `i128` in little-endian order: its two's-complement
    /// image, least significant byte first.
    fn write_i128_le(&mut self, value: i128)
        ensures
            final(self).buffer() == old(self).buffer() + le_bytes(
                to_unsigned(value as int, 16),
                16,
            ),
    {
        proof {
            lemma_pow256_values();
        }
        let unsigned_image: u128 = if value >= 0 {
            value as u128
        } else {
            ((value - i128::MIN) as u128) + 0x8000_0000_0000_0000_0000_0000_0000_0000u128
        };
        self.write_u128_le(unsigned_image);
    }

    /// Appends an `isize` in little-endian order: its two's-complement
    /// image, least significant byte first.
    fn write_isize_le(&mut self, value: isize)
        ensures
            final(self).buffer() == old(self).buffer() + le_bytes(
                to_unsigned(value as int, usize_width()),
                usize_width(),
            ),
    {
        if usize::BITS == 64 {
            self.write_i64_le(value as i64);
        } else {
            self.write_i32_le(value as i32);
        }
    }

    /// Appends raw bytes verbatim: a raw span is never re-ordered.
    fn write_bytes_le(&mut self, value: &[u8])
        ensures
            final(self).buffer() == old(self).buffer() + value@,
    {
        let length = value.len();
        let mut index: usize = 0;
        while index < length
            invariant
                index <= length,
                length == value@.len(),
                self.buffer() == old(self).buffer() + value@.subrange(0, index as int),
            decreases length - index,
        {
            self.push_byte(*slice_index_get(value, index));
            index = index + 1;
            proof {
                assert(self.buffer() =~= old(self).buffer() + value@.subrange(0, index as int));
            }
        }
        proof {
            assert(old(self).buffer() + value@.subrange(0, length as int) =~= old(self).buffer()
                + value@);
        }
    }
}

pub trait BigEndianByteWriter: ByteWriter {
    /// Appends a `u8` in big-endian order: the byte itself.
    fn write_u8_be(&mut self, value: u8)
        ensures
            final(self).buffer() == old(self).buffer() + be_bytes(value as nat, 1),
    {
        self.push_byte(value);
        proof {
            reveal_with_fuel(be_bytes, 2);
            assert(old(self).buffer() + be_bytes(value as nat, 1) =~= old(self).buffer().push(
                value,
            ));
        }
    }

    /// Appends a `u16` in big-endian order: most significant byte first.
    fn write_u16_be(&mut self, value: u16)
        ensures
            final(self).buffer() == old(self).buffer() + be_bytes(value as nat, 2),
    {
        self.push_byte((value / 256) as u8);
        self.push_byte((value % 256) as u8);
        proof {
            reveal_with_fuel(be_bytes, 3);
            assert(old(self).buffer() + be_bytes(value as nat, 2) =~= old(self).buffer().push(
                (value / 256) as u8,
            ).push((value % 256) as u8));
        }
    }

    /// Appends a `u32` in big-endian order: most significant byte first.
    fn write_u32_be(&mut self, value: u32)
        ensures
            final(self).buffer() == old(self).buffer() + be_bytes(value as nat, 4),
    {
        proof {
            lemma_pow256_values();
            lemma_be_bytes_split(value as nat, 2, 2);
            lemma_be_bytes_mod(value as nat, 2);
        }
        self.write_u16_be((value / 0x10000) as u16);
        self.write_u16_be((value % 0x10000) as u16);
        proof {
            assert(final(self).buffer() =~= old(self).buffer() + be_bytes(value as nat, 4));
        }
    }

    /// Appends a `u64` in big-endian order: most significant byte first.
    fn write_u64_be(&mut self, value: u64)
        ensures
            final(self).buffer() == old(self).buffer() + be_bytes(value as nat, 8),
    {
        proof {
            lemma_pow256_values();
            lemma_be_bytes_split(value as nat, 4, 4);
            lemma_be_bytes_mod(value as nat, 4);
        }
        self.write_u32_be((value / 0x1_0000_0000) as u32);
        self.write_u32_be((value % 0x1_0000_0000) as u32);
        proof {
            assert(final(self).buffer() =~= old(self).buffer() + be_bytes(value as nat, 8));
        }
    }

    /// Appends a `u128` in big-endian order: most significant byte first.
    fn write_u128_be(&mut self, value: u128)
        ensures
            final(self).buffer() == old(self).buffer() + be_bytes(value as nat, 16),
    {
        proof {
            lemma_pow256_values();
            lemma_be_bytes_split(value as nat, 8, 8);
            lemma_be_bytes_mod(value as nat, 8);
        }
        self.write_u64_be((value / 0x1_0000_0000_0000_0000) as u64);
        self.write_u64_be((value % 0x1_0000_0000_0000_0000) as u64);
        proof {
            assert(final(self).buffer() =~= old(self).buffer() + be_bytes(value as nat, 16));
        }
    }

    /// Appends a `usize` in big-endian order: most significant byte first.
    fn write_usize_be(&mut self, value: usize)
        ensures
            final(self).buffer() == old(self).buffer() + be_bytes(value as nat, usize_width()),
    {
        if usize::BITS == 64 {
            self.write_u64_be(value as u64);
        } else {
            self.write_u32_be(value as u32);
        }
    }

    /// Appends an `i8` in big-endian order: its two's-complement byte.
    fn write_i8_be(&mut self, value: i8)
        ensures
            final(self).buffer() == old(self).buffer() + be_bytes(to_unsigned(value as int, 1), 1),
    {
        proof {
            lemma_pow256_values();
        }
        let unsigned_image: u8 = if value >= 0 {
            value as u8
        } else {
            ((value - i8::MIN) as u8) + 0x80u8
        };
        self.write_u8_be(unsigned_image);
    }

    /// Appends an `i16` in big-endian order: its two's-complement
    /// image, most significant byte first.
    fn write_i16_be(&mut self, value: i16)
        ensures
            final(self).buffer() == old(self).buffer() + be_bytes(to_unsigned(value as int, 2), 2),
    {
        proof {
            lemma_pow256_values();
        }
        let unsigned_image: u16 = if value >= 0 {
            value as u16
        } else {
            ((value - i16::MIN) as u16) + 0x8000u16
        };
        self.write_u16_be(unsigned_image);
    }

    /// Appends an `i32` in big-endian order: its two's-complement
    /// image, most significant byte first.
    fn write_i32_be(&mut self, value: i32)
        ensures
            final(self).buffer() == old(self).buffer() + be_bytes(to_unsigned(value as int, 4), 4),
    {
        proof {
            lemma_pow256_values();
        }
        let unsigned_image: u32 = if value >= 0 {
            value as u32
        } else {
            ((value - i32::MIN) as u32) + 0x8000_0000u32
        };
        self.write_u32_be(unsigned_image);
    }

    /// Appends an `i64` in big-endian order: its two's-complement
    /// image, most significant byte first.
    fn write_i64_be(&mut self, value: i64)
        ensures
            final(self).buffer() == old(self).buffer() + be_bytes(to_unsigned(value as int, 8), 8),
    {
        proof {
            lemma_pow256_values();
        }
        let unsigned_image: u64 = if value >= 0 {
            value as u64
        } else {
            ((value - i64::MIN) as u64) + 0x8000_0000_0000_0000u64
        };
        self.write_u64_be(unsigned_image);
    }

    /// Appends an `i128` in big-endian order: its two's-complement
    /// image, most significant byte first.
    fn write_i128_be(&mut self, value: i128)
        ensures
            final(self).buffer() == old(self).buffer() + be_bytes(
                to_unsigned(value as int, 16),
                16,
            ),
    {
        proof {
            lemma_pow256_values();
        }
        let unsigned_image: u128 = if value >= 0 {
            value as u128
        } else {
            ((value - i128::MIN) as u128) + 0x8000_0000_0000_0000_0000_0000_0000_0000u128
        };
        self.write_u128_be(unsigned_image);
    }

    /// Appends an `isize` in big-endian order: its two's-complement
    /// image, most significant byte first.
    fn write_isize_be(&mut self, value: isize)
        ensures
            final(self).buffer() == old(self).buffer() + be_bytes(
                to_unsigned(value as int, usize_width()),
                usize_width(),
            ),
    {
        if usize::BITS == 64 {
            self.write_i64_be(value as i64);
        } else {
            self.write_i32_be(value as i32);
        }
    }

    /// Appends raw bytes verbatim: a raw span is never re-ordered.
    fn write_bytes_be(&mut self, value: &[u8])
        ensures
            final(self).buffer() == old(self).buffer() + value@,
    {
        let length = value.len();
        let mut index: usize = 0;
        while index < length
            invariant
                index <= length,
                length == value@.len(),
                self.buffer() == old(self).buffer() + value@.subrange(0, index as int),
            decreases length - index,
        {
            self.push_byte(*slice_index_get(value, index));
            index = index + 1;
            proof {
                assert(self.buffer() =~= old(self).buffer() + value@.subrange(0, index as int));
            }
        }
        proof {
            assert(old(self).buffer() + value@.subrange(0, length as int) =~= old(self).buffer()
                + value@);
        }
    }
}

} // verus!
