//! Byte-order-aware encoding and decoding of fixed-width integers.
//!
//! A buffer of bytes can be interpreted as a sequence of fixed-width
//! scalars in big-endian, little-endian or native byte order.  The
//! scalar primitives in this module interpret the front of a byte slice
//! as one scalar; the cursor types in [`reader`], [`writer`] and
//! [`hyper_stream`] thread those primitives through a buffer, checking
//! bounds once per operation and advancing by exactly the width read.
//!
//! Every primitive requires its caller to supply enough bytes and in
//! exchange performs no run-time check of its own: the bound is
//! discharged once, where the caller proves it.
//!
//! On the supported targets the native in-memory representation of a
//! scalar is little-endian, so the native-order operations share the
//! little-endian model of [`endianness`].

use crate::endianness::be_value;
use crate::endianness::le_value;
use crate::endianness::lemma_be_value_split;
use crate::endianness::lemma_le_value_split;
use crate::endianness::lemma_pow256_values;
use crate::endianness::pow256;
use crate::endianness::to_signed;
use vstd::prelude::*;
use vstd::slice::slice_index_get;
use vstd::slice::slice_subrange;

pub mod endianness;
pub mod hyper_stream;
pub mod reader;
pub mod readers;
pub mod writer;
pub mod writers;

verus! {

/// The width in bytes of a pointer-sized integer on this target.
pub open spec fn usize_width() -> nat {
    (usize::BITS / 8) as nat
}

/// Interprets the first byte of `bytes` as a big-endian `u8`.
pub fn read_u8_be(bytes: &[u8]) -> (r: u8)
    requires
        bytes@.len() >= 1,
    ensures
        r == be_value(bytes@.subrange(0, 1)),
{
    let b = *slice_index_get(bytes, 0);
    proof {
        let s = bytes@.subrange(0, 1);
        assert(s.drop_last() =~= Seq::<u8>::empty());
        assert(be_value(Seq::<u8>::empty()) == 0);
        assert(be_value(s) == s.last());
    }
    b
}

/// Interprets the first two bytes of `bytes` as a big-endian `u16`.
pub fn read_u16_be(bytes: &[u8]) -> (r: u16)
    requires
        bytes@.len() >= 2,
    ensures
        r == be_value(bytes@.subrange(0, 2)),
{
    let b0 = *slice_index_get(bytes, 0);
    let b1 = *slice_index_get(bytes, 1);
    proof {
        let s = bytes@.subrange(0, 2);
        assert(s.drop_last() =~= bytes@.subrange(0, 1));
        let s1 = bytes@.subrange(0, 1);
        assert(s1.drop_last() =~= Seq::<u8>::empty());
        assert(be_value(Seq::<u8>::empty()) == 0);
        assert(be_value(s1) == s1.last());
        assert(be_value(s) == 256 * be_value(s.drop_last()) + s.last());
    }
    256u16 * (b0 as u16) + (b1 as u16)
}

/// Interprets the first four bytes of `bytes` as a big-endian `u32`.
pub fn read_u32_be(bytes: &[u8]) -> (r: u32)
    requires
        bytes@.len() >= 4,
    ensures
        r == be_value(bytes@.subrange(0, 4)),
{
    let hi = read_u16_be(bytes);
    let lo_slice = slice_subrange(bytes, 2, 4);
    let lo = read_u16_be(lo_slice);
    proof {
        lemma_pow256_values();
        let s = bytes@.subrange(0, 4);
        lemma_be_value_split(s, 2);
        assert(s.subrange(0, 2) =~= bytes@.subrange(0, 2));
        assert(s.subrange(2, 4) =~= lo_slice@.subrange(0, 2));
        assert(s.len() == 4);
        assert(be_value(s) == be_value(s.subrange(0, 2)) * pow256(2) + be_value(
            s.subrange(2, 4),
        ));
        assert(hi == be_value(s.subrange(0, 2)));
        assert(lo == be_value(s.subrange(2, 4)));
        assert(pow256(2) == 0x10000);
        assert(be_value(s) == hi * 0x10000 + lo);
        assert(0x10000 * (hi as int) + (lo as int) <= 0xFFFF_FFFF) by (nonlinear_arith)
            requires
                lo <= 0xFFFFu16,
                hi <= 0xFFFFu16,
        ;
    }
    0x10000u32 * (hi as u32) + (lo as u32)
}

/// Interprets the first eight bytes of `bytes` as a big-endian `u64`.
pub fn read_u64_be(bytes: &[u8]) -> (r: u64)
    requires
        bytes@.len() >= 8,
    ensures
        r == be_value(bytes@.subrange(0, 8)),
{
    let hi = read_u32_be(bytes);
    let lo_slice = slice_subrange(bytes, 4, 8);
    let lo = read_u32_be(lo_slice);
    proof {
        lemma_pow256_values();
        let s = bytes@.subrange(0, 8);
        lemma_be_value_split(s, 4);
        assert(s.subrange(0, 4) =~= bytes@.subrange(0, 4));
        assert(s.subrange(4, 8) =~= lo_slice@.subrange(0, 4));
        assert(s.len() == 8);
        assert(be_value(s) == be_value(s.subrange(0, 4)) * pow256(4) + be_value(
            s.subrange(4, 8),
        ));
        assert(hi == be_value(s.subrange(0, 4)));
        assert(lo == be_value(s.subrange(4, 8)));
        assert(pow256(4) == 0x1_0000_0000);
        assert(be_value(s) == hi * 0x1_0000_0000 + lo);
        assert(0x1_0000_0000 * (hi as int) + (lo as int) <= 0xFFFF_FFFF_FFFF_FFFF)
            by (nonlinear_arith)
            requires
                lo <= 0xFFFF_FFFFu32,
                hi <= 0xFFFF_FFFFu32,
        ;
    }
    0x1_0000_0000u64 * (hi as u64) + (lo as u64)
}

/// Interprets the first sixteen bytes of `bytes` as a big-endian `u128`.
pub fn read_u128_be(bytes: &[u8]) -> (r: u128)
    requires
        bytes@.len() >= 16,
    ensures
        r == be_value(bytes@.subrange(0, 16)),
{
    let hi = read_u64_be(bytes);
    let lo_slice = slice_subrange(bytes, 8, 16);
    let lo = read_u64_be(lo_slice);
    proof {
        lemma_pow256_values();
        let s = bytes@.subrange(0, 16);
        lemma_be_value_split(s, 8);
        assert(s.subrange(0, 8) =~= bytes@.subrange(0, 8));
        assert(s.subrange(8, 16) =~= lo_slice@.subrange(0, 8));
        assert(s.len() == 16);
        assert(be_value(s) == be_value(s.subrange(0, 8)) * pow256(8) + be_value(
            s.subrange(8, 16),
        ));
        assert(hi == be_value(s.subrange(0, 8)));
        assert(lo == be_value(s.subrange(8, 16)));
        assert(pow256(8) == 0x1_0000_0000_0000_0000);
        assert(be_value(s) == hi * 0x1_0000_0000_0000_0000 + lo);
        assert(0x1_0000_0000_0000_0000 * (hi as int) + (lo as int) <= 0xFFFF_FFFF_FFFF_FFFF_FFFF_FFFF_FFFF_FFFF)
            by (nonlinear_arith)
            requires
                lo <= 0xFFFF_FFFF_FFFF_FFFFu64,
                hi <= 0xFFFF_FFFF_FFFF_FFFFu64,
        ;
    }
    0x1_0000_0000_0000_0000u128 * (hi as u128) + (lo as u128)
}

/// Interprets the first pointer-width bytes of `bytes` as a big-endian `usize`.
pub fn read_usize_be(bytes: &[u8]) -> (r: usize)
    requires
        bytes@.len() >= usize_width(),
    ensures
        r == be_value(bytes@.subrange(0, usize_width() as int)),
{
    if usize::BITS == 64 {
        read_u64_be(bytes) as usize
    } else {
        read_u32_be(bytes) as usize
    }
}

/// Interprets the first byte of `bytes` as a little-endian `u8`.
pub fn read_u8_le(bytes: &[u8]) -> (r: u8)
    requires
        bytes@.len() >= 1,
    ensures
        r == le_value(bytes@.subrange(0, 1)),
{
    let b = *slice_index_get(bytes, 0);
    proof {
        let s = bytes@.subrange(0, 1);
        assert(s.skip(1) =~= Seq::<u8>::empty());
        assert(le_value(Seq::<u8>::empty()) == 0);
        assert(le_value(s) == s[0] + 256 * le_value(s.skip(1)));
    }
    b
}

/// Interprets the first two bytes of `bytes` as a little-endian `u16`.
pub fn read_u16_le(bytes: &[u8]) -> (r: u16)
    requires
        bytes@.len() >= 2,
    ensures
        r == le_value(bytes@.subrange(0, 2)),
{
    let b0 = *slice_index_get(bytes, 0);
    let b1 = *slice_index_get(bytes, 1);
    proof {
        let s = bytes@.subrange(0, 2);
        assert(s.skip(1) =~= bytes@.subrange(1, 2));
        let s1 = bytes@.subrange(1, 2);
        assert(s1.skip(1) =~= Seq::<u8>::empty());
        assert(le_value(Seq::<u8>::empty()) == 0);
        assert(le_value(s1) == s1[0] + 256 * le_value(s1.skip(1)));
        assert(le_value(s) == s[0] + 256 * le_value(s.skip(1)));
    }
    (b0 as u16) + 256u16 * (b1 as u16)
}

/// Interprets the first four bytes of `bytes` as a little-endian `u32`.
pub fn read_u32_le(bytes: &[u8]) -> (r: u32)
    requires
        bytes@.len() >= 4,
    ensures
        r == le_value(bytes@.subrange(0, 4)),
{
    let lo = read_u16_le(bytes);
    let hi_slice = slice_subrange(bytes, 2, 4);
    let hi = read_u16_le(hi_slice);
    proof {
        lemma_pow256_values();
        lemma_le_value_split(bytes@.subrange(0, 4), 2);
        assert(bytes@.subrange(0, 4).subrange(0, 2) =~= bytes@.subrange(0, 2));
        assert(bytes@.subrange(0, 4).subrange(2, 4) =~= hi_slice@.subrange(0, 2));
        assert((lo as int) + 0x10000 * (hi as int) <= 0xFFFF_FFFF) by (nonlinear_arith)
            requires
                lo <= 0xFFFFu16,
                hi <= 0xFFFFu16,
        ;
    }
    (lo as u32) + 0x10000u32 * (hi as u32)
}

/// Interprets the first eight bytes of `bytes` as a little-endian `u64`.
pub fn read_u64_le(bytes: &[u8]) -> (r: u64)
    requires
        bytes@.len() >= 8,
    ensures
        r == le_value(bytes@.subrange(0, 8)),
{
    let lo = read_u32_le(bytes);
    let hi_slice = slice_subrange(bytes, 4, 8);
    let hi = read_u32_le(hi_slice);
    proof {
        lemma_pow256_values();
        lemma_le_value_split(bytes@.subrange(0, 8), 4);
        assert(bytes@.subrange(0, 8).subrange(0, 4) =~= bytes@.subrange(0, 4));
        assert(bytes@.subrange(0, 8).subrange(4, 8) =~= hi_slice@.subrange(0, 4));
        assert((lo as int) + 0x1_0000_0000 * (hi as int) <= 0xFFFF_FFFF_FFFF_FFFF)
            by (nonlinear_arith)
            requires
                lo <= 0xFFFF_FFFFu32,
                hi <= 0xFFFF_FFFFu32,
        ;
    }
    (lo as u64) + 0x1_0000_0000u64 * (hi as u64)
}

/// Interprets the first sixteen bytes of `bytes` as a little-endian `u128`.
pub fn read_u128_le(bytes: &[u8]) -> (r: u128)
    requires
        bytes@.len() >= 16,
    ensures
        r == le_value(bytes@.subrange(0, 16)),
{
    let lo = read_u64_le(bytes);
    let hi_slice = slice_subrange(bytes, 8, 16);
    let hi = read_u64_le(hi_slice);
    proof {
        lemma_pow256_values();
        lemma_le_value_split(bytes@.subrange(0, 16), 8);
        assert(bytes@.subrange(0, 16).subrange(0, 8) =~= bytes@.subrange(0, 8));
        assert(bytes@.subrange(0, 16).subrange(8, 16) =~= hi_slice@.subrange(0, 8));
        assert((lo as int) + 0x1_0000_0000_0000_0000 * (hi as int) <= 0xFFFF_FFFF_FFFF_FFFF_FFFF_FFFF_FFFF_FFFF)
            by (nonlinear_arith)
            requires
                lo <= 0xFFFF_FFFF_FFFF_FFFFu64,
                hi <= 0xFFFF_FFFF_FFFF_FFFFu64,
        ;
    }
    (lo as u128) + 0x1_0000_0000_0000_0000u128 * (hi as u128)
}

/// Interprets the first pointer-width bytes of `bytes` as a little-endian `usize`.
pub fn read_usize_le(bytes: &[u8]) -> (r: usize)
    requires
        bytes@.len() >= usize_width(),
    ensures
        r == le_value(bytes@.subrange(0, usize_width() as int)),
{
    if usize::BITS == 64 {
        read_u64_le(bytes) as usize
    } else {
        read_u32_le(bytes) as usize
    }
}

/// Interprets the first byte of `bytes` as a native-endian `u8`.
/// The supported targets are little-endian, so this is the little-endian reading.
pub fn read_u8_ne(bytes: &[u8]) -> (r: u8)
    requires
        bytes@.len() >= 1,
    ensures
        r == le_value(bytes@.subrange(0, 1)),
{
    read_u8_le(bytes)
}

/// Interprets the first two bytes of `bytes` as a native-endian `u16`.
/// The supported targets are little-endian, so this is the little-endian reading.
pub fn read_u16_ne(bytes: &[u8]) -> (r: u16)
    requires
        bytes@.len() >= 2,
    ensures
        r == le_value(bytes@.subrange(0, 2)),
{
    read_u16_le(bytes)
}

/// Interprets the first four bytes of `bytes` as a native-endian `u32`.
/// The supported targets are little-endian, so this is the little-endian reading.
pub fn read_u32_ne(bytes: &[u8]) -> (r: u32)
    requires
        bytes@.len() >= 4,
    ensures
        r == le_value(bytes@.subrange(0, 4)),
{
    read_u32_le(bytes)
}

/// Interprets the first eight bytes of `bytes` as a native-endian `u64`.
/// The supported targets are little-endian, so this is the little-endian reading.
pub fn read_u64_ne(bytes: &[u8]) -> (r: u64)
    requires
        bytes@.len() >= 8,
    ensures
        r == le_value(bytes@.subrange(0, 8)),
{
    read_u64_le(bytes)
}

/// Interprets the first sixteen bytes of `bytes` as a native-endian `u128`.
/// The supported targets are little-endian, so this is the little-endian reading.
pub fn read_u128_ne(bytes: &[u8]) -> (r: u128)
    requires
        bytes@.len() >= 16,
    ensures
        r == le_value(bytes@.subrange(0, 16)),
{
    read_u128_le(bytes)
}

/// Interprets the first pointer-width bytes of `bytes` as a native-endian `usize`.
/// The supported targets are little-endian, so this is the little-endian reading.
pub fn read_usize_ne(bytes: &[u8]) -> (r: usize)
    requires
        bytes@.len() >= usize_width(),
    ensures
        r == le_value(bytes@.subrange(0, usize_width() as int)),
{
    read_usize_le(bytes)
}

/// Interprets the first byte of `bytes` as a big-endian `i8`.
pub fn read_i8_be(bytes: &[u8]) -> (r: i8)
    requires
        bytes@.len() >= 1,
    ensures
        r == to_signed(be_value(bytes@.subrange(0, 1)), 1),
{
    let u = read_u8_be(bytes);
    proof {
        lemma_pow256_values();
    }
    if u < 0x80u8 {
        u as i8
    } else {
        ((u - 0x80u8) as i8) + i8::MIN
    }
}

/// Interprets the first two bytes of `bytes` as a big-endian `i16`.
pub fn read_i16_be(bytes: &[u8]) -> (r: i16)
    requires
        bytes@.len() >= 2,
    ensures
        r == to_signed(be_value(bytes@.subrange(0, 2)), 2),
{
    let u = read_u16_be(bytes);
    proof {
        lemma_pow256_values();
    }
    if u < 0x8000u16 {
        u as i16
    } else {
        ((u - 0x8000u16) as i16) + i16::MIN
    }
}

/// Interprets the first four bytes of `bytes` as a big-endian `i32`.
pub fn read_i32_be(bytes: &[u8]) -> (r: i32)
    requires
        bytes@.len() >= 4,
    ensures
        r == to_signed(be_value(bytes@.subrange(0, 4)), 4),
{
    let u = read_u32_be(bytes);
    proof {
        lemma_pow256_values();
    }
    if u < 0x8000_0000u32 {
        u as i32
    } else {
        ((u - 0x8000_0000u32) as i32) + i32::MIN
    }
}

/// Interprets the first eight bytes of `bytes` as a big-endian `i64`.
pub fn read_i64_be(bytes: &[u8]) -> (r: i64)
    requires
        bytes@.len() >= 8,
    ensures
        r == to_signed(be_value(bytes@.subrange(0, 8)), 8),
{
    let u = read_u64_be(bytes);
    proof {
        lemma_pow256_values();
    }
    if u < 0x8000_0000_0000_0000u64 {
        u as i64
    } else {
        ((u - 0x8000_0000_0000_0000u64) as i64) + i64::MIN
    }
}

/// Interprets the first sixteen bytes of `bytes` as a big-endian `i128`.
pub fn read_i128_be(bytes: &[u8]) -> (r: i128)
    requires
        bytes@.len() >= 16,
    ensures
        r == to_signed(be_value(bytes@.subrange(0, 16)), 16),
{
    let u = read_u128_be(bytes);
    proof {
        lemma_pow256_values();
    }
    if u < 0x8000_0000_0000_0000_0000_0000_0000_0000u128 {
        u as i128
    } else {
        ((u - 0x8000_0000_0000_0000_0000_0000_0000_0000u128) as i128) + i128::MIN
    }
}

/// Interprets the first pointer-width bytes of `bytes` as a big-endian `isize`.
pub fn read_isize_be(bytes: &[u8]) -> (r: isize)
    requires
        bytes@.len() >= usize_width(),
    ensures
        r == to_signed(be_value(bytes@.subrange(0, usize_width() as int)), usize_width()),
{
    if usize::BITS == 64 {
        read_i64_be(bytes) as isize
    } else {
        read_i32_be(bytes) as isize
    }
}

/// Interprets the first byte of `bytes` as a little-endian `i8`.
pub fn read_i8_le(bytes: &[u8]) -> (r: i8)
    requires
        bytes@.len() >= 1,
    ensures
        r == to_signed(le_value(bytes@.subrange(0, 1)), 1),
{
    let u = read_u8_le(bytes);
    proof {
        lemma_pow256_values();
    }
    if u < 0x80u8 {
        u as i8
    } else {
        ((u - 0x80u8) as i8) + i8::MIN
    }
}

/// Interprets the first two bytes of `bytes` as a little-endian `i16`.
pub fn read_i16_le(bytes: &[u8]) -> (r: i16)
    requires
        bytes@.len() >= 2,
    ensures
        r == to_signed(le_value(bytes@.subrange(0, 2)), 2),
{
    let u = read_u16_le(bytes);
    proof {
        lemma_pow256_values();
    }
    if u < 0x8000u16 {
        u as i16
    } else {
        ((u - 0x8000u16) as i16) + i16::MIN
    }
}

/// Interprets the first four bytes of `bytes` as a little-endian `i32`.
pub fn read_i32_le(bytes: &[u8]) -> (r: i32)
    requires
        bytes@.len() >= 4,
    ensures
        r == to_signed(le_value(bytes@.subrange(0, 4)), 4),
{
    let u = read_u32_le(bytes);
    proof {
        lemma_pow256_values();
    }
    if u < 0x8000_0000u32 {
        u as i32
    } else {
        ((u - 0x8000_0000u32) as i32) + i32::MIN
    }
}

/// Interprets the first eight bytes of `bytes` as a little-endian `i64`.
pub fn read_i64_le(bytes: &[u8]) -> (r: i64)
    requires
        bytes@.len() >= 8,
    ensures
        r == to_signed(le_value(bytes@.subrange(0, 8)), 8),
{
    let u = read_u64_le(bytes);
    proof {
        lemma_pow256_values();
    }
    if u < 0x8000_0000_0000_0000u64 {
        u as i64
    } else {
        ((u - 0x8000_0000_0000_0000u64) as i64) + i64::MIN
    }
}

/// Interprets the first sixteen bytes of `bytes` as a little-endian `i128`.
pub fn read_i128_le(bytes: &[u8]) -> (r: i128)
    requires
        bytes@.len() >= 16,
    ensures
        r == to_signed(le_value(bytes@.subrange(0, 16)), 16),
{
    let u = read_u128_le(bytes);
    proof {
        lemma_pow256_values();
    }
    if u < 0x8000_0000_0000_0000_0000_0000_0000_0000u128 {
        u as i128
    } else {
        ((u - 0x8000_0000_0000_0000_0000_0000_0000_0000u128) as i128) + i128::MIN
    }
}

/// Interprets the first pointer-width bytes of `bytes` as a little-endian `isize`.
pub fn read_isize_le(bytes: &[u8]) -> (r: isize)
    requires
        bytes@.len() >= usize_width(),
    ensures
        r == to_signed(le_value(bytes@.subrange(0, usize_width() as int)), usize_width()),
{
    if usize::BITS == 64 {
        read_i64_le(bytes) as isize
    } else {
        read_i32_le(bytes) as isize
    }
}

/// Interprets the first byte of `bytes` as a native-endian `i8`.
/// The supported targets are little-endian, so this is the little-endian reading.
pub fn read_i8_ne(bytes: &[u8]) -> (r: i8)
    requires
        bytes@.len() >= 1,
    ensures
        r == to_signed(le_value(bytes@.subrange(0, 1)), 1),
{
    read_i8_le(bytes)
}

/// Interprets the first two bytes of `bytes` as a native-endian `i16`.
/// The supported targets are little-endian, so this is the little-endian reading.
pub fn read_i16_ne(bytes: &[u8]) -> (r: i16)
    requires
        bytes@.len() >= 2,
    ensures
        r == to_signed(le_value(bytes@.subrange(0, 2)), 2),
{
    read_i16_le(bytes)
}

/// Interprets the first four bytes of `bytes` as a native-endian `i32`.
/// The supported targets are little-endian, so this is the little-endian reading.
pub fn read_i32_ne(bytes: &[u8]) -> (r: i32)
    requires
        bytes@.len() >= 4,
    ensures
        r == to_signed(le_value(bytes@.subrange(0, 4)), 4),
{
    read_i32_le(bytes)
}

/// Interprets the first eight bytes of `bytes` as a native-endian `i64`.
/// The supported targets are little-endian, so this is the little-endian reading.
pub fn read_i64_ne(bytes: &[u8]) -> (r: i64)
    requires
        bytes@.len() >= 8,
    ensures
        r == to_signed(le_value(bytes@.subrange(0, 8)), 8),
{
    read_i64_le(bytes)
}

/// Interprets the first sixteen bytes of `bytes` as a native-endian `i128`.
/// The supported targets are little-endian, so this is the little-endian reading.
pub fn read_i128_ne(bytes: &[u8]) -> (r: i128)
    requires
        bytes@.len() >= 16,
    ensures
        r == to_signed(le_value(bytes@.subrange(0, 16)), 16),
{
    read_i128_le(bytes)
}

/// Interprets the first pointer-width bytes of `bytes` as a native-endian `isize`.
/// The supported targets are little-endian, so this is the little-endian reading.
pub fn read_isize_ne(bytes: &[u8]) -> (r: isize)
    requires
        bytes@.len() >= usize_width(),
    ensures
        r == to_signed(le_value(bytes@.subrange(0, usize_width() as int)), usize_width()),
{
    read_isize_le(bytes)
}

} // verus!


