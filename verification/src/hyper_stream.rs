//! Owned-buffer streams: one buffer used as both source and sink.
//!
//! A stream owns a byte buffer and a read position.  As a writer it
//! appends at the end of the buffer; as a reader it consumes from the
//! read position forward.  This allows building a blob and immediately
//! re-reading it without an intermediate hand-off.  The types differ
//! solely in which byte orders they support.

use crate::readers::traits::BigEndianByteReader;
use crate::readers::traits::ByteReader;
use crate::readers::traits::LittleEndianByteReader;
use crate::readers::traits::NativeEndianByteReader;
use crate::writers::traits::BigEndianByteWriter;
use crate::writers::traits::ByteWriter;
use crate::writers::traits::LittleEndianByteWriter;
use crate::writers::traits::NativeEndianByteWriter;
use vstd::prelude::*;
use vstd::slice::slice_subrange;

verus! {

/// A network-focused stream: strictly big-endian reader and writer
/// over one owned buffer.
pub struct NetworkStream {
    src: Vec<u8>,
    index: usize,
}

impl NetworkStream {
    /// Wraps an owned buffer: every byte of it is unread, and writes
    /// append after it.
    pub fn new(src: Vec<u8>) -> (r: Self)
        ensures
            r.remaining() == src@,
            r.buffer() == src@,
    {
        Self { src, index: 0 }
    }
}

impl ByteReader for NetworkStream {
    closed spec fn remaining(&self) -> Seq<u8> {
        if self.index <= self.src@.len() {
            self.src@.skip(self.index as int)
        } else {
            Seq::empty()
        }
    }

    fn byte_array(&self) -> (s: &[u8]) {
        let length = self.src.len();
        if self.index <= length {
            slice_subrange(self.src.as_slice(), self.index, length)
        } else {
            slice_subrange(self.src.as_slice(), length, length)
        }
    }

    fn advance(&mut self, advancement: usize, new_size: usize) {
        // Pins the buffer length to the machine word, so the new
        // position provably fits in a `usize`.
        let length = self.src.len();
        self.index = self.index + advancement;
        proof {
            assert(self.remaining() =~= old(self).remaining().skip(advancement as int));
        }
    }
}

impl BigEndianByteReader for NetworkStream {}

impl ByteWriter for NetworkStream {
    closed spec fn buffer(&self) -> Seq<u8> {
        self.src@
    }

    fn to_vec(self) -> (v: Vec<u8>) {
        self.src
    }

    fn as_slice(&self) -> (s: &[u8]) {
        self.src.as_slice()
    }

    fn push_byte(&mut self, value: u8) {
        self.src.push(value);
    }
}

impl BigEndianByteWriter for NetworkStream {}

/// A strictly little-endian stream over one owned buffer.
pub struct LittleStream {
    src: Vec<u8>,
    index: usize,
}

impl LittleStream {
    /// Wraps an owned buffer: every byte of it is unread, and writes
    /// append after it.
    pub fn new(src: Vec<u8>) -> (r: Self)
        ensures
            r.remaining() == src@,
            r.buffer() == src@,
    {
        Self { src, index: 0 }
    }
}

impl ByteReader for LittleStream {
    closed spec fn remaining(&self) -> Seq<u8> {
        if self.index <= self.src@.len() {
            self.src@.skip(self.index as int)
        } else {
            Seq::empty()
        }
    }

    fn byte_array(&self) -> (s: &[u8]) {
        let length = self.src.len();
        if self.index <= length {
            slice_subrange(self.src.as_slice(), self.index, length)
        } else {
            slice_subrange(self.src.as_slice(), length, length)
        }
    }

    fn advance(&mut self, advancement: usize, new_size: usize) {
        // Pins the buffer length to the machine word, so the new
        // position provably fits in a `usize`.
        let length = self.src.len();
        self.index = self.index + advancement;
        proof {
            assert(self.remaining() =~= old(self).remaining().skip(advancement as int));
        }
    }
}

impl LittleEndianByteReader for LittleStream {}

impl ByteWriter for LittleStream {
    closed spec fn buffer(&self) -> Seq<u8> {
        self.src@
    }

    fn to_vec(self) -> (v: Vec<u8>) {
        self.src
    }

    fn as_slice(&self) -> (s: &[u8]) {
        self.src.as_slice()
    }

    fn push_byte(&mut self, value: u8) {
        self.src.push(value);
    }
}

impl LittleEndianByteWriter for LittleStream {}

/// A strictly native-endian stream over one owned buffer.
pub struct NativeStream {
    src: Vec<u8>,
    index: usize,
}

impl NativeStream {
    /// Wraps an owned buffer: every byte of it is unread, and writes
    /// append after it.
    pub fn new(src: Vec<u8>) -> (r: Self)
        ensures
            r.remaining() == src@,
            r.buffer() == src@,
    {
        Self { src, index: 0 }
    }
}

impl ByteReader for NativeStream {
    closed spec fn remaining(&self) -> Seq<u8> {
        if self.index <= self.src@.len() {
            self.src@.skip(self.index as int)
        } else {
            Seq::empty()
        }
    }

    fn byte_array(&self) -> (s: &[u8]) {
        let length = self.src.len();
        if self.index <= length {
            slice_subrange(self.src.as_slice(), self.index, length)
        } else {
            slice_subrange(self.src.as_slice(), length, length)
        }
    }

    fn advance(&mut self, advancement: usize, new_size: usize) {
        // Pins the buffer length to the machine word, so the new
        // position provably fits in a `usize`.
        let length = self.src.len();
        self.index = self.index + advancement;
        proof {
            assert(self.remaining() =~= old(self).remaining().skip(advancement as int));
        }
    }
}

impl NativeEndianByteReader for NativeStream {}

impl ByteWriter for NativeStream {
    closed spec fn buffer(&self) -> Seq<u8> {
        self.src@
    }

    fn to_vec(self) -> (v: Vec<u8>) {
        self.src
    }

    fn as_slice(&self) -> (s: &[u8]) {
        self.src.as_slice()
    }

    fn push_byte(&mut self, value: u8) {
        self.src.push(value);
    }
}

impl NativeEndianByteWriter for NativeStream {}

/// A stream supporting all three byte orders, as reader and writer
/// over one owned buffer.
pub struct HyperStream {
    src: Vec<u8>,
    index: usize,
}

impl HyperStream {
    /// Wraps an owned buffer: every byte of it is unread, and writes
    /// append after it.
    pub fn new(src: Vec<u8>) -> (r: Self)
        ensures
            r.remaining() == src@,
            r.buffer() == src@,
    {
        Self { src, index: 0 }
    }
}

impl ByteReader for HyperStream {
    closed spec fn remaining(&self) -> Seq<u8> {
        if self.index <= self.src@.len() {
            self.src@.skip(self.index as int)
        } else {
            Seq::empty()
        }
    }

    fn byte_array(&self) -> (s: &[u8]) {
        let length = self.src.len();
        if self.index <= length {
            slice_subrange(self.src.as_slice(), self.index, length)
        } else {
            slice_subrange(self.src.as_slice(), length, length)
        }
    }

    fn advance(&mut self, advancement: usize, new_size: usize) {
        // Pins the buffer length to the machine word, so the new
        // position provably fits in a `usize`.
        let length = self.src.len();
        self.index = self.index + advancement;
        proof {
            assert(self.remaining() =~= old(self).remaining().skip(advancement as int));
        }
    }
}

impl BigEndianByteReader for HyperStream {}

impl LittleEndianByteReader for HyperStream {}

impl NativeEndianByteReader for HyperStream {}

impl ByteWriter for HyperStream {
    closed spec fn buffer(&self) -> Seq<u8> {
        self.src@
    }

    fn to_vec(self) -> (v: Vec<u8>) {
        self.src
    }

    fn as_slice(&self) -> (s: &[u8]) {
        self.src.as_slice()
    }

    fn push_byte(&mut self, value: u8) {
        self.src.push(value);
    }
}

impl BigEndianByteWriter for HyperStream {}

impl LittleEndianByteWriter for HyperStream {}

impl NativeEndianByteWriter for HyperStream {}

} // verus!
