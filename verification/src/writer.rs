//! Concrete owned-buffer writers.
//!
//! Each type owns a growable byte buffer and appends at the end; prior
//! bytes are never modified.  The types differ solely in which byte
//! orders they support, so that mixing orders where one order is
//! intended is ruled out by the type.

use crate::writers::traits::BigEndianByteWriter;
use crate::writers::traits::ByteWriter;
use crate::writers::traits::LittleEndianByteWriter;
use crate::writers::traits::NativeEndianByteWriter;
use vstd::prelude::*;

verus! {

/// A writer over an owned buffer, supporting all three byte orders.
pub struct FastByteWriter {
    byte_array: Vec<u8>,
}

impl ByteWriter for FastByteWriter {
    closed spec fn buffer(&self) -> Seq<u8> {
        self.byte_array@
    }

    fn to_vec(self) -> (v: Vec<u8>) {
        self.byte_array
    }

    fn as_slice(&self) -> (s: &[u8]) {
        self.byte_array.as_slice()
    }

    fn push_byte(&mut self, value: u8) {
        self.byte_array.push(value);
    }
}

impl BigEndianByteWriter for FastByteWriter {}

impl LittleEndianByteWriter for FastByteWriter {}

impl NativeEndianByteWriter for FastByteWriter {}

impl Default for FastByteWriter {
    /// An empty writer, as [`FastByteWriter::new`] builds.
    fn default() -> (r: Self)
        ensures
            r.buffer() == Seq::<u8>::empty(),
    {
        Self::new()
    }
}

impl FastByteWriter {
    /// An empty writer: nothing written yet.
    pub fn new() -> (r: Self)
        ensures
            r.buffer() == Seq::<u8>::empty(),
    {
        Self { byte_array: Vec::new() }
    }

    /// A writer that appends after the bytes already in `buffer`.
    pub fn from(buffer: Vec<u8>) -> (r: Self)
        ensures
            r.buffer() == buffer@,
    {
        Self { byte_array: buffer }
    }
}

/// A network-focused writer over an owned buffer: strictly big-endian.
pub struct NetworkWriter {
    byte_array: Vec<u8>,
}

impl ByteWriter for NetworkWriter {
    closed spec fn buffer(&self) -> Seq<u8> {
        self.byte_array@
    }

    fn to_vec(self) -> (v: Vec<u8>) {
        self.byte_array
    }

    fn as_slice(&self) -> (s: &[u8]) {
        self.byte_array.as_slice()
    }

    fn push_byte(&mut self, value: u8) {
        self.byte_array.push(value);
    }
}

impl BigEndianByteWriter for NetworkWriter {}

impl Default for NetworkWriter {
    /// An empty writer, as [`NetworkWriter::new`] builds.
    fn default() -> (r: Self)
        ensures
            r.buffer() == Seq::<u8>::empty(),
    {
        Self::new()
    }
}

impl NetworkWriter {
    /// An empty writer: nothing written yet.
    pub fn new() -> (r: Self)
        ensures
            r.buffer() == Seq::<u8>::empty(),
    {
        Self { byte_array: Vec::new() }
    }

    /// A writer that appends after the bytes already in `buffer`.
    pub fn from(buffer: Vec<u8>) -> (r: Self)
        ensures
            r.buffer() == buffer@,
    {
        Self { byte_array: buffer }
    }
}

/// A strictly little-endian writer over an owned buffer.
pub struct LittleWriter {
    byte_array: Vec<u8>,
}

impl ByteWriter for LittleWriter {
    closed spec fn buffer(&self) -> Seq<u8> {
        self.byte_array@
    }

    fn to_vec(self) -> (v: Vec<u8>) {
        self.byte_array
    }

    fn as_slice(&self) -> (s: &[u8]) {
        self.byte_array.as_slice()
    }

    fn push_byte(&mut self, value: u8) {
        self.byte_array.push(value);
    }
}

impl LittleEndianByteWriter for LittleWriter {}

impl Default for LittleWriter {
    /// An empty writer, as [`LittleWriter::new`] builds.
    fn default() -> (r: Self)
        ensures
            r.buffer() == Seq::<u8>::empty(),
    {
        Self::new()
    }
}

impl LittleWriter {
    /// An empty writer: nothing written yet.
    pub fn new() -> (r: Self)
        ensures
            r.buffer() == Seq::<u8>::empty(),
    {
        Self { byte_array: Vec::new() }
    }

    /// A writer that appends after the bytes already in `buffer`.
    pub fn from(buffer: Vec<u8>) -> (r: Self)
        ensures
            r.buffer() == buffer@,
    {
        Self { byte_array: buffer }
    }
}

/// A strictly native-endian writer over an owned buffer.
pub struct NativeWriter {
    byte_array: Vec<u8>,
}

impl ByteWriter for NativeWriter {
    closed spec fn buffer(&self) -> Seq<u8> {
        self.byte_array@
    }

    fn to_vec(self) -> (v: Vec<u8>) {
        self.byte_array
    }

    fn as_slice(&self) -> (s: &[u8]) {
        self.byte_array.as_slice()
    }

    fn push_byte(&mut self, value: u8) {
        self.byte_array.push(value);
    }
}

impl NativeEndianByteWriter for NativeWriter {}

impl Default for NativeWriter {
    /// An empty writer, as [`NativeWriter::new`] builds.
    fn default() -> (r: Self)
        ensures
            r.buffer() == Seq::<u8>::empty(),
    {
        Self::new()
    }
}

impl NativeWriter {
    /// An empty writer: nothing written yet.
    pub fn new() -> (r: Self)
        ensures
            r.buffer() == Seq::<u8>::empty(),
    {
        Self { byte_array: Vec::new() }
    }

    /// A writer that appends after the bytes already in `buffer`.
    pub fn from(buffer: Vec<u8>) -> (r: Self)
        ensures
            r.buffer() == buffer@,
    {
        Self { byte_array: buffer }
    }
}

} // verus!
