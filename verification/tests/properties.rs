//! Scenario tests for the cursor abstraction: round trips through the
//! writers and readers, order sensitivity of the produced bytes, exact
//! advancement accounting, the exhausted-cursor boundary, raw-span
//! copy fidelity, and the single-buffer streams.

use hyper_byte::hyper_stream::{HyperStream, LittleStream, NativeStream, NetworkStream};
use hyper_byte::reader::{FastByteReader, LittleReader, NativeReader, NetworkReader};
use hyper_byte::readers::traits::{
    BigEndianByteReader, ByteReader, LittleEndianByteReader, NativeEndianByteReader,
};
use hyper_byte::writer::{FastByteWriter, LittleWriter, NativeWriter, NetworkWriter};
use hyper_byte::writers::traits::{
    BigEndianByteWriter, ByteWriter, LittleEndianByteWriter, NativeEndianByteWriter,
};

#[test]
fn round_trip_big_endian_sequence() {
    // Writing four big-endian integers and reading them back from
    // position zero yields the original four values in sequence.
    let mut writer = FastByteWriter::new();
    writer.write_i8_be(12i8);
    writer.write_i16_be(932i16);
    writer.write_i32_be(192i32);
    writer.write_i64_be(192932i64);
    let buffer = writer.to_vec();

    let mut reader = FastByteReader::new(&buffer);
    assert_eq!(12i8, reader.read_i8_be());
    assert_eq!(932i16, reader.read_i16_be());
    assert_eq!(192i32, reader.read_i32_be());
    assert_eq!(192932i64, reader.read_i64_be());
    assert_eq!(0, reader.byte_array().len());
}

#[test]
fn order_sensitivity_raw_bytes() {
    // Encoding 0x0102 big-endian yields [0x01, 0x02]; little-endian
    // yields the reversal [0x02, 0x01].
    let mut big = NetworkWriter::new();
    big.write_u16_be(0x0102u16);
    assert_eq!(vec![0x01u8, 0x02u8], big.to_vec());

    let mut little = LittleWriter::new();
    little.write_u16_le(0x0102u16);
    assert_eq!(vec![0x02u8, 0x01u8], little.to_vec());

    let mut native = NativeWriter::new();
    native.write_u16_ne(0x0102u16);
    assert_eq!(0x0102u16.to_ne_bytes().to_vec(), native.to_vec());
}

#[test]
fn advancement_precision() {
    // After decodes of widths 1, 2, 4, 8 and 16 from a buffer of 40
    // bytes, the remaining length is 40 minus the exact sum consumed.
    let bytes = [7u8; 40];
    let mut reader = FastByteReader::new(&bytes);
    assert_eq!(40, reader.byte_array().len());
    reader.read_u8_le();
    assert_eq!(39, reader.byte_array().len());
    reader.read_u16_le();
    assert_eq!(37, reader.byte_array().len());
    reader.read_u32_le();
    assert_eq!(33, reader.byte_array().len());
    reader.read_u64_le();
    assert_eq!(25, reader.byte_array().len());
    reader.read_u128_le();
    assert_eq!(9, reader.byte_array().len());
}

#[test]
fn skip_advances_like_read() {
    // A skip advances exactly as a read-and-discard of the same width.
    let bytes = [3u8, 1, 4, 1, 5, 9, 2, 6, 5, 3, 5, 8, 9, 7, 9, 3];
    let mut skipping = FastByteReader::new(&bytes);
    let mut reading = FastByteReader::new(&bytes);

    skipping.skip_u32();
    reading.read_u32_be();
    assert_eq!(skipping.byte_array(), reading.byte_array());

    skipping.skip_u16();
    reading.read_u16_le();
    assert_eq!(skipping.byte_array(), reading.byte_array());

    skipping.skip_n(3);
    reading.read_n_ne(3);
    assert_eq!(skipping.byte_array(), reading.byte_array());
}

#[test]
fn exact_boundary_read_succeeds() {
    // A decode with remaining length equal to the requested width
    // succeeds and leaves the cursor with zero remaining bytes.
    let bytes = 0xDEAD_BEEFu32.to_be_bytes();
    let mut reader = NetworkReader::new(&bytes);
    assert_eq!(0xDEAD_BEEFu32, reader.read_u32_be());
    assert_eq!(0, reader.byte_array().len());
}

#[test]
fn raw_span_copy_fidelity() {
    // read_n returns the source bytes byte-for-byte in every declared
    // order: a raw span is never re-ordered.
    let bytes = [0xDEu8, 0xAD, 0xBE, 0xEF, 0x01, 0x02];

    let mut big = FastByteReader::new(&bytes);
    assert_eq!(bytes.to_vec(), big.read_n_be(6));

    let mut little = FastByteReader::new(&bytes);
    assert_eq!(bytes.to_vec(), little.read_n_le(6));

    let mut native = FastByteReader::new(&bytes);
    assert_eq!(bytes.to_vec(), native.read_n_ne(6));
}

#[test]
fn write_bytes_verbatim_all_orders() {
    let payload = [9u8, 8, 7, 6, 5];
    let mut big = FastByteWriter::new();
    big.write_bytes_be(&payload);
    assert_eq!(payload.to_vec(), big.to_vec());

    let mut little = FastByteWriter::new();
    little.write_bytes_le(&payload);
    assert_eq!(payload.to_vec(), little.to_vec());

    let mut native = FastByteWriter::new();
    native.write_bytes_ne(&payload);
    assert_eq!(payload.to_vec(), native.to_vec());
}

#[test]
fn writer_from_appends_after_existing_bytes() {
    let mut writer = FastByteWriter::from(vec![0xAAu8, 0xBB]);
    writer.write_u16_be(0x0102u16);
    assert_eq!(vec![0xAAu8, 0xBB, 0x01, 0x02], writer.to_vec());

    let default_writer = FastByteWriter::default();
    assert_eq!(0, default_writer.as_slice().len());
    assert_eq!(Vec::<u8>::new(), NetworkWriter::default().to_vec());
    assert_eq!(Vec::<u8>::new(), LittleWriter::default().to_vec());
    assert_eq!(Vec::<u8>::new(), NativeWriter::default().to_vec());
}

#[test]
fn dedicated_order_readers_and_writers() {
    let mut little_writer = LittleWriter::new();
    little_writer.write_u64_le(0x0102_0304_0506_0708u64);
    let little_buffer = little_writer.to_vec();
    let mut little_reader = LittleReader::new(&little_buffer);
    assert_eq!(0x0102_0304_0506_0708u64, little_reader.read_u64_le());

    let mut native_writer = NativeWriter::new();
    native_writer.write_i32_ne(-192i32);
    let native_buffer = native_writer.to_vec();
    let mut native_reader = NativeReader::new(&native_buffer);
    assert_eq!(-192i32, native_reader.read_i32_ne());

    let mut network_writer = NetworkWriter::new();
    network_writer.write_u128_be(19249462u128);
    let network_buffer = network_writer.to_vec();
    let mut network_reader = NetworkReader::new(&network_buffer);
    assert_eq!(19249462u128, network_reader.read_u128_be());
}

#[test]
fn network_stream_round_trip() {
    // One owned buffer serves as sink and then as source.
    let mut stream = NetworkStream::new(Vec::new());
    stream.write_u16_be(932u16);
    stream.write_u64_be(192932u64);
    assert_eq!(932u16, stream.read_u16_be());
    assert_eq!(192932u64, stream.read_u64_be());
    assert_eq!(0, stream.byte_array().len());
}

#[test]
fn little_stream_round_trip() {
    let mut stream = LittleStream::new(vec![0x02u8, 0x01]);
    assert_eq!(0x0102u16, stream.read_u16_le());
    stream.write_i16_le(-932i16);
    assert_eq!(-932i16, stream.read_i16_le());
}

#[test]
fn native_stream_round_trip() {
    let mut stream = NativeStream::new(Vec::new());
    stream.write_usize_ne(118283usize);
    stream.write_isize_ne(-43818isize);
    assert_eq!(118283usize, stream.read_usize_ne());
    assert_eq!(-43818isize, stream.read_isize_ne());
}

#[test]
fn hyper_stream_mixed_orders() {
    let mut stream = HyperStream::new(Vec::new());
    stream.write_u32_be(0x0102_0304u32);
    stream.write_u32_le(0x0102_0304u32);
    stream.write_bytes_ne(&[0xFFu8, 0xEE]);
    assert_eq!(0x0102_0304u32, stream.read_u32_be());
    assert_eq!(0x0102_0304u32, stream.read_u32_le());
    assert_eq!(vec![0xFFu8, 0xEE], stream.read_n_ne(2));
    let produced = stream.to_vec();
    assert_eq!(
        vec![0x01u8, 0x02, 0x03, 0x04, 0x04, 0x03, 0x02, 0x01, 0xFF, 0xEE],
        produced
    );
}

#[test]
fn signed_negative_round_trip_all_widths() {
    let mut writer = FastByteWriter::new();
    writer.write_i8_le(-12i8);
    writer.write_i16_le(-932i16);
    writer.write_i32_le(-192i32);
    writer.write_i64_le(-192932i64);
    writer.write_i128_le(-19249462i128);
    writer.write_isize_le(-1932387283747isize);
    let buffer = writer.to_vec();
    let mut reader = FastByteReader::new(&buffer);
    assert_eq!(-12i8, reader.read_i8_le());
    assert_eq!(-932i16, reader.read_i16_le());
    assert_eq!(-192i32, reader.read_i32_le());
    assert_eq!(-192932i64, reader.read_i64_le());
    assert_eq!(-19249462i128, reader.read_i128_le());
    assert_eq!(-1932387283747isize, reader.read_isize_le());
}

#[test]
fn round_trip_writer_reader_exhaustive_16bit() {
    // Every representable 8- and 16-bit value survives a write
    // followed by a read, in every byte order.
    let mut writer = FastByteWriter::new();
    for value in u16::MIN..=u16::MAX {
        writer.write_u16_be(value);
        writer.write_u16_le(value);
        writer.write_u16_ne(value);
        writer.write_i16_be(value as i16);
        writer.write_i16_le(value as i16);
        writer.write_i16_ne(value as i16);
    }
    for value in u8::MIN..=u8::MAX {
        writer.write_u8_be(value);
        writer.write_u8_le(value);
        writer.write_u8_ne(value);
        writer.write_i8_be(value as i8);
        writer.write_i8_le(value as i8);
        writer.write_i8_ne(value as i8);
    }
    let buffer = writer.to_vec();
    let mut reader = FastByteReader::new(&buffer);
    for value in u16::MIN..=u16::MAX {
        assert_eq!(value, reader.read_u16_be());
        assert_eq!(value, reader.read_u16_le());
        assert_eq!(value, reader.read_u16_ne());
        assert_eq!(value as i16, reader.read_i16_be());
        assert_eq!(value as i16, reader.read_i16_le());
        assert_eq!(value as i16, reader.read_i16_ne());
    }
    for value in u8::MIN..=u8::MAX {
        assert_eq!(value, reader.read_u8_be());
        assert_eq!(value, reader.read_u8_le());
        assert_eq!(value, reader.read_u8_ne());
        assert_eq!(value as i8, reader.read_i8_be());
        assert_eq!(value as i8, reader.read_i8_le());
        assert_eq!(value as i8, reader.read_i8_ne());
    }
    assert_eq!(0, reader.byte_array().len());
}
