//! The scalar primitives recover the values that the standard
//! to-bytes conversions produce, in every byte order.

use hyper_byte::{
    read_i128_be, read_i128_le, read_i128_ne, read_i16_be, read_i16_le, read_i16_ne, read_i32_be,
    read_i32_le, read_i32_ne, read_i64_be, read_i64_le, read_i64_ne, read_i8_be, read_i8_le,
    read_i8_ne, read_isize_be, read_isize_le, read_isize_ne, read_u128_be, read_u128_le,
    read_u128_ne, read_u16_be, read_u16_le, read_u16_ne, read_u32_be, read_u32_le, read_u32_ne,
    read_u64_be, read_u64_le, read_u64_ne, read_u8_be, read_u8_le, read_u8_ne, read_usize_be,
    read_usize_le, read_usize_ne,
};

#[test]
fn test_signed_integers_be() {
    let int8 = 12i8;
    let int16 = 932i16;
    let int32 = 192i32;
    let int64 = 192932i64;
    let int128 = 19249462i128;
    let int_size = 1932387283747isize;

    let int8_array = int8.to_be_bytes();
    let int8_result = read_i8_be(&int8_array);
    assert_eq!(
        int8, int8_result,
        "Converting from i8 (big-endian) byte array results in the same i8 value"
    );

    let int16_array = int16.to_be_bytes();
    let int16_result = read_i16_be(&int16_array);
    assert_eq!(
        int16, int16_result,
        "Converting from i16 (big-endian) byte array results in the same i16 value"
    );

    let int32_array = int32.to_be_bytes();
    let int32_result = read_i32_be(&int32_array);
    assert_eq!(
        int32, int32_result,
        "Converting from i32 (big-endian) byte array results in the same i32 value"
    );

    let int64_array = int64.to_be_bytes();
    let int64_result = read_i64_be(&int64_array);
    assert_eq!(
        int64, int64_result,
        "Converting from i64 (big-endian) byte array results in the same i64 value"
    );

    let int128_array = int128.to_be_bytes();
    let int128_result = read_i128_be(&int128_array);
    assert_eq!(
        int128, int128_result,
        "Converting from i128 (big-endian) byte array results in the same i128 value"
    );

    let int_size_array = int_size.to_be_bytes();
    let int_size_result = read_isize_be(&int_size_array);
    assert_eq!(
        int_size, int_size_result,
        "Converting from isize (big-endian) byte array results in the same isize value"
    );
}

#[test]
fn test_signed_integers_le() {
    let int8 = 12i8;
    let int16 = 932i16;
    let int32 = 192i32;
    let int64 = 192932i64;
    let int128 = 19249462i128;
    let int_size = 1932387283747isize;

    let int8_array = int8.to_le_bytes();
    let int8_result = read_i8_le(&int8_array);
    assert_eq!(
        int8, int8_result,
        "Converting from i8 (little-endian) byte array results in the same i8 value"
    );

    let int16_array = int16.to_le_bytes();
    let int16_result = read_i16_le(&int16_array);
    assert_eq!(
        int16, int16_result,
        "Converting from i16 (little-endian) byte array results in the same i16 value"
    );

    let int32_array = int32.to_le_bytes();
    let int32_result = read_i32_le(&int32_array);
    assert_eq!(
        int32, int32_result,
        "Converting from i32 (little-endian) byte array results in the same i32 value"
    );

    let int64_array = int64.to_le_bytes();
    let int64_result = read_i64_le(&int64_array);
    assert_eq!(
        int64, int64_result,
        "Converting from i64 (little-endian) byte array results in the same i64 value"
    );

    let int128_array = int128.to_le_bytes();
    let int128_result = read_i128_le(&int128_array);
    assert_eq!(
        int128, int128_result,
        "Converting from i128 (little-endian) byte array results in the same i128 value"
    );

    let int_size_array = int_size.to_le_bytes();
    let int_size_result = read_isize_le(&int_size_array);
    assert_eq!(
        int_size, int_size_result,
        "Converting from isize (little-endian) byte array results in the same isize value"
    );
}

#[test]
fn test_signed_integers_ne() {
    let int8 = 12i8;
    let int16 = 932i16;
    let int32 = 192i32;
    let int64 = 192932i64;
    let int128 = 19249462i128;
    let int_size = 1932387283747isize;

    let int8_array = int8.to_ne_bytes();
    let int8_result = read_i8_ne(&int8_array);
    assert_eq!(
        int8, int8_result,
        "Converting from i8 (native-endian) byte array results in the same i8 value"
    );

    let int16_array = int16.to_ne_bytes();
    let int16_result = read_i16_ne(&int16_array);
    assert_eq!(
        int16, int16_result,
        "Converting from i16 (native-endian) byte array results in the same i16 value"
    );

    let int32_array = int32.to_ne_bytes();
    let int32_result = read_i32_ne(&int32_array);
    assert_eq!(
        int32, int32_result,
        "Converting from i32 (native-endian) byte array results in the same i32 value"
    );

    let int64_array = int64.to_ne_bytes();
    let int64_result = read_i64_ne(&int64_array);
    assert_eq!(
        int64, int64_result,
        "Converting from i64 (native-endian) byte array results in the same i64 value"
    );

    let int128_array = int128.to_ne_bytes();
    let int128_result = read_i128_ne(&int128_array);
    assert_eq!(
        int128, int128_result,
        "Converting from i128 (native-endian) byte array results in the same i128 value"
    );

    let int_size_array = int_size.to_ne_bytes();
    let int_size_result = read_isize_ne(&int_size_array);
    assert_eq!(
        int_size, int_size_result,
        "Converting from isize (native-endian) byte array results in the same isize value"
    );
}

#[test]
fn test_unsigned_integers_be() {
    let int8 = 12u8;
    let int16 = 932u16;
    let int32 = 192u32;
    let int64 = 192932u64;
    let int128 = 19249462u128;
    let int_size = 1932387283747usize;

    let int8_array = int8.to_be_bytes();
    let int8_result = read_u8_be(&int8_array);
    assert_eq!(
        int8, int8_result,
        "Converting from u8 (big-endian) byte array results in the same u8 value"
    );

    let int16_array = int16.to_be_bytes();
    let int16_result = read_u16_be(&int16_array);
    assert_eq!(
        int16, int16_result,
        "Converting from u16 (big-endian) byte array results in the same u16 value"
    );

    let int32_array = int32.to_be_bytes();
    let int32_result = read_u32_be(&int32_array);
    assert_eq!(
        int32, int32_result,
        "Converting from u32 (big-endian) byte array results in the same u32 value"
    );

    let int64_array = int64.to_be_bytes();
    let int64_result = read_u64_be(&int64_array);
    assert_eq!(
        int64, int64_result,
        "Converting from u64 (big-endian) byte array results in the same u64 value"
    );

    let int128_array = int128.to_be_bytes();
    let int128_result = read_u128_be(&int128_array);
    assert_eq!(
        int128, int128_result,
        "Converting from u128 (big-endian) byte array results in the same u128 value"
    );

    let int_size_array = int_size.to_be_bytes();
    let int_size_result = read_usize_be(&int_size_array);
    assert_eq!(
        int_size, int_size_result,
        "Converting from usize (big-endian) byte array results in the same usize value"
    );
}

#[test]
fn test_unsigned_integers_le() {
    let int8 = 12u8;
    let int16 = 932u16;
    let int32 = 192u32;
    let int64 = 192932u64;
    let int128 = 19249462u128;
    let int_size = 1932387283747usize;

    let int8_array = int8.to_le_bytes();
    let int8_result = read_u8_le(&int8_array);
    assert_eq!(
        int8, int8_result,
        "Converting from u8 (little-endian) byte array results in the same u8 value"
    );

    let int16_array = int16.to_le_bytes();
    let int16_result = read_u16_le(&int16_array);
    assert_eq!(
        int16, int16_result,
        "Converting from u16 (little-endian) byte array results in the same u16 value"
    );

    let int32_array = int32.to_le_bytes();
    let int32_result = read_u32_le(&int32_array);
    assert_eq!(
        int32, int32_result,
        "Converting from u32 (little-endian) byte array results in the same u32 value"
    );

    let int64_array = int64.to_le_bytes();
    let int64_result = read_u64_le(&int64_array);
    assert_eq!(
        int64, int64_result,
        "Converting from u64 (little-endian) byte array results in the same u64 value"
    );

    let int128_array = int128.to_le_bytes();
    let int128_result = read_u128_le(&int128_array);
    assert_eq!(
        int128, int128_result,
        "Converting from u128 (little-endian) byte array results in the same u128 value"
    );

    let int_size_array = int_size.to_ne_bytes();
    let int_size_result = read_usize_le(&int_size_array);
    assert_eq!(
        int_size, int_size_result,
        "Converting from usize (little-endian) byte array results in the same usize value"
    );
}

#[test]
fn test_unsigned_integers_ne() {
    let int8 = 12u8;
    let int16 = 932u16;
    let int32 = 192u32;
    let int64 = 192932u64;
    let int128 = 19249462u128;
    let int_size = 1932387283747usize;

    let int8_array = int8.to_ne_bytes();
    let int8_result = read_u8_ne(&int8_array);
    assert_eq!(
        int8, int8_result,
        "Converting from u8 (native-endian) byte array results in the same u8 value"
    );

    let int16_array = int16.to_ne_bytes();
    let int16_result = read_u16_ne(&int16_array);
    assert_eq!(
        int16, int16_result,
        "Converting from u16 (native-endian) byte array results in the same u16 value"
    );

    let int32_array = int32.to_ne_bytes();
    let int32_result = read_u32_ne(&int32_array);
    assert_eq!(
        int32, int32_result,
        "Converting from u32 (native-endian) byte array results in the same u32 value"
    );

    let int64_array = int64.to_ne_bytes();
    let int64_result = read_u64_ne(&int64_array);
    assert_eq!(
        int64, int64_result,
        "Converting from u64 (native-endian) byte array results in the same u64 value"
    );

    let int128_array = int128.to_ne_bytes();
    let int128_result = read_u128_ne(&int128_array);
    assert_eq!(
        int128, int128_result,
        "Converting from u128 (native-endian) byte array results in the same u128 value"
    );

    let int_size_array = int_size.to_ne_bytes();
    let int_size_result = read_usize_ne(&int_size_array);
    assert_eq!(
        int_size, int_size_result,
        "Converting from usize (native-endian) byte array results in the same usize value"
    );
}

#[test]
fn round_trip_u8_u16_exhaustive() {
    for value in u8::MIN..=u8::MAX {
        assert_eq!(value, read_u8_be(&value.to_be_bytes()));
        assert_eq!(value, read_u8_le(&value.to_le_bytes()));
        assert_eq!(value, read_u8_ne(&value.to_ne_bytes()));
    }
    for value in u16::MIN..=u16::MAX {
        assert_eq!(value, read_u16_be(&value.to_be_bytes()));
        assert_eq!(value, read_u16_le(&value.to_le_bytes()));
        assert_eq!(value, read_u16_ne(&value.to_ne_bytes()));
    }
}

#[test]
fn round_trip_i8_i16_exhaustive() {
    for value in i8::MIN..=i8::MAX {
        assert_eq!(value, read_i8_be(&value.to_be_bytes()));
        assert_eq!(value, read_i8_le(&value.to_le_bytes()));
        assert_eq!(value, read_i8_ne(&value.to_ne_bytes()));
    }
    for value in i16::MIN..=i16::MAX {
        assert_eq!(value, read_i16_be(&value.to_be_bytes()));
        assert_eq!(value, read_i16_le(&value.to_le_bytes()));
        assert_eq!(value, read_i16_ne(&value.to_ne_bytes()));
    }
}

#[test]
fn round_trip_wide_sampled() {
    let samples_u32 = [0u32, 1, 0x0102_0304, 0x8000_0000, u32::MAX];
    for value in samples_u32 {
        assert_eq!(value, read_u32_be(&value.to_be_bytes()));
        assert_eq!(value, read_u32_le(&value.to_le_bytes()));
        assert_eq!(value, read_u32_ne(&value.to_ne_bytes()));
    }
    let samples_u64 = [0u64, 1, 0x0102_0304_0506_0708, u64::MAX];
    for value in samples_u64 {
        assert_eq!(value, read_u64_be(&value.to_be_bytes()));
        assert_eq!(value, read_u64_le(&value.to_le_bytes()));
        assert_eq!(value, read_u64_ne(&value.to_ne_bytes()));
    }
    let samples_u128 = [0u128, 1, 1 << 127, u128::MAX];
    for value in samples_u128 {
        assert_eq!(value, read_u128_be(&value.to_be_bytes()));
        assert_eq!(value, read_u128_le(&value.to_le_bytes()));
        assert_eq!(value, read_u128_ne(&value.to_ne_bytes()));
    }
    let samples_i32 = [i32::MIN, -1, 0, 1, i32::MAX];
    for value in samples_i32 {
        assert_eq!(value, read_i32_be(&value.to_be_bytes()));
        assert_eq!(value, read_i32_le(&value.to_le_bytes()));
        assert_eq!(value, read_i32_ne(&value.to_ne_bytes()));
    }
    let samples_i64 = [i64::MIN, -1, 0, 1, i64::MAX];
    for value in samples_i64 {
        assert_eq!(value, read_i64_be(&value.to_be_bytes()));
        assert_eq!(value, read_i64_le(&value.to_le_bytes()));
        assert_eq!(value, read_i64_ne(&value.to_ne_bytes()));
    }
    let samples_i128 = [i128::MIN, -1, 0, 1, i128::MAX];
    for value in samples_i128 {
        assert_eq!(value, read_i128_be(&value.to_be_bytes()));
        assert_eq!(value, read_i128_le(&value.to_le_bytes()));
        assert_eq!(value, read_i128_ne(&value.to_ne_bytes()));
    }
    let samples_usize = [0usize, 1, usize::MAX];
    for value in samples_usize {
        assert_eq!(value, read_usize_be(&value.to_be_bytes()));
        assert_eq!(value, read_usize_le(&value.to_le_bytes()));
        assert_eq!(value, read_usize_ne(&value.to_ne_bytes()));
    }
    let samples_isize = [isize::MIN, -1, 0, 1, isize::MAX];
    for value in samples_isize {
        assert_eq!(value, read_isize_be(&value.to_be_bytes()));
        assert_eq!(value, read_isize_le(&value.to_le_bytes()));
        assert_eq!(value, read_isize_ne(&value.to_ne_bytes()));
    }
}

#[test]
fn primitive_order_sensitivity() {
    // The same two bytes read in opposite orders give byte-reversed values.
    let bytes = [0x01u8, 0x02u8];
    assert_eq!(0x0102u16, read_u16_be(&bytes));
    assert_eq!(0x0201u16, read_u16_le(&bytes));
}
