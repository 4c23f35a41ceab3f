use exact_bytes_le::decode::try_from_bytes_le;
use exact_bytes_le::decode::FromExactBytesLe;
use exact_bytes_le::error::DecodeError;
use exact_bytes_le::header::Envelope;
use exact_bytes_le::header::Header;

#[test]
fn from_bytes() {
    let data = [
        0x01, 0x02, 0x03, 0x04, 0x05, 0x06, 0x07, 0x08, 0x09, 0x0A, 0x0B, 0x0C, 0x0D, 0x0E, 0x0F,
    ];
    let h = Header::from_bytes_le(&data);

    assert_eq!(h.a, 0x01);
    assert_eq!(h.b, 0x0302);
    assert_eq!(h.c, 0x0706_0504);
    assert_eq!(h.d, 0x0F0E_0D0C_0B0A_0908);
}

#[test]
fn unsigned_single_u32() {
    assert_eq!(u32::from_bytes_le(&[0x04, 0x05, 0x06, 0x07]), 0x0706_0504);
}

#[test]
fn unsigned_widths_exact() {
    assert_eq!(u8::from_bytes_le(&[0xAB]), 0xAB);
    assert_eq!(u16::from_bytes_le(&[0x34, 0x12]), 0x1234);
    assert_eq!(u32::from_bytes_le(&[0x00, 0x00, 0x00, 0x80]), 0x8000_0000);
    assert_eq!(
        u64::from_bytes_le(&[0x01, 0x02, 0x03, 0x04, 0x05, 0x06, 0x07, 0x08]),
        0x0807_0605_0403_0201
    );
    assert_eq!(
        u128::from_bytes_le(&[
            0x01, 0x02, 0x03, 0x04, 0x05, 0x06, 0x07, 0x08, 0x09, 0x0A, 0x0B, 0x0C, 0x0D, 0x0E,
            0x0F, 0x10
        ]),
        0x100F_0E0D_0C0B_0A09_0807_0605_0403_0201
    );
}

#[test]
fn unsigned_all_zero_and_all_one_bytes() {
    assert_eq!(u8::from_bytes_le(&[0x00]), 0);
    assert_eq!(u16::from_bytes_le(&[0xFF, 0xFF]), u16::MAX);
    assert_eq!(u32::from_bytes_le(&[0xFF, 0xFF, 0xFF, 0xFF]), u32::MAX);
    assert_eq!(u64::from_bytes_le(&[0xFF; 8]), u64::MAX);
    assert_eq!(u128::from_bytes_le(&[0xFF; 16]), u128::MAX);
}

#[test]
fn signed_positive() {
    assert_eq!(i8::from_bytes_le(&[0x7F]), 127);
    assert_eq!(i16::from_bytes_le(&[0x34, 0x12]), 0x1234);
    assert_eq!(i32::from_bytes_le(&[0x04, 0x05, 0x06, 0x07]), 0x0706_0504);
    assert_eq!(
        i64::from_bytes_le(&[0x01, 0x02, 0x03, 0x04, 0x05, 0x06, 0x07, 0x08]),
        0x0807_0605_0403_0201
    );
    assert_eq!(i128::from_bytes_le(&[0x2A; 16]), 0x2A2A_2A2A_2A2A_2A2A_2A2A_2A2A_2A2A_2A2A);
}

#[test]
fn signed_two_complement() {
    assert_eq!(i8::from_bytes_le(&[0xFF]), -1);
    assert_eq!(i8::from_bytes_le(&[0x80]), i8::MIN);
    assert_eq!(i16::from_bytes_le(&[0x00, 0x80]), i16::MIN);
    assert_eq!(i16::from_bytes_le(&[0xFE, 0xFF]), -2);
    assert_eq!(i32::from_bytes_le(&[0xFF, 0xFF, 0xFF, 0xFF]), -1);
    assert_eq!(i32::from_bytes_le(&[0x00, 0x00, 0x00, 0x80]), i32::MIN);
    assert_eq!(i64::from_bytes_le(&[0xFF; 8]), -1);
    assert_eq!(
        i64::from_bytes_le(&[0x00, 0x00, 0x00, 0x00, 0x00, 0x00, 0x00, 0x80]),
        i64::MIN
    );
    assert_eq!(i128::from_bytes_le(&[0xFF; 16]), -1);
    let mut min_bytes = [0x00; 16];
    min_bytes[15] = 0x80;
    assert_eq!(i128::from_bytes_le(&min_bytes), i128::MIN);
}

#[test]
fn declared_widths() {
    assert_eq!(u8::n_bytes(), 1);
    assert_eq!(u16::n_bytes(), 2);
    assert_eq!(u32::n_bytes(), 4);
    assert_eq!(u64::n_bytes(), 8);
    assert_eq!(u128::n_bytes(), 16);
    assert_eq!(i8::n_bytes(), 1);
    assert_eq!(i16::n_bytes(), 2);
    assert_eq!(i32::n_bytes(), 4);
    assert_eq!(i64::n_bytes(), 8);
    assert_eq!(i128::n_bytes(), 16);
    assert_eq!(Header::n_bytes(), 15);
}

#[test]
fn boundary_exact_width_succeeds() {
    let r: Result<u32, DecodeError> = try_from_bytes_le(&[0x04, 0x05, 0x06, 0x07]);
    assert_eq!(r, Ok(0x0706_0504));
    let data = [
        0x01, 0x02, 0x03, 0x04, 0x05, 0x06, 0x07, 0x08, 0x09, 0x0A, 0x0B, 0x0C, 0x0D, 0x0E, 0x0F,
    ];
    let h: Result<Header, DecodeError> = try_from_bytes_le(&data);
    assert_eq!(
        h,
        Ok(Header { a: 0x01, b: 0x0302, c: 0x0706_0504, d: 0x0F0E_0D0C_0B0A_0908 })
    );
}

#[test]
fn boundary_short_buffer_fails() {
    let r: Result<u32, DecodeError> = try_from_bytes_le(&[0x04, 0x05, 0x06]);
    assert_eq!(r, Err(DecodeError::LengthMismatch { expected: 4, actual: 3 }));
    let h: Result<Header, DecodeError> = try_from_bytes_le(&[0x01, 0x02]);
    assert_eq!(h, Err(DecodeError::LengthMismatch { expected: 15, actual: 2 }));
}

#[test]
fn boundary_long_buffer_fails() {
    let r: Result<u32, DecodeError> = try_from_bytes_le(&[0x04, 0x05, 0x06, 0x07, 0x08]);
    assert_eq!(r, Err(DecodeError::LengthMismatch { expected: 4, actual: 5 }));
    let h: Result<Header, DecodeError> = try_from_bytes_le(&[0x00; 16]);
    assert_eq!(h, Err(DecodeError::LengthMismatch { expected: 15, actual: 16 }));
    let e: Result<u8, DecodeError> = try_from_bytes_le(&[]);
    assert_eq!(e, Err(DecodeError::LengthMismatch { expected: 1, actual: 0 }));
}

#[test]
fn nested_composite() {
    let data = [
        0x01, 0x02, 0x03, 0x04, 0x05, 0x06, 0x07, 0x08, 0x09, 0x0A, 0x0B, 0x0C, 0x0D, 0x0E, 0x0F,
        0x10, 0x11, 0x12, 0x13,
    ];
    let e = Envelope::from_bytes_le(&data);
    assert_eq!(e.head.a, 0x01);
    assert_eq!(e.head.b, 0x0302);
    assert_eq!(e.head.c, 0x0706_0504);
    assert_eq!(e.head.d, 0x0F0E_0D0C_0B0A_0908);
    assert_eq!(e.tag, 0x1312_1110);
    assert_eq!(Envelope::n_bytes(), 19);
    let short: Result<Envelope, DecodeError> = try_from_bytes_le(&data[..18]);
    assert_eq!(short, Err(DecodeError::LengthMismatch { expected: 19, actual: 18 }));
}

#[test]
fn decode_is_pure() {
    let data = [0x04, 0x05, 0x06, 0x07];
    let first = u32::from_bytes_le(&data);
    let second = u32::from_bytes_le(&data);
    assert_eq!(first, second);
    assert_eq!(data, [0x04, 0x05, 0x06, 0x07]);
}
