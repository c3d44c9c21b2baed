use wasm_value::endian::LittleEndianConvert;
use wasm_value::value::Error;

#[test]
fn bytes_into_little_endian() {
    assert_eq!((-1i8).into_little_endian(), vec![0xff]);
    assert_eq!(0xabu8.into_little_endian(), vec![0xab]);
    assert_eq!((-1000i16).into_little_endian(), vec![0x18, 0xfc]);
    assert_eq!(0x1234u16.into_little_endian(), vec![0x34, 0x12]);
    assert_eq!((-2i32).into_little_endian(), vec![0xfe, 0xff, 0xff, 0xff]);
    assert_eq!(0x0102_0304u32.into_little_endian(), vec![0x04, 0x03, 0x02, 0x01]);
    assert_eq!(
        0x0102_0304_0506_0708i64.into_little_endian(),
        vec![0x08, 0x07, 0x06, 0x05, 0x04, 0x03, 0x02, 0x01]
    );
}

#[test]
fn bytes_from_little_endian() {
    assert_eq!(i8::from_little_endian(vec![0x80]), Ok(-128));
    assert_eq!(u8::from_little_endian(vec![0x80, 1]), Ok(0x80));
    assert_eq!(i16::from_little_endian(vec![0x18, 0xfc, 0x99]), Ok(-1000));
    assert_eq!(u16::from_little_endian(vec![0x34, 0x12]), Ok(0x1234));
    assert_eq!(i32::from_little_endian(vec![0, 0, 0, 0x80]), Ok(i32::MIN));
    assert_eq!(u32::from_little_endian(vec![0xff, 0xff, 0xff, 0xff, 7]), Ok(u32::MAX));
    assert_eq!(i64::from_little_endian(vec![1, 0, 0, 0, 0, 0, 0, 0]), Ok(1));
    assert_eq!(i64::from_little_endian(vec![0xff; 8]), Ok(-1));
}

#[test]
fn short_buffers_are_refused() {
    assert_eq!(i8::from_little_endian(vec![]), Err(Error::Value("invalid little endian buffer".to_string())));
    assert_eq!(u8::from_little_endian(vec![]), Err(Error::Value("invalid little endian buffer".to_string())));
    assert!(matches!(i16::from_little_endian(vec![1]), Err(Error::Value(_))));
    assert!(matches!(u16::from_little_endian(vec![]), Err(Error::Value(_))));
    assert!(matches!(i32::from_little_endian(vec![1, 2, 3]), Err(Error::Value(_))));
    assert!(matches!(u32::from_little_endian(vec![1]), Err(Error::Value(_))));
    assert!(matches!(i64::from_little_endian(vec![1, 2, 3, 4, 5, 6, 7]), Err(Error::Value(_))));
}

#[test]
fn little_endian_round_trips() {
    for x in [i8::MIN, -1, 0, 1, i8::MAX] {
        let mut bytes = x.into_little_endian();
        bytes.push(0x55);
        assert_eq!(i8::from_little_endian(bytes), Ok(x));
    }
    for x in [i16::MIN, -1000, 0, 77, i16::MAX] {
        let mut bytes = x.into_little_endian();
        assert_eq!(bytes.len(), 2);
        bytes.push(0x55);
        assert_eq!(i16::from_little_endian(bytes), Ok(x));
    }
    for x in [0u16, 1, 0xfffe, u16::MAX] {
        assert_eq!(u16::from_little_endian(x.into_little_endian()), Ok(x));
    }
    for x in [i32::MIN, -123456, 0, 99, i32::MAX] {
        assert_eq!(i32::from_little_endian(x.into_little_endian()), Ok(x));
    }
    for x in [0u32, 1, 0xdead_beef, u32::MAX] {
        assert_eq!(u32::from_little_endian(x.into_little_endian()), Ok(x));
    }
    for x in [i64::MIN, -1, 0, 1 << 40, i64::MAX] {
        let bytes = x.into_little_endian();
        assert_eq!(bytes.len(), 8);
        assert_eq!(i64::from_little_endian(bytes), Ok(x));
    }
    for b in [0u8, 1, 0x7f, 0x80, 0xff] {
        assert_eq!(u8::from_little_endian(b.into_little_endian()), Ok(b));
    }
}

#[test]
fn encoding_what_was_read_gives_the_bytes() {
    let bytes = vec![0x9a, 0xbc, 0xde, 0xf0, 0x11];
    let v = i32::from_little_endian(bytes.clone()).unwrap();
    assert_eq!(v.into_little_endian(), bytes[..4].to_vec());
    let w = u16::from_little_endian(bytes.clone()).unwrap();
    assert_eq!(w.into_little_endian(), bytes[..2].to_vec());
}
