use wasm_value::convert::{ExtendInto, TransmuteInto, WrapInto};

#[test]
fn wrap_keeps_low_bits() {
    assert_eq!(WrapInto::<i8>::wrap_into(300i32), 44i8);
    assert_eq!(WrapInto::<i8>::wrap_into(-129i32), 127i8);
    assert_eq!(WrapInto::<i16>::wrap_into(0x1_8000i32), i16::MIN);
    assert_eq!(WrapInto::<i8>::wrap_into(0x1ffi64), -1i8);
    assert_eq!(WrapInto::<i16>::wrap_into(-1i64), -1i16);
    assert_eq!(WrapInto::<i32>::wrap_into(0x1_2345_6789i64), 0x2345_6789i32);
    assert_eq!(WrapInto::<i32>::wrap_into(0x8000_0000i64), i32::MIN);
}

#[test]
fn extend_keeps_value() {
    assert_eq!(ExtendInto::<i32>::extend_into(-1i8), -1i32);
    assert_eq!(ExtendInto::<i32>::extend_into(255u8), 255i32);
    assert_eq!(ExtendInto::<i32>::extend_into(i16::MIN), -32768i32);
    assert_eq!(ExtendInto::<i32>::extend_into(u16::MAX), 65535i32);
    assert_eq!(ExtendInto::<i64>::extend_into(-128i8), -128i64);
    assert_eq!(ExtendInto::<i64>::extend_into(200u8), 200i64);
    assert_eq!(ExtendInto::<i64>::extend_into(-2i16), -2i64);
    assert_eq!(ExtendInto::<i64>::extend_into(40000u16), 40000i64);
    assert_eq!(ExtendInto::<i64>::extend_into(i32::MIN), -2147483648i64);
    assert_eq!(ExtendInto::<i64>::extend_into(u32::MAX), 4294967295i64);
    assert_eq!(ExtendInto::<u64>::extend_into(u32::MAX), 4294967295u64);
}

#[test]
fn wrap_undoes_extend() {
    for a in [i8::MIN, -1, 0, i8::MAX] {
        assert_eq!(WrapInto::<i8>::wrap_into(ExtendInto::<i32>::extend_into(a)), a);
        assert_eq!(WrapInto::<i8>::wrap_into(ExtendInto::<i64>::extend_into(a)), a);
    }
    for c in [i32::MIN, -5, i32::MAX] {
        assert_eq!(WrapInto::<i32>::wrap_into(ExtendInto::<i64>::extend_into(c)), c);
    }
}

#[test]
fn transmute_reinterprets_bits() {
    assert_eq!(TransmuteInto::<u8>::transmute_into(-1i8), 255u8);
    assert_eq!(TransmuteInto::<i8>::transmute_into(0x80u8), i8::MIN);
    assert_eq!(TransmuteInto::<u32>::transmute_into(-2i32), 0xffff_fffeu32);
    assert_eq!(TransmuteInto::<i32>::transmute_into(0x8000_0000u32), i32::MIN);
    assert_eq!(TransmuteInto::<u64>::transmute_into(i64::MIN), 1u64 << 63);
    assert_eq!(TransmuteInto::<i64>::transmute_into(u64::MAX), -1i64);
    assert_eq!(TransmuteInto::<i32>::transmute_into(17i32), 17i32);
    assert_eq!(TransmuteInto::<i64>::transmute_into(-17i64), -17i64);
}

#[test]
fn transmute_round_trips() {
    for x in [i32::MIN, -1, 0, 5, i32::MAX] {
        let u: u32 = x.transmute_into();
        assert_eq!(TransmuteInto::<i32>::transmute_into(u), x);
    }
    for v in [0u64, 1, u64::MAX, 1 << 63] {
        let s: i64 = v.transmute_into();
        assert_eq!(TransmuteInto::<u64>::transmute_into(s), v);
    }
}
