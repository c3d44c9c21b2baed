use wasm_value::value::{Error, RuntimeValue, TryInto, VariableType};

fn expect_error<T: std::fmt::Debug>(r: Result<T, Error>, message: &str) {
    match r {
        Err(Error::Value(m)) => assert_eq!(m, message),
        other => panic!("expected an error, got {:?}", other),
    }
}

#[test]
fn default_values_are_zero_of_their_type() {
    assert_eq!(RuntimeValue::default(VariableType::AnyFunc), RuntimeValue::AnyFunc(0));
    assert_eq!(RuntimeValue::default(VariableType::I32), RuntimeValue::I32(0));
    assert_eq!(RuntimeValue::default(VariableType::I64), RuntimeValue::I64(0));
    assert_eq!(RuntimeValue::default(VariableType::F32), RuntimeValue::F32(0));
    assert_eq!(RuntimeValue::default(VariableType::F64), RuntimeValue::F64(0));
    assert_eq!(RuntimeValue::default(VariableType::F32).try_into_f32_bits().map(f32::from_bits), Ok(0.0f32));
}

#[test]
fn default_value_has_its_type() {
    for t in [VariableType::AnyFunc, VariableType::I32, VariableType::I64, VariableType::F32, VariableType::F64] {
        assert_eq!(RuntimeValue::default(t).variable_type(), Some(t));
        assert!(!RuntimeValue::default(t).is_null());
    }
}

#[test]
fn null_has_no_type() {
    assert!(RuntimeValue::Null.is_null());
    assert_eq!(RuntimeValue::Null.variable_type(), None);
    assert!(!RuntimeValue::I32(0).is_null());
}

#[test]
fn any_func_index() {
    assert_eq!(RuntimeValue::AnyFunc(7).as_any_func_index(), Some(7));
    assert_eq!(RuntimeValue::I32(7).as_any_func_index(), None);
    assert_eq!(RuntimeValue::Null.as_any_func_index(), None);
    assert_eq!(RuntimeValue::AnyFunc(7).variable_type(), Some(VariableType::AnyFunc));
}

#[test]
fn variable_types() {
    assert_eq!(RuntimeValue::I32(1).variable_type(), Some(VariableType::I32));
    assert_eq!(RuntimeValue::I64(1).variable_type(), Some(VariableType::I64));
    assert_eq!(RuntimeValue::F32(1).variable_type(), Some(VariableType::F32));
    assert_eq!(RuntimeValue::F64(1).variable_type(), Some(VariableType::F64));
}

#[test]
fn decode_floats_keeps_bits() {
    let one = RuntimeValue::decode_f32(0x3f80_0000);
    assert_eq!(one, RuntimeValue::F32(0x3f80_0000));
    assert_eq!(one.try_into_f32_bits(), Ok(0x3f80_0000));
    assert_eq!(f32::from_bits(one.try_into_f32_bits().unwrap()), 1.0f32);
    let half = RuntimeValue::decode_f64(0x3fe0_0000_0000_0000);
    assert_eq!(half, RuntimeValue::F64(0x3fe0_0000_0000_0000));
    assert_eq!(f64::from_bits(half.try_into_f64_bits().unwrap()), 0.5f64);
    expect_error(RuntimeValue::I32(1).try_into_f32_bits(), "32-bit float value expected");
    expect_error(RuntimeValue::F32(1).try_into_f64_bits(), "64-bit float value expected");
}

#[test]
fn from_integers() {
    assert_eq!(RuntimeValue::from(-5i32), RuntimeValue::I32(-5));
    assert_eq!(RuntimeValue::from(1i64 << 40), RuntimeValue::I64(1 << 40));
}

#[test]
fn try_into_bool() {
    assert_eq!(<RuntimeValue as TryInto<bool, Error>>::try_into(RuntimeValue::I32(0)), Ok(false));
    assert_eq!(<RuntimeValue as TryInto<bool, Error>>::try_into(RuntimeValue::I32(-3)), Ok(true));
    expect_error(<RuntimeValue as TryInto<bool, Error>>::try_into(RuntimeValue::I64(1)), "32-bit int value expected");
}

#[test]
fn try_into_integers() {
    assert_eq!(<RuntimeValue as TryInto<i32, Error>>::try_into(RuntimeValue::from(-7i32)), Ok(-7));
    assert_eq!(<RuntimeValue as TryInto<i64, Error>>::try_into(RuntimeValue::from(-7i64)), Ok(-7));
    assert_eq!(<RuntimeValue as TryInto<u32, Error>>::try_into(RuntimeValue::I32(-1)), Ok(u32::MAX));
    assert_eq!(<RuntimeValue as TryInto<u64, Error>>::try_into(RuntimeValue::I64(i64::MIN)), Ok(1u64 << 63));
    expect_error(<RuntimeValue as TryInto<i32, Error>>::try_into(RuntimeValue::Null), "32-bit int value expected");
    expect_error(<RuntimeValue as TryInto<u32, Error>>::try_into(RuntimeValue::F32(0)), "32-bit int value expected");
    expect_error(<RuntimeValue as TryInto<i64, Error>>::try_into(RuntimeValue::I32(1)), "64-bit int value expected");
    expect_error(<RuntimeValue as TryInto<u64, Error>>::try_into(RuntimeValue::AnyFunc(1)), "64-bit int value expected");
}

#[test]
fn float_values_compare_as_floats() {
    let f32_patterns = [0u32, 0x8000_0000, 0x3f80_0000, 0xbf80_0000, 0x7f80_0000, 0xff80_0000, 0x7fc0_0000, 0x7f80_0001, 0xffc0_0000, 1, 0x8000_0001];
    for a in f32_patterns {
        for b in f32_patterns {
            assert_eq!(RuntimeValue::F32(a) == RuntimeValue::F32(b), f32::from_bits(a) == f32::from_bits(b), "{:x} {:x}", a, b);
        }
    }
    let f64_patterns = [0u64, 1 << 63, 0x3ff0_0000_0000_0000, 0x7ff0_0000_0000_0000, 0x7ff8_0000_0000_0000, 0x7ff0_0000_0000_0001, 0xfff8_0000_0000_0000, 1];
    for a in f64_patterns {
        for b in f64_patterns {
            assert_eq!(RuntimeValue::F64(a) == RuntimeValue::F64(b), f64::from_bits(a) == f64::from_bits(b), "{:x} {:x}", a, b);
        }
    }
}

#[test]
fn nan_is_unequal_and_zeros_are_equal() {
    let nan = RuntimeValue::decode_f32(0x7fc0_0000);
    assert!(nan != nan);
    assert!(RuntimeValue::F32(0) == RuntimeValue::F32(0x8000_0000));
    assert!(RuntimeValue::F64(0) == RuntimeValue::F64(1 << 63));
    assert!(RuntimeValue::F32(0) != RuntimeValue::F64(0));
    assert!(RuntimeValue::I32(0) != RuntimeValue::I64(0));
    assert!(RuntimeValue::I32(3) == RuntimeValue::I32(3));
    assert!(RuntimeValue::AnyFunc(3) != RuntimeValue::AnyFunc(4));
    assert!(RuntimeValue::Null == RuntimeValue::Null);
}
