//! Runtime values, their types and the errors raised while converting them.

use crate::bytes::{lemma_pow256_values, lemma_wrap_congruent, to_unsigned};
use crate::convert::{lemma_i32_u32_transmute, lemma_i64_u64_transmute, TransmuteInto};
use vstd::arithmetic::div_mod::lemma_mod_equivalence;
use vstd::prelude::*;

verus! {

/// Error raised by the value conversions.
#[derive(Debug, PartialEq, Eq)]
pub enum Error {
    /// A value did not have the expected type or representation.
    Value(String),
}

/// Type of a runtime value.
#[derive(Debug, Clone, Copy, PartialEq, Eq, Structural)]
pub enum VariableType {
    /// Reference to a function.
    AnyFunc,
    /// 32-bit integer.
    I32,
    /// 64-bit integer.
    I64,
    /// 32-bit float.
    F32,
    /// 64-bit float.
    F64,
}

/// Runtime value.
///
/// Floating-point values are held by their IEEE 754 bit patterns; equality
/// compares them as floats do: a NaN equals nothing, and `+0.0` equals
/// `-0.0`.
#[derive(Debug, Clone, Copy)]
pub enum RuntimeValue {
    /// Null value.
    Null,
    /// Reference to the function in the same module.
    AnyFunc(u32),
    /// 32b-length signed/unsigned int.
    I32(i32),
    /// 64b-length signed/unsigned int.
    I64(i64),
    /// 32b-length float, by its bit pattern.
    F32(u32),
    /// 64b-length float, by its bit pattern.
    F64(u64),
}

/// The 32-bit pattern `bits` encodes a NaN: all exponent bits set and a
/// non-zero fraction.
pub open spec fn is_nan_f32(bits: u32) -> bool {
    bits & 0x7f80_0000 == 0x7f80_0000 && bits & 0x007f_ffff != 0
}

/// The 32-bit pattern `bits` encodes `+0.0` or `-0.0`.
pub open spec fn is_zero_f32(bits: u32) -> bool {
    bits & 0x7fff_ffff == 0
}

/// The 64-bit pattern `bits` encodes a NaN: all exponent bits set and a
/// non-zero fraction.
pub open spec fn is_nan_f64(bits: u64) -> bool {
    bits & 0x7ff0_0000_0000_0000 == 0x7ff0_0000_0000_0000 && bits & 0x000f_ffff_ffff_ffff != 0
}

/// The 64-bit pattern `bits` encodes `+0.0` or `-0.0`.
pub open spec fn is_zero_f64(bits: u64) -> bool {
    bits & 0x7fff_ffff_ffff_ffff == 0
}

/// IEEE 754 equality of two 32-bit floats given by their bit patterns:
/// neither is a NaN, and they are the same pattern or both are zeros.
pub open spec fn f32_bits_equal(a: u32, b: u32) -> bool {
    !is_nan_f32(a) && !is_nan_f32(b) && (a == b || (is_zero_f32(a) && is_zero_f32(b)))
}

/// IEEE 754 equality of two 64-bit floats given by their bit patterns:
/// neither is a NaN, and they are the same pattern or both are zeros.
pub open spec fn f64_bits_equal(a: u64, b: u64) -> bool {
    !is_nan_f64(a) && !is_nan_f64(b) && (a == b || (is_zero_f64(a) && is_zero_f64(b)))
}

/// Equality of runtime values: the same variant with equal payloads,
/// floats compared as floats.
pub open spec fn values_equal(a: RuntimeValue, b: RuntimeValue) -> bool {
    match (a, b) {
        (RuntimeValue::Null, RuntimeValue::Null) => true,
        (RuntimeValue::AnyFunc(x), RuntimeValue::AnyFunc(y)) => x == y,
        (RuntimeValue::I32(x), RuntimeValue::I32(y)) => x == y,
        (RuntimeValue::I64(x), RuntimeValue::I64(y)) => x == y,
        (RuntimeValue::F32(x), RuntimeValue::F32(y)) => f32_bits_equal(x, y),
        (RuntimeValue::F64(x), RuntimeValue::F64(y)) => f64_bits_equal(x, y),
        _ => false,
    }
}

/// Compares two 32-bit floats given by their bit patterns.
fn f32_bits_eq(a: u32, b: u32) -> (equal: bool)
    ensures
        equal == f32_bits_equal(a, b),
{
    let a_nan = a & 0x7f80_0000 == 0x7f80_0000 && a & 0x007f_ffff != 0;
    let b_nan = b & 0x7f80_0000 == 0x7f80_0000 && b & 0x007f_ffff != 0;
    !a_nan && !b_nan && (a == b || (a & 0x7fff_ffff == 0 && b & 0x7fff_ffff == 0))
}

/// Compares two 64-bit floats given by their bit patterns.
fn f64_bits_eq(a: u64, b: u64) -> (equal: bool)
    ensures
        equal == f64_bits_equal(a, b),
{
    let a_nan = a & 0x7ff0_0000_0000_0000 == 0x7ff0_0000_0000_0000 && a & 0x000f_ffff_ffff_ffff
        != 0;
    let b_nan = b & 0x7ff0_0000_0000_0000 == 0x7ff0_0000_0000_0000 && b & 0x000f_ffff_ffff_ffff
        != 0;
    !a_nan && !b_nan && (a == b || (a & 0x7fff_ffff_ffff_ffff == 0 && b & 0x7fff_ffff_ffff_ffff
        == 0))
}

impl PartialEq for RuntimeValue {
    fn eq(&self, other: &Self) -> (equal: bool) {
        match (*self, *other) {
            (RuntimeValue::Null, RuntimeValue::Null) => true,
            (RuntimeValue::AnyFunc(x), RuntimeValue::AnyFunc(y)) => x == y,
            (RuntimeValue::I32(x), RuntimeValue::I32(y)) => x == y,
            (RuntimeValue::I64(x), RuntimeValue::I64(y)) => x == y,
            (RuntimeValue::F32(x), RuntimeValue::F32(y)) => f32_bits_eq(x, y),
            (RuntimeValue::F64(x), RuntimeValue::F64(y)) => f64_bits_eq(x, y),
            _ => false,
        }
    }
}

impl vstd::std_specs::cmp::PartialEqSpecImpl for RuntimeValue {
    open spec fn obeys_eq_spec() -> bool {
        true
    }

    open spec fn eq_spec(&self, other: &Self) -> bool {
        values_equal(*self, *other)
    }
}

/// The zero value of a type: function index 0, integer 0, or the bit
/// pattern of `+0.0`, which is all zeros.
pub open spec fn zero_of(variable_type: VariableType) -> RuntimeValue {
    match variable_type {
        VariableType::AnyFunc => RuntimeValue::AnyFunc(0),
        VariableType::I32 => RuntimeValue::I32(0),
        VariableType::I64 => RuntimeValue::I64(0),
        VariableType::F32 => RuntimeValue::F32(0),
        VariableType::F64 => RuntimeValue::F64(0),
    }
}

/// The type of a value; `Null` has none.
pub open spec fn type_of(value: RuntimeValue) -> Option<VariableType> {
    match value {
        RuntimeValue::Null => None,
        RuntimeValue::AnyFunc(_) => Some(VariableType::AnyFunc),
        RuntimeValue::I32(_) => Some(VariableType::I32),
        RuntimeValue::I64(_) => Some(VariableType::I64),
        RuntimeValue::F32(_) => Some(VariableType::F32),
        RuntimeValue::F64(_) => Some(VariableType::F64),
    }
}

impl RuntimeValue {
    /// Creates new default value of given type.
    pub fn default(variable_type: VariableType) -> (value: Self)
        ensures
            value == zero_of(variable_type),
    {
        match variable_type {
            VariableType::AnyFunc => RuntimeValue::AnyFunc(0),
            VariableType::I32 => RuntimeValue::I32(0),
            VariableType::I64 => RuntimeValue::I64(0),
            VariableType::F32 => RuntimeValue::F32(0),
            VariableType::F64 => RuntimeValue::F64(0),
        }
    }

    /// Creates new value by interpreting passed u32 as f32.
    pub fn decode_f32(val: u32) -> (value: Self)
        ensures
            value == RuntimeValue::F32(val),
    {
        RuntimeValue::F32(val)
    }

    /// Creates new value by interpreting passed u64 as f64.
    pub fn decode_f64(val: u64) -> (value: Self)
        ensures
            value == RuntimeValue::F64(val),
    {
        RuntimeValue::F64(val)
    }

    /// Returns true if value is null.
    pub fn is_null(&self) -> (null: bool)
        ensures
            null <==> *self is Null,
    {
        match *self {
            RuntimeValue::Null => true,
            _ => false,
        }
    }

    /// Gets function index, if type of value is AnyFunc.
    pub fn as_any_func_index(&self) -> (index: Option<u32>)
        ensures
            index == (match *self {
                RuntimeValue::AnyFunc(idx) => Some(idx),
                _ => None,
            }),
    {
        match *self {
            RuntimeValue::AnyFunc(idx) => Some(idx),
            _ => None,
        }
    }

    /// Get variable type for this value.
    pub fn variable_type(&self) -> (variable_type: Option<VariableType>)
        ensures
            variable_type == type_of(*self),
    {
        match *self {
            RuntimeValue::Null => None,
            RuntimeValue::AnyFunc(_) => Some(VariableType::AnyFunc),
            RuntimeValue::I32(_) => Some(VariableType::I32),
            RuntimeValue::I64(_) => Some(VariableType::I64),
            RuntimeValue::F32(_) => Some(VariableType::F32),
            RuntimeValue::F64(_) => Some(VariableType::F64),
        }
    }

    /// Gets the bit pattern of a 32-bit float value.
    pub fn try_into_f32_bits(self) -> (r: Result<u32, Error>)
        ensures
            self matches RuntimeValue::F32(bits) ==> r == Ok::<u32, Error>(bits),
            !(self is F32) ==> (r matches Err(Error::Value(m)) && m@ == "32-bit float value expected"@),
    {
        match self {
            RuntimeValue::F32(bits) => Ok(bits),
            _ => Err(Error::Value("32-bit float value expected".to_owned())),
        }
    }

    /// Gets the bit pattern of a 64-bit float value.
    pub fn try_into_f64_bits(self) -> (r: Result<u64, Error>)
        ensures
            self matches RuntimeValue::F64(bits) ==> r == Ok::<u64, Error>(bits),
            !(self is F64) ==> (r matches Err(Error::Value(m)) && m@ == "64-bit float value expected"@),
    {
        match self {
            RuntimeValue::F64(bits) => Ok(bits),
            _ => Err(Error::Value("64-bit float value expected".to_owned())),
        }
    }
}

/// The default value of every type has that type.
pub proof fn lemma_default_has_its_type(variable_type: VariableType)
    ensures
        type_of(zero_of(variable_type)) == Some(variable_type),
{
}

/// A value is null exactly when it has no type.
pub proof fn lemma_null_iff_untyped(value: RuntimeValue)
    ensures
        value is Null <==> type_of(value) is None,
{
}

/// A value has a function index exactly when its type is `AnyFunc`.
pub proof fn lemma_func_index_iff_any_func(value: RuntimeValue)
    ensures
        (value is AnyFunc) <==> type_of(value) == Some(VariableType::AnyFunc),
{
}

impl From<i32> for RuntimeValue {
    fn from(val: i32) -> (value: Self) {
        RuntimeValue::I32(val)
    }
}

impl vstd::std_specs::convert::FromSpecImpl<i32> for RuntimeValue {
    open spec fn obeys_from_spec() -> bool {
        true
    }

    open spec fn from_spec(val: i32) -> Self {
        RuntimeValue::I32(val)
    }
}

impl From<i64> for RuntimeValue {
    fn from(val: i64) -> (value: Self) {
        RuntimeValue::I64(val)
    }
}

impl vstd::std_specs::convert::FromSpecImpl<i64> for RuntimeValue {
    open spec fn obeys_from_spec() -> bool {
        true
    }

    open spec fn from_spec(val: i64) -> Self {
        RuntimeValue::I64(val)
    }
}

/// Try to convert into trait.
pub trait TryInto<T, E>: Sized {
    /// The value that the conversion of `self` gives, if there is one.
    spec fn converted(self) -> Option<T>;

    /// `error` is what a failed conversion of `self` reports.
    spec fn reports(self, error: E) -> bool;

    /// Try to convert self into other value.
    fn try_into(self) -> (r: Result<T, E>)
        ensures
            r is Ok <==> self.converted() is Some,
            r matches Ok(v) ==> self.converted() == Some(v),
            r matches Err(e) ==> self.reports(e);
}

impl TryInto<bool, Error> for RuntimeValue {
    open spec fn converted(self) -> Option<bool> {
        match self {
            RuntimeValue::I32(val) => Some(val != 0),
            _ => None,
        }
    }

    open spec fn reports(self, error: Error) -> bool {
        error matches Error::Value(m) && m@ == "32-bit int value expected"@
    }

    fn try_into(self) -> (r: Result<bool, Error>) {
        match self {
            RuntimeValue::I32(val) => Ok(val != 0),
            _ => Err(Error::Value("32-bit int value expected".to_owned())),
        }
    }
}

impl TryInto<i32, Error> for RuntimeValue {
    open spec fn converted(self) -> Option<i32> {
        match self {
            RuntimeValue::I32(val) => Some(val),
            _ => None,
        }
    }

    open spec fn reports(self, error: Error) -> bool {
        error matches Error::Value(m) && m@ == "32-bit int value expected"@
    }

    fn try_into(self) -> (r: Result<i32, Error>) {
        match self {
            RuntimeValue::I32(val) => Ok(val),
            _ => Err(Error::Value("32-bit int value expected".to_owned())),
        }
    }
}

impl TryInto<i64, Error> for RuntimeValue {
    open spec fn converted(self) -> Option<i64> {
        match self {
            RuntimeValue::I64(val) => Some(val),
            _ => None,
        }
    }

    open spec fn reports(self, error: Error) -> bool {
        error matches Error::Value(m) && m@ == "64-bit int value expected"@
    }

    fn try_into(self) -> (r: Result<i64, Error>) {
        match self {
            RuntimeValue::I64(val) => Ok(val),
            _ => Err(Error::Value("64-bit int value expected".to_owned())),
        }
    }
}

impl TryInto<u32, Error> for RuntimeValue {
    open spec fn converted(self) -> Option<u32> {
        match self {
            RuntimeValue::I32(val) => Some(val as u32),
            _ => None,
        }
    }

    open spec fn reports(self, error: Error) -> bool {
        error matches Error::Value(m) && m@ == "32-bit int value expected"@
    }

    fn try_into(self) -> (r: Result<u32, Error>) {
        match self {
            RuntimeValue::I32(val) => Ok(val as u32),
            _ => Err(Error::Value("32-bit int value expected".to_owned())),
        }
    }
}

impl TryInto<u64, Error> for RuntimeValue {
    open spec fn converted(self) -> Option<u64> {
        match self {
            RuntimeValue::I64(val) => Some(val as u64),
            _ => None,
        }
    }

    open spec fn reports(self, error: Error) -> bool {
        error matches Error::Value(m) && m@ == "64-bit int value expected"@
    }

    fn try_into(self) -> (r: Result<u64, Error>) {
        match self {
            RuntimeValue::I64(val) => Ok(val as u64),
            _ => Err(Error::Value("64-bit int value expected".to_owned())),
        }
    }
}

/// A value made from an integer reads back as that integer.
pub proof fn lemma_from_then_try_into(x: i32, y: i64)
    ensures
        <RuntimeValue as TryInto<i32, Error>>::converted(
            <RuntimeValue as vstd::std_specs::convert::FromSpec<i32>>::from_spec(x),
        ) == Some(x),
        <RuntimeValue as TryInto<i64, Error>>::converted(
            <RuntimeValue as vstd::std_specs::convert::FromSpec<i64>>::from_spec(y),
        ) == Some(y),
{
}

/// Reading a value as unsigned reinterprets the bits of its signed reading,
/// and reading it as a boolean tests its signed reading against zero.
pub proof fn lemma_readings_agree(value: RuntimeValue)
    ensures
        <RuntimeValue as TryInto<u32, Error>>::converted(value) == (match <RuntimeValue as TryInto<
            i32,
            Error,
        >>::converted(value) {
            Some(x) => Some(<i32 as TransmuteInto<u32>>::transmuted(x)),
            None => None,
        }),
        <RuntimeValue as TryInto<u64, Error>>::converted(value) == (match <RuntimeValue as TryInto<
            i64,
            Error,
        >>::converted(value) {
            Some(x) => Some(<i64 as TransmuteInto<u64>>::transmuted(x)),
            None => None,
        }),
        <RuntimeValue as TryInto<bool, Error>>::converted(value) == (match <RuntimeValue as TryInto<
            i32,
            Error,
        >>::converted(value) {
            Some(x) => Some(x != 0),
            None => None,
        }),
{
}

/// Every value equals itself except a NaN float, and the two float zeros
/// of each width are equal.
pub proof fn lemma_equality_of_floats(value: RuntimeValue)
    ensures
        values_equal(value, value) <==> !(value matches RuntimeValue::F32(bits) && is_nan_f32(bits))
            && !(value matches RuntimeValue::F64(bits) && is_nan_f64(bits)),
        values_equal(RuntimeValue::F32(0), RuntimeValue::F32(0x8000_0000)),
        values_equal(RuntimeValue::F64(0), RuntimeValue::F64(0x8000_0000_0000_0000)),
{
    assert(0x8000_0000u32 & 0x7fff_ffff == 0 && 0u32 & 0x7fff_ffff == 0 && 0u32 & 0x7f80_0000
        != 0x7f80_0000 && 0x8000_0000u32 & 0x7f80_0000 != 0x7f80_0000) by (bit_vector);
    assert(0x8000_0000_0000_0000u64 & 0x7fff_ffff_ffff_ffff == 0 && 0u64 & 0x7fff_ffff_ffff_ffff
        == 0 && 0u64 & 0x7ff0_0000_0000_0000 != 0x7ff0_0000_0000_0000 && 0x8000_0000_0000_0000u64
        & 0x7ff0_0000_0000_0000 != 0x7ff0_0000_0000_0000) by (bit_vector);
}

/// Every value's type is given by its variant alone, whatever its payload.
pub proof fn lemma_type_by_variant(index: u32, x: i32, y: i64, a: u32, b: u64)
    ensures
        type_of(RuntimeValue::Null) is None,
        type_of(RuntimeValue::AnyFunc(index)) == Some(VariableType::AnyFunc),
        type_of(RuntimeValue::I32(x)) == Some(VariableType::I32),
        type_of(RuntimeValue::I64(y)) == Some(VariableType::I64),
        type_of(RuntimeValue::F32(a)) == Some(VariableType::F32),
        type_of(RuntimeValue::F64(b)) == Some(VariableType::F64),
{
}

/// The default value of a type holds zero: function index 0, integer 0, or
/// the all-zero bit pattern of `+0.0`.
pub proof fn lemma_default_is_zero(variable_type: VariableType)
    ensures
        match zero_of(variable_type) {
            RuntimeValue::Null => false,
            RuntimeValue::AnyFunc(index) => index == 0,
            RuntimeValue::I32(v) => v == 0,
            RuntimeValue::I64(v) => v == 0,
            RuntimeValue::F32(bits) => bits == 0,
            RuntimeValue::F64(bits) => bits == 0,
        },
{
}

/// Values of different variants are never equal; `Null` equals `Null`;
/// function indices and integers are equal exactly when their payloads are.
pub proof fn lemma_equality_of_payloads(v: RuntimeValue, w: RuntimeValue, p: u32, q: u32, x: i32, y: i32, a: i64, b: i64)
    ensures
        values_equal(v, w) ==> (v is Null <==> w is Null) && (v is AnyFunc <==> w is AnyFunc) && (v is I32
            <==> w is I32) && (v is I64 <==> w is I64) && (v is F32 <==> w is F32) && (v is F64 <==> w is F64),
        values_equal(RuntimeValue::Null, RuntimeValue::Null),
        values_equal(RuntimeValue::AnyFunc(p), RuntimeValue::AnyFunc(q)) <==> p == q,
        values_equal(RuntimeValue::I32(x), RuntimeValue::I32(y)) <==> x == y,
        values_equal(RuntimeValue::I64(a), RuntimeValue::I64(b)) <==> a == b,
{
}

/// Floats compare as IEEE 754 floats: a NaN (exponent bits all set, fraction
/// not zero) equals nothing, the two zeros are equal, and other bit patterns
/// are equal exactly when they are the same.
pub proof fn lemma_equality_of_float_bits(a: u32, b: u32, c: u64, d: u64)
    ensures
        values_equal(RuntimeValue::F32(a), RuntimeValue::F32(b)) <==> (a & 0x7f80_0000 != 0x7f80_0000
            || a & 0x007f_ffff == 0) && (b & 0x7f80_0000 != 0x7f80_0000 || b & 0x007f_ffff == 0) && (a
            == b || (a & 0x7fff_ffff == 0 && b & 0x7fff_ffff == 0)),
        values_equal(RuntimeValue::F64(c), RuntimeValue::F64(d)) <==> (c & 0x7ff0_0000_0000_0000
            != 0x7ff0_0000_0000_0000 || c & 0x000f_ffff_ffff_ffff == 0) && (d & 0x7ff0_0000_0000_0000
            != 0x7ff0_0000_0000_0000 || d & 0x000f_ffff_ffff_ffff == 0) && (c == d || (c
            & 0x7fff_ffff_ffff_ffff == 0 && d & 0x7fff_ffff_ffff_ffff == 0)),
{
}

/// The integer readings: an `I32` reads as its payload, as the same bits
/// unsigned (equal modulo `2^32`) and as a boolean that is true when it is
/// not zero; an `I64` reads as its payload and as the same bits unsigned;
/// other variants do not read as these types.
pub proof fn lemma_integer_readings(v: RuntimeValue, x: i32, y: i64)
    ensures
        <RuntimeValue as TryInto<i32, Error>>::converted(RuntimeValue::I32(x)) == Some(x),
        <RuntimeValue as TryInto<i64, Error>>::converted(RuntimeValue::I64(y)) == Some(y),
        <RuntimeValue as TryInto<bool, Error>>::converted(RuntimeValue::I32(x)) == Some(x != 0),
        <RuntimeValue as TryInto<u32, Error>>::converted(RuntimeValue::I32(x)) matches Some(u) && (u
            as int - x as int) % 0x1_0000_0000 == 0,
        <RuntimeValue as TryInto<u64, Error>>::converted(RuntimeValue::I64(y)) matches Some(u) && (u
            as int - y as int) % 0x1_0000_0000_0000_0000 == 0,
        !(v is I32) ==> <RuntimeValue as TryInto<i32, Error>>::converted(v) is None
            && <RuntimeValue as TryInto<u32, Error>>::converted(v) is None
            && <RuntimeValue as TryInto<bool, Error>>::converted(v) is None,
        !(v is I64) ==> <RuntimeValue as TryInto<i64, Error>>::converted(v) is None
            && <RuntimeValue as TryInto<u64, Error>>::converted(v) is None,
{
    lemma_i32_u32_transmute(x, 0);
    lemma_i64_u64_transmute(y, 0);
    lemma_pow256_values();
    lemma_wrap_congruent(x as int, 4);
    lemma_wrap_congruent(y as int, 8);
    lemma_mod_equivalence(to_unsigned(x as int, 4) as int, x as int, 0x1_0000_0000);
    lemma_mod_equivalence(to_unsigned(y as int, 8) as int, y as int, 0x1_0000_0000_0000_0000);
}

/// A failed reading reports the type that was expected.
pub proof fn lemma_reading_errors(v: RuntimeValue, m: String)
    ensures
        <RuntimeValue as TryInto<i32, Error>>::reports(v, Error::Value(m)) ==> m@ == "32-bit int value expected"@,
        <RuntimeValue as TryInto<u32, Error>>::reports(v, Error::Value(m)) ==> m@ == "32-bit int value expected"@,
        <RuntimeValue as TryInto<bool, Error>>::reports(v, Error::Value(m)) ==> m@ == "32-bit int value expected"@,
        <RuntimeValue as TryInto<i64, Error>>::reports(v, Error::Value(m)) ==> m@ == "64-bit int value expected"@,
        <RuntimeValue as TryInto<u64, Error>>::reports(v, Error::Value(m)) ==> m@ == "64-bit int value expected"@,
{
}

} // verus!
