//! Conversions between the integer types: wrapping, extension and
//! reinterpretation of bits.

use crate::bytes::{lemma_pow256_values, lemma_wrap_congruent, to_signed, to_unsigned};
use vstd::arithmetic::div_mod::lemma_mod_equivalence;
use vstd::prelude::*;

verus! {

/// Convert one type to another by wrapping.
pub trait WrapInto<T>: Sized {
    /// The low bits of `self` that fit in `T`, read as a `T`.
    spec fn wrapped(self) -> T;

    /// Convert one type to another by wrapping.
    fn wrap_into(self) -> (r: T)
        ensures
            r == self.wrapped();
}

/// Convert one type to another by rounding to the nearest integer towards zero.
///
/// Its conversions start from floats, so this library implements it for no
/// type; the float truncations are free functions beside the library
/// (`try_truncate_f32_into_i32` and the like), because the orphan rule
/// keeps them from implementing this trait for `f32` and `f64`.
pub trait TryTruncateInto<T, E> {
    /// Convert one type to another by rounding to the nearest integer towards zero.
    fn try_truncate_into(self) -> Result<T, E>;
}

/// Convert one type to another by extending: an unsigned value gains
/// leading zeroes, a signed value copies of its sign bit, so that the number
/// stays the same.
pub trait ExtendInto<T>: Sized {
    /// The same number as `self`, in the wider type `T`.
    spec fn extended(self) -> T;

    /// Convert one type to another by zero- or sign-extension.
    fn extend_into(self) -> (r: T)
        ensures
            r == self.extended();
}

/// Reinterprets the bits of a value of one type as another type.
pub trait TransmuteInto<T>: Sized {
    /// The bits of `self` read as a `T`.
    spec fn transmuted(self) -> T;

    /// Reinterprets the bits of a value of one type as another type.
    fn transmute_into(self) -> (r: T)
        ensures
            r == self.transmuted();
}

impl WrapInto<i8> for i32 {
    open spec fn wrapped(self) -> i8 {
        self as i8
    }

    fn wrap_into(self) -> (r: i8) {
        #[verifier::truncate]
        (self as i8)
    }
}

impl WrapInto<i16> for i32 {
    open spec fn wrapped(self) -> i16 {
        self as i16
    }

    fn wrap_into(self) -> (r: i16) {
        #[verifier::truncate]
        (self as i16)
    }
}

impl WrapInto<i8> for i64 {
    open spec fn wrapped(self) -> i8 {
        self as i8
    }

    fn wrap_into(self) -> (r: i8) {
        #[verifier::truncate]
        (self as i8)
    }
}

impl WrapInto<i16> for i64 {
    open spec fn wrapped(self) -> i16 {
        self as i16
    }

    fn wrap_into(self) -> (r: i16) {
        #[verifier::truncate]
        (self as i16)
    }
}

impl WrapInto<i32> for i64 {
    open spec fn wrapped(self) -> i32 {
        self as i32
    }

    fn wrap_into(self) -> (r: i32) {
        #[verifier::truncate]
        (self as i32)
    }
}

impl ExtendInto<i32> for i8 {
    open spec fn extended(self) -> i32 {
        self as i32
    }

    fn extend_into(self) -> (r: i32) {
        self as i32
    }
}

impl ExtendInto<i32> for u8 {
    open spec fn extended(self) -> i32 {
        self as i32
    }

    fn extend_into(self) -> (r: i32) {
        self as i32
    }
}

impl ExtendInto<i32> for i16 {
    open spec fn extended(self) -> i32 {
        self as i32
    }

    fn extend_into(self) -> (r: i32) {
        self as i32
    }
}

impl ExtendInto<i32> for u16 {
    open spec fn extended(self) -> i32 {
        self as i32
    }

    fn extend_into(self) -> (r: i32) {
        self as i32
    }
}

impl ExtendInto<i64> for i8 {
    open spec fn extended(self) -> i64 {
        self as i64
    }

    fn extend_into(self) -> (r: i64) {
        self as i64
    }
}

impl ExtendInto<i64> for u8 {
    open spec fn extended(self) -> i64 {
        self as i64
    }

    fn extend_into(self) -> (r: i64) {
        self as i64
    }
}

impl ExtendInto<i64> for i16 {
    open spec fn extended(self) -> i64 {
        self as i64
    }

    fn extend_into(self) -> (r: i64) {
        self as i64
    }
}

impl ExtendInto<i64> for u16 {
    open spec fn extended(self) -> i64 {
        self as i64
    }

    fn extend_into(self) -> (r: i64) {
        self as i64
    }
}

impl ExtendInto<i64> for i32 {
    open spec fn extended(self) -> i64 {
        self as i64
    }

    fn extend_into(self) -> (r: i64) {
        self as i64
    }
}

impl ExtendInto<i64> for u32 {
    open spec fn extended(self) -> i64 {
        self as i64
    }

    fn extend_into(self) -> (r: i64) {
        self as i64
    }
}

impl ExtendInto<u64> for u32 {
    open spec fn extended(self) -> u64 {
        self as u64
    }

    fn extend_into(self) -> (r: u64) {
        self as u64
    }
}

impl TransmuteInto<i32> for i32 {
    open spec fn transmuted(self) -> i32 {
        self
    }

    fn transmute_into(self) -> (r: i32) {
        self
    }
}

impl TransmuteInto<i64> for i64 {
    open spec fn transmuted(self) -> i64 {
        self
    }

    fn transmute_into(self) -> (r: i64) {
        self
    }
}

impl TransmuteInto<u8> for i8 {
    open spec fn transmuted(self) -> u8 {
        self as u8
    }

    fn transmute_into(self) -> (r: u8) {
        #[verifier::truncate]
        (self as u8)
    }
}

impl TransmuteInto<i8> for u8 {
    open spec fn transmuted(self) -> i8 {
        self as i8
    }

    fn transmute_into(self) -> (r: i8) {
        #[verifier::truncate]
        (self as i8)
    }
}

impl TransmuteInto<u32> for i32 {
    open spec fn transmuted(self) -> u32 {
        self as u32
    }

    fn transmute_into(self) -> (r: u32) {
        #[verifier::truncate]
        (self as u32)
    }
}

impl TransmuteInto<i32> for u32 {
    open spec fn transmuted(self) -> i32 {
        self as i32
    }

    fn transmute_into(self) -> (r: i32) {
        #[verifier::truncate]
        (self as i32)
    }
}

impl TransmuteInto<u64> for i64 {
    open spec fn transmuted(self) -> u64 {
        self as u64
    }

    fn transmute_into(self) -> (r: u64) {
        #[verifier::truncate]
        (self as u64)
    }
}

impl TransmuteInto<i64> for u64 {
    open spec fn transmuted(self) -> i64 {
        self as i64
    }

    fn transmute_into(self) -> (r: i64) {
        #[verifier::truncate]
        (self as i64)
    }
}


/// Reinterpreting the bits of a 8-bit integer is the two's-complement
/// conversion, and reinterpreting them back gives the integer again.
pub proof fn lemma_i8_u8_transmute(x: i8, v: u8)
    ensures
        <i8 as TransmuteInto<u8>>::transmuted(x) == to_unsigned(x as int, 1),
        <u8 as TransmuteInto<i8>>::transmuted(v) == to_signed(v as int, 1),
        <u8 as TransmuteInto<i8>>::transmuted(<i8 as TransmuteInto<u8>>::transmuted(x)) == x,
        <i8 as TransmuteInto<u8>>::transmuted(<u8 as TransmuteInto<i8>>::transmuted(v)) == v,
{
    lemma_pow256_values();
    assert((x as u8) == (x as int) % 0x100int) by (bit_vector);
    assert((v as i8) == (if (v as int) % 0x100int >= 0x80int {
        (v as int) % 0x100int - 0x100int
    } else {
        (v as int) % 0x100int
    })) by (bit_vector);
    assert(((x as u8) as i8) == x) by (bit_vector);
    assert(((v as i8) as u8) == v) by (bit_vector);
}

/// Reinterpreting the bits of a 32-bit integer is the two's-complement
/// conversion, and reinterpreting them back gives the integer again.
pub proof fn lemma_i32_u32_transmute(x: i32, v: u32)
    ensures
        <i32 as TransmuteInto<u32>>::transmuted(x) == to_unsigned(x as int, 4),
        <u32 as TransmuteInto<i32>>::transmuted(v) == to_signed(v as int, 4),
        <u32 as TransmuteInto<i32>>::transmuted(<i32 as TransmuteInto<u32>>::transmuted(x)) == x,
        <i32 as TransmuteInto<u32>>::transmuted(<u32 as TransmuteInto<i32>>::transmuted(v)) == v,
{
    lemma_pow256_values();
    assert((x as u32) == (x as int) % 0x1_0000_0000int) by (bit_vector);
    assert((v as i32) == (if (v as int) % 0x1_0000_0000int >= 0x8000_0000int {
        (v as int) % 0x1_0000_0000int - 0x1_0000_0000int
    } else {
        (v as int) % 0x1_0000_0000int
    })) by (bit_vector);
    assert(((x as u32) as i32) == x) by (bit_vector);
    assert(((v as i32) as u32) == v) by (bit_vector);
}

/// Reinterpreting the bits of a 64-bit integer is the two's-complement
/// conversion, and reinterpreting them back gives the integer again.
pub proof fn lemma_i64_u64_transmute(x: i64, v: u64)
    ensures
        <i64 as TransmuteInto<u64>>::transmuted(x) == to_unsigned(x as int, 8),
        <u64 as TransmuteInto<i64>>::transmuted(v) == to_signed(v as int, 8),
        <u64 as TransmuteInto<i64>>::transmuted(<i64 as TransmuteInto<u64>>::transmuted(x)) == x,
        <i64 as TransmuteInto<u64>>::transmuted(<u64 as TransmuteInto<i64>>::transmuted(v)) == v,
{
    lemma_pow256_values();
    assert((x as u64) == (x as int) % 0x1_0000_0000_0000_0000int) by (bit_vector);
    assert((v as i64) == (if (v as int) % 0x1_0000_0000_0000_0000int >= 0x8000_0000_0000_0000int {
        (v as int) % 0x1_0000_0000_0000_0000int - 0x1_0000_0000_0000_0000int
    } else {
        (v as int) % 0x1_0000_0000_0000_0000int
    })) by (bit_vector);
    assert(((x as u64) as i64) == x) by (bit_vector);
    assert(((v as i64) as u64) == v) by (bit_vector);
}

/// Wrapping a `i32` keeps its low bits and reads them as a two's-complement
/// number: the value modulo `2^bits`, brought into the signed range.
pub proof fn lemma_i32_wrap(x: i32)
    ensures
        <i32 as WrapInto<i8>>::wrapped(x) == to_signed(x as int, 1),
        <i32 as WrapInto<i16>>::wrapped(x) == to_signed(x as int, 2),
{
    lemma_pow256_values();
    assert((x as i8) == (if (x as int) % 0x100int >= 0x80int {
        (x as int) % 0x100int - 0x100int
    } else {
        (x as int) % 0x100int
    })) by (bit_vector);
    assert((x as i16) == (if (x as int) % 0x1_0000int >= 0x8000int {
        (x as int) % 0x1_0000int - 0x1_0000int
    } else {
        (x as int) % 0x1_0000int
    })) by (bit_vector);
}

/// Wrapping a `i64` keeps its low bits and reads them as a two's-complement
/// number: the value modulo `2^bits`, brought into the signed range.
pub proof fn lemma_i64_wrap(x: i64)
    ensures
        <i64 as WrapInto<i8>>::wrapped(x) == to_signed(x as int, 1),
        <i64 as WrapInto<i16>>::wrapped(x) == to_signed(x as int, 2),
        <i64 as WrapInto<i32>>::wrapped(x) == to_signed(x as int, 4),
{
    lemma_pow256_values();
    assert((x as i8) == (if (x as int) % 0x100int >= 0x80int {
        (x as int) % 0x100int - 0x100int
    } else {
        (x as int) % 0x100int
    })) by (bit_vector);
    assert((x as i16) == (if (x as int) % 0x1_0000int >= 0x8000int {
        (x as int) % 0x1_0000int - 0x1_0000int
    } else {
        (x as int) % 0x1_0000int
    })) by (bit_vector);
    assert((x as i32) == (if (x as int) % 0x1_0000_0000int >= 0x8000_0000int {
        (x as int) % 0x1_0000_0000int - 0x1_0000_0000int
    } else {
        (x as int) % 0x1_0000_0000int
    })) by (bit_vector);
}

/// Wrapping undoes extension: a value extended to a wider type and wrapped
/// back is the value again.
pub proof fn lemma_wrap_undoes_extend(a: i8, b: i16, c: i32)
    ensures
        <i32 as WrapInto<i8>>::wrapped(<i8 as ExtendInto<i32>>::extended(a)) == a,
        <i32 as WrapInto<i16>>::wrapped(<i16 as ExtendInto<i32>>::extended(b)) == b,
        <i64 as WrapInto<i8>>::wrapped(<i8 as ExtendInto<i64>>::extended(a)) == a,
        <i64 as WrapInto<i16>>::wrapped(<i16 as ExtendInto<i64>>::extended(b)) == b,
        <i64 as WrapInto<i32>>::wrapped(<i32 as ExtendInto<i64>>::extended(c)) == c,
{
}

/// Extension keeps the number: the wider value equals the narrower one.
pub proof fn lemma_extend_keeps_value(a: i8, b: u8, c: i16, d: u16, e: i32, f: u32)
    ensures
        <i8 as ExtendInto<i32>>::extended(a) == a,
        <u8 as ExtendInto<i32>>::extended(b) == b,
        <i16 as ExtendInto<i32>>::extended(c) == c,
        <u16 as ExtendInto<i32>>::extended(d) == d,
        <i8 as ExtendInto<i64>>::extended(a) == a,
        <u8 as ExtendInto<i64>>::extended(b) == b,
        <i16 as ExtendInto<i64>>::extended(c) == c,
        <u16 as ExtendInto<i64>>::extended(d) == d,
        <i32 as ExtendInto<i64>>::extended(e) == e,
        <u32 as ExtendInto<i64>>::extended(f) == f,
        <u32 as ExtendInto<u64>>::extended(f) == f,
{
}

/// Reinterpreting a value as its own type keeps it.
pub proof fn lemma_transmute_to_same_type(x: i32, y: i64)
    ensures
        <i32 as TransmuteInto<i32>>::transmuted(x) == x,
        <i64 as TransmuteInto<i64>>::transmuted(y) == y,
{
}

/// Wrapping and reinterpreting keep the value up to a multiple of `2^bits`
/// of the target type: they keep its low bits.
pub proof fn lemma_conversions_keep_low_bits(x: i32, y: i64, a: i8, b: u8, c: u32, d: u64)
    ensures
        (<i32 as WrapInto<i8>>::wrapped(x) as int - x as int) % 0x100 == 0,
        (<i32 as WrapInto<i16>>::wrapped(x) as int - x as int) % 0x1_0000 == 0,
        (<i64 as WrapInto<i8>>::wrapped(y) as int - y as int) % 0x100 == 0,
        (<i64 as WrapInto<i16>>::wrapped(y) as int - y as int) % 0x1_0000 == 0,
        (<i64 as WrapInto<i32>>::wrapped(y) as int - y as int) % 0x1_0000_0000 == 0,
        (<i8 as TransmuteInto<u8>>::transmuted(a) as int - a as int) % 0x100 == 0,
        (<u8 as TransmuteInto<i8>>::transmuted(b) as int - b as int) % 0x100 == 0,
        (<i32 as TransmuteInto<u32>>::transmuted(x) as int - x as int) % 0x1_0000_0000 == 0,
        (<u32 as TransmuteInto<i32>>::transmuted(c) as int - c as int) % 0x1_0000_0000 == 0,
        (<i64 as TransmuteInto<u64>>::transmuted(y) as int - y as int) % 0x1_0000_0000_0000_0000 == 0,
        (<u64 as TransmuteInto<i64>>::transmuted(d) as int - d as int) % 0x1_0000_0000_0000_0000 == 0,
{
    lemma_pow256_values();
    lemma_i32_wrap(x);
    lemma_i64_wrap(y);
    lemma_i8_u8_transmute(a, b);
    lemma_i32_u32_transmute(x, c);
    lemma_i64_u64_transmute(y, d);
    lemma_wrap_congruent(x as int, 1);
    lemma_mod_equivalence(to_signed(x as int, 1) as int, x as int, 0x100);
    lemma_wrap_congruent(x as int, 2);
    lemma_mod_equivalence(to_signed(x as int, 2) as int, x as int, 0x1_0000);
    lemma_wrap_congruent(y as int, 1);
    lemma_mod_equivalence(to_signed(y as int, 1) as int, y as int, 0x100);
    lemma_wrap_congruent(y as int, 2);
    lemma_mod_equivalence(to_signed(y as int, 2) as int, y as int, 0x1_0000);
    lemma_wrap_congruent(y as int, 4);
    lemma_mod_equivalence(to_signed(y as int, 4) as int, y as int, 0x1_0000_0000);
    lemma_wrap_congruent(a as int, 1);
    lemma_mod_equivalence(to_unsigned(a as int, 1) as int, a as int, 0x100);
    lemma_wrap_congruent(b as int, 1);
    lemma_mod_equivalence(to_signed(b as int, 1) as int, b as int, 0x100);
    lemma_wrap_congruent(x as int, 4);
    lemma_mod_equivalence(to_unsigned(x as int, 4) as int, x as int, 0x1_0000_0000);
    lemma_wrap_congruent(c as int, 4);
    lemma_mod_equivalence(to_signed(c as int, 4) as int, c as int, 0x1_0000_0000);
    lemma_wrap_congruent(y as int, 8);
    lemma_mod_equivalence(to_unsigned(y as int, 8) as int, y as int, 0x1_0000_0000_0000_0000);
    lemma_wrap_congruent(d as int, 8);
    lemma_mod_equivalence(to_signed(d as int, 8) as int, d as int, 0x1_0000_0000_0000_0000);
}

} // verus!
