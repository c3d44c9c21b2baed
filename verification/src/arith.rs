//! Arithmetic and bit operations on the interpreter's integer types, with
//! the wrap-around of two's complement.

use crate::bytes::{
    lemma_pow256_positive, lemma_pow256_values, lemma_wrap_congruent,
    lemma_wrap_inner, lemma_wrap_of_fitting, pow256, to_signed, to_unsigned,
};
use vstd::arithmetic::div_mod::{
    lemma_fundamental_div_mod, lemma_fundamental_div_mod_converse_div,
    lemma_fundamental_div_mod_converse_mod,
    lemma_mod_add_multiples_vanish, lemma_mod_bound, lemma_mod_equivalence,
    lemma_mod_sub_multiples_vanish,
};
use vstd::arithmetic::power2::{lemma2_to64, lemma2_to64_rest, lemma_pow2_unfold, pow2};
use vstd::prelude::*;
use vstd::std_specs::bits::{
    axiom_u32_leading_zeros, axiom_u32_trailing_zeros, axiom_u64_leading_zeros,
    axiom_u64_trailing_zeros, u32_leading_zeros, u32_trailing_zeros,
    u64_leading_zeros, u64_trailing_zeros,
};
use vstd::wrapping::{i32_specs, i64_specs, u32_specs, u64_specs};

verus! {

/// The magnitude of `x`.
pub open spec fn magnitude(x: int) -> int {
    if x < 0 {
        -x
    } else {
        x
    }
}

/// `x / d` rounded towards zero.
pub open spec fn trunc_div(x: int, d: int) -> int {
    let q = magnitude(x) / magnitude(d);
    if (x < 0) == (d < 0) {
        q
    } else {
        -q
    }
}

/// The remainder of `x / d` rounded towards zero: the sign of `x`, and the
/// magnitude of `|x| mod |d|`.
pub open spec fn trunc_rem(x: int, d: int) -> int {
    let r = magnitude(x) % magnitude(d);
    if x < 0 {
        -r
    } else {
        r
    }
}

/// The number of one bits in the binary representation of `v`.
pub open spec fn ones(v: nat) -> nat
    decreases v,
{
    if v == 0 {
        0
    } else {
        v % 2 + ones(v / 2)
    }
}

/// `x` with its 32 bits rotated left by `k mod 32` positions: the bits that
/// leave at the top come back at the bottom.
pub open spec fn rotl32(x: u32, k: u32) -> u32 {
    let s = k % 32;
    if s == 0 {
        x
    } else {
        (x << s) | (x >> (32 - s) as u32)
    }
}

/// `x` with its 32 bits rotated right by `k mod 32` positions.
pub open spec fn rotr32(x: u32, k: u32) -> u32 {
    let s = k % 32;
    if s == 0 {
        x
    } else {
        (x >> s) | (x << (32 - s) as u32)
    }
}

/// `x` with its 64 bits rotated left by `k mod 64` positions.
pub open spec fn rotl64(x: u64, k: u32) -> u64 {
    let s = k % 64;
    if s == 0 {
        x
    } else {
        (x << s) | (x >> (64 - s) as u32)
    }
}

/// `x` with its 64 bits rotated right by `k mod 64` positions.
pub open spec fn rotr64(x: u64, k: u32) -> u64 {
    let s = k % 64;
    if s == 0 {
        x
    } else {
        (x >> s) | (x << (64 - s) as u32)
    }
}

/// Arithmetic operations.
pub trait ArithmeticOps<T>: Sized {
    /// The sum that `add` gives.
    spec fn sum(self, other: T) -> T;

    /// The difference that `sub` gives.
    spec fn difference(self, other: T) -> T;

    /// The product that `mul` gives.
    spec fn product(self, other: T) -> T;

    /// The quotient that `div` gives.
    spec fn quotient(self, other: T) -> T;

    /// `div` is defined on these operands.
    spec fn div_defined(self, other: T) -> bool;

    /// Add two values.
    fn add(self, other: T) -> (r: T)
        ensures
            r == self.sum(other);

    /// Subtract two values.
    fn sub(self, other: T) -> (r: T)
        ensures
            r == self.difference(other);

    /// Multiply two values.
    fn mul(self, other: T) -> (r: T)
        ensures
            r == self.product(other);

    /// Divide two values.
    fn div(self, other: T) -> (r: T)
        requires
            self.div_defined(other),
        ensures
            r == self.quotient(other);
}

/// Integer value.
pub trait Integer<T>: ArithmeticOps<T> {
    /// The count that `leading_zeros` gives.
    spec fn leading_zero_count(self) -> T;

    /// The count that `trailing_zeros` gives.
    spec fn trailing_zero_count(self) -> T;

    /// The count that `count_ones` gives.
    spec fn one_count(self) -> T;

    /// The rotation that `rotl` gives.
    spec fn rotated_left(self, other: T) -> T;

    /// The rotation that `rotr` gives.
    spec fn rotated_right(self, other: T) -> T;

    /// The remainder that `rem` gives.
    spec fn remainder(self, other: T) -> T;

    /// `rem` is defined on these operands.
    spec fn rem_defined(self, other: T) -> bool;

    /// Counts leading zeros in the bitwise representation of the value.
    fn leading_zeros(self) -> (r: T)
        ensures
            r == self.leading_zero_count();

    /// Counts trailing zeros in the bitwise representation of the value.
    fn trailing_zeros(self) -> (r: T)
        ensures
            r == self.trailing_zero_count();

    /// Counts 1-bits in the bitwise representation of the value.
    fn count_ones(self) -> (r: T)
        ensures
            r == self.one_count();

    /// Get left bit rotation result.
    fn rotl(self, other: T) -> (r: T)
        ensures
            r == self.rotated_left(other);

    /// Get right bit rotation result.
    fn rotr(self, other: T) -> (r: T)
        ensures
            r == self.rotated_right(other);

    /// Get division remainder.
    fn rem(self, other: T) -> (r: T)
        requires
            self.rem_defined(other),
        ensures
            r == self.remainder(other);
}

/// Float-point value.
///
/// This library implements it for no type, since its operations are
/// floating point; the float operations are the `FloatOps` trait beside the
/// library, because the orphan rule keeps that code from implementing this
/// trait for `f32` and `f64`.
pub trait Float<T>: ArithmeticOps<T> {
    /// Get absolute value.
    fn abs(self) -> T;

    /// Returns the largest integer less than or equal to a number.
    fn floor(self) -> T;

    /// Returns the smallest integer greater than or equal to a number.
    fn ceil(self) -> T;

    /// Returns the integer part of a number.
    fn trunc(self) -> T;

    /// Returns the nearest integer to a number. Round half-way cases away from 0.0.
    fn round(self) -> T;

    /// Takes the square root of a number.
    fn sqrt(self) -> T;

    /// Returns the minimum of the two numbers.
    fn min(self, other: T) -> T;

    /// Returns the maximum of the two numbers.
    fn max(self, other: T) -> T;

    /// Sets sign of this value to the sign of other value.
    fn copysign(self, other: T) -> T;
}

/// Counts the one bits of `x`.
fn count_ones_u64(x: u64) -> (r: u32)
    ensures
        r == ones(x as nat),
{
    let mut v = x;
    let mut count: u32 = 0;
    proof {
        lemma2_to64_rest();
        lemma_ones_bound(x as nat, 64);
    }
    while v != 0
        invariant
            count + ones(v as nat) == ones(x as nat),
            ones(x as nat) <= 64,
        decreases v,
    {
        assert(v & 1 == v % 2) by (bit_vector);
        assert(v >> 1 == v / 2) by (bit_vector);
        count = count + (v & 1) as u32;
        v = v >> 1;
    }
    count
}

/// A number below `2^k` has at most `k` one bits.
pub proof fn lemma_ones_bound(v: nat, k: nat)
    requires
        v < pow2(k),
    ensures
        ones(v) <= k,
    decreases k,
{
    if k == 0 {
        lemma2_to64();
    } else {
        lemma_pow2_unfold(k);
        lemma_ones_bound(v / 2, (k - 1) as nat);
    }
}


/// Rotates the 32 bits of `x` left by `k mod 32` positions.
fn rotate_left_u32(x: u32, k: u32) -> (r: u32)
    ensures
        r == rotl32(x, k),
{
    let s = k % 32;
    if s == 0 {
        x
    } else {
        (x << s) | (x >> (32 - s))
    }
}

/// Rotates the 32 bits of `x` right by `k mod 32` positions.
fn rotate_right_u32(x: u32, k: u32) -> (r: u32)
    ensures
        r == rotr32(x, k),
{
    let s = k % 32;
    if s == 0 {
        x
    } else {
        (x >> s) | (x << (32 - s))
    }
}

/// Rotates the 64 bits of `x` left by `k mod 64` positions.
fn rotate_left_u64(x: u64, k: u32) -> (r: u64)
    ensures
        r == rotl64(x, k),
{
    let s = k % 64;
    if s == 0 {
        x
    } else {
        (x << s) | (x >> (64 - s))
    }
}

/// Rotates the 64 bits of `x` right by `k mod 64` positions.
fn rotate_right_u64(x: u64, k: u32) -> (r: u64)
    ensures
        r == rotr64(x, k),
{
    let s = k % 64;
    if s == 0 {
        x
    } else {
        (x >> s) | (x << (64 - s))
    }
}

/// Adding or removing `256^n` changes no two's-complement reading.
proof fn lemma_wrap_shift(v: int, n: nat)
    ensures
        to_signed(v + pow256(n), n) == to_signed(v, n),
        to_signed(v - pow256(n), n) == to_signed(v, n),
        to_unsigned(v + pow256(n), n) == to_unsigned(v, n),
        to_unsigned(v - pow256(n), n) == to_unsigned(v, n),
{
    let p = pow256(n) as int;
    lemma_pow256_positive(n);
    lemma_mod_add_multiples_vanish(v, p);
    lemma_mod_sub_multiples_vanish(v, p);
}

/// The quotient rounded towards zero is no larger in magnitude than the
/// dividend, and equal to it only for a divisor of magnitude one.
proof fn lemma_trunc_div_bound(x: int, d: int)
    requires
        d != 0,
    ensures
        magnitude(trunc_div(x, d)) <= magnitude(x),
        x != 0 && magnitude(trunc_div(x, d)) == magnitude(x) ==> magnitude(d) == 1,
        magnitude(trunc_rem(x, d)) < magnitude(d),
{
    let a = magnitude(x);
    let b = magnitude(d);
    assert(a / b <= a) by (nonlinear_arith)
        requires
            a >= 0,
            b >= 1,
    ;
    assert(b >= 2 && a > 0 ==> a / b < a) by (nonlinear_arith)
        requires
            a >= 0,
            b >= 1,
    ;
    lemma_mod_bound(a, b);
}

/// Divides rounding towards zero, wrapping the one quotient that does not
/// fit (`i32::MIN / -1`) around to `i32::MIN`.
fn div_i32(x: i32, d: i32) -> (q: i32)
    requires
        d != 0,
    ensures
        q == to_signed(trunc_div(x as int, d as int), 4),
{
    proof {
        lemma_pow256_values();
        lemma_trunc_div_bound(x as int, d as int);
        lemma_wrap_of_fitting(trunc_div(x as int, d as int), 4);
    }
    match x.checked_div(d) {
        Some(q) => q,
        None => {
            proof {
                lemma_fundamental_div_mod_converse_mod(0x8000_0000, 0x1_0000_0000, 0, 0x8000_0000);
            }
            x
        },
    }
}

/// Divides rounding towards zero, wrapping the one quotient that does not
/// fit (`i64::MIN / -1`) around to `i64::MIN`.
fn div_i64(x: i64, d: i64) -> (q: i64)
    requires
        d != 0,
    ensures
        q == to_signed(trunc_div(x as int, d as int), 8),
{
    proof {
        lemma_pow256_values();
        lemma_trunc_div_bound(x as int, d as int);
        lemma_wrap_of_fitting(trunc_div(x as int, d as int), 8);
    }
    match x.checked_div(d) {
        Some(q) => q,
        None => {
            proof {
                lemma_fundamental_div_mod_converse_mod(
                    0x8000_0000_0000_0000,
                    0x1_0000_0000_0000_0000,
                    0,
                    0x8000_0000_0000_0000,
                );
            }
            x
        },
    }
}

/// The remainder of the division rounded towards zero; `i32::MIN % -1` is 0.
fn rem_i32(x: i32, d: i32) -> (r: i32)
    requires
        d != 0,
    ensures
        r == trunc_rem(x as int, d as int),
{
    proof {
        lemma_trunc_div_bound(x as int, d as int);
    }
    let r = x.checked_rem(d);
    proof {
        lemma_fundamental_div_mod_converse_mod(0, magnitude(d as int), 0, 0);
    }
    assert(x == 0 ==> trunc_rem(x as int, d as int) == 0);
    assert(r is None ==> x == i32::MIN && d == -1);
    match r {
        Some(r) => r,
        None => {
            proof {
                lemma_fundamental_div_mod_converse_mod(0x8000_0000, 1, 0x8000_0000, 0);
            }
            0
        },
    }
}

/// The remainder of the division rounded towards zero; `i64::MIN % -1` is 0.
fn rem_i64(x: i64, d: i64) -> (r: i64)
    requires
        d != 0,
    ensures
        r == trunc_rem(x as int, d as int),
{
    proof {
        lemma_trunc_div_bound(x as int, d as int);
    }
    let r = x.checked_rem(d);
    proof {
        lemma_fundamental_div_mod_converse_mod(0, magnitude(d as int), 0, 0);
    }
    assert(x == 0 ==> trunc_rem(x as int, d as int) == 0);
    assert(r is None ==> x == i64::MIN && d == -1);
    match r {
        Some(r) => r,
        None => {
            proof {
                lemma_fundamental_div_mod_converse_mod(
                    0x8000_0000_0000_0000,
                    1,
                    0x8000_0000_0000_0000,
                    0,
                );
            }
            0
        },
    }
}

/// `std`'s wrapping operations on `i32` are the exact results read in
/// 32-bit two's complement.
proof fn lemma_i32_wrapping(x: i32, y: i32)
    ensures
        i32_specs::wrapping_add(x, y) == to_signed(x + y, 4),
        i32_specs::wrapping_sub(x, y) == to_signed(x - y, 4),
        i32_specs::wrapping_mul(x, y) == to_signed(x * y, 4),
{
    lemma_pow256_values();
    lemma_wrap_shift(x + y, 4);
    lemma_wrap_shift(x - y, 4);
    lemma_wrap_of_fitting(x + y - 0x1_0000_0000, 4);
    lemma_wrap_of_fitting(x + y + 0x1_0000_0000, 4);
    lemma_wrap_of_fitting(x + y, 4);
    lemma_wrap_of_fitting(x - y - 0x1_0000_0000, 4);
    lemma_wrap_of_fitting(x - y + 0x1_0000_0000, 4);
    lemma_wrap_of_fitting(x - y, 4);
}

impl ArithmeticOps<i32> for i32 {
    open spec fn sum(self, other: i32) -> i32 {
        to_signed(self + other, 4) as i32
    }

    open spec fn difference(self, other: i32) -> i32 {
        to_signed(self - other, 4) as i32
    }

    open spec fn product(self, other: i32) -> i32 {
        to_signed(self * other, 4) as i32
    }

    open spec fn quotient(self, other: i32) -> i32 {
        to_signed(trunc_div(self as int, other as int), 4) as i32
    }

    open spec fn div_defined(self, other: i32) -> bool {
        other != 0
    }

    fn add(self, other: i32) -> (r: i32) {
        proof {
            lemma_i32_wrapping(self, other);
        }
        self.wrapping_add(other)
    }

    fn sub(self, other: i32) -> (r: i32) {
        proof {
            lemma_i32_wrapping(self, other);
        }
        self.wrapping_sub(other)
    }

    fn mul(self, other: i32) -> (r: i32) {
        proof {
            lemma_i32_wrapping(self, other);
        }
        self.wrapping_mul(other)
    }

    fn div(self, other: i32) -> (r: i32) {
        div_i32(self, other)
    }
}

impl Integer<i32> for i32 {
    open spec fn leading_zero_count(self) -> i32 {
        u32_leading_zeros(self as u32) as i32
    }

    open spec fn trailing_zero_count(self) -> i32 {
        u32_trailing_zeros(self as u32) as i32
    }

    open spec fn one_count(self) -> i32 {
        ones((self as u32) as nat) as i32
    }

    open spec fn rotated_left(self, other: i32) -> i32 {
        rotl32(self as u32, other as u32) as i32
    }

    open spec fn rotated_right(self, other: i32) -> i32 {
        rotr32(self as u32, other as u32) as i32
    }

    open spec fn remainder(self, other: i32) -> i32 {
        trunc_rem(self as int, other as int) as i32
    }

    open spec fn rem_defined(self, other: i32) -> bool {
        other != 0
    }

    fn leading_zeros(self) -> (r: i32) {
        let bits: u32 = #[verifier::truncate] (self as u32);
        bits.leading_zeros() as i32
    }

    fn trailing_zeros(self) -> (r: i32) {
        let bits: u32 = #[verifier::truncate] (self as u32);
        bits.trailing_zeros() as i32
    }

    fn count_ones(self) -> (r: i32) {
        let bits: u32 = #[verifier::truncate] (self as u32);
        count_ones_u64(bits as u64) as i32
    }

    fn rotl(self, other: i32) -> (r: i32) {
        let bits: u32 = #[verifier::truncate] (self as u32);
        let k: u32 = #[verifier::truncate] (other as u32);
        let rotated = rotate_left_u32(bits, k);
        #[verifier::truncate] (rotated as i32)
    }

    fn rotr(self, other: i32) -> (r: i32) {
        let bits: u32 = #[verifier::truncate] (self as u32);
        let k: u32 = #[verifier::truncate] (other as u32);
        let rotated = rotate_right_u32(bits, k);
        #[verifier::truncate] (rotated as i32)
    }

    fn rem(self, other: i32) -> (r: i32) {
        rem_i32(self, other)
    }
}

/// `std`'s wrapping operations on `u32` are the exact results reduced
/// modulo `2^32`.
proof fn lemma_u32_wrapping(x: u32, y: u32)
    ensures
        u32_specs::wrapping_add(x, y) == to_unsigned(x + y, 4),
        u32_specs::wrapping_sub(x, y) == to_unsigned(x - y, 4),
        u32_specs::wrapping_mul(x, y) == to_unsigned(x * y, 4),
{
    lemma_pow256_values();
    lemma_wrap_shift(x + y, 4);
    lemma_wrap_shift(x - y, 4);
    lemma_wrap_of_fitting(x + y - 0x1_0000_0000, 4);
    lemma_wrap_of_fitting(x + y, 4);
    lemma_wrap_of_fitting(x - y + 0x1_0000_0000, 4);
    lemma_wrap_of_fitting(x - y, 4);
}

impl ArithmeticOps<u32> for u32 {
    open spec fn sum(self, other: u32) -> u32 {
        to_unsigned(self + other, 4) as u32
    }

    open spec fn difference(self, other: u32) -> u32 {
        to_unsigned(self - other, 4) as u32
    }

    open spec fn product(self, other: u32) -> u32 {
        to_unsigned(self * other, 4) as u32
    }

    open spec fn quotient(self, other: u32) -> u32 {
        self / other
    }

    open spec fn div_defined(self, other: u32) -> bool {
        other != 0
    }

    fn add(self, other: u32) -> (r: u32) {
        proof {
            lemma_u32_wrapping(self, other);
        }
        self.wrapping_add(other)
    }

    fn sub(self, other: u32) -> (r: u32) {
        proof {
            lemma_u32_wrapping(self, other);
        }
        self.wrapping_sub(other)
    }

    fn mul(self, other: u32) -> (r: u32) {
        proof {
            lemma_u32_wrapping(self, other);
        }
        self.wrapping_mul(other)
    }

    fn div(self, other: u32) -> (r: u32) {
        self / other
    }
}

impl Integer<u32> for u32 {
    open spec fn leading_zero_count(self) -> u32 {
        u32_leading_zeros(self) as u32
    }

    open spec fn trailing_zero_count(self) -> u32 {
        u32_trailing_zeros(self) as u32
    }

    open spec fn one_count(self) -> u32 {
        ones((self) as nat) as u32
    }

    open spec fn rotated_left(self, other: u32) -> u32 {
        rotl32(self, other)
    }

    open spec fn rotated_right(self, other: u32) -> u32 {
        rotr32(self, other)
    }

    open spec fn remainder(self, other: u32) -> u32 {
        self % other
    }

    open spec fn rem_defined(self, other: u32) -> bool {
        other != 0
    }

    fn leading_zeros(self) -> (r: u32) {
        let bits: u32 = self;
        bits.leading_zeros() as u32
    }

    fn trailing_zeros(self) -> (r: u32) {
        let bits: u32 = self;
        bits.trailing_zeros() as u32
    }

    fn count_ones(self) -> (r: u32) {
        let bits: u32 = self;
        count_ones_u64(bits as u64) as u32
    }

    fn rotl(self, other: u32) -> (r: u32) {
        let bits: u32 = self;
        let k: u32 = other;
        let rotated = rotate_left_u32(bits, k);
        rotated
    }

    fn rotr(self, other: u32) -> (r: u32) {
        let bits: u32 = self;
        let k: u32 = other;
        let rotated = rotate_right_u32(bits, k);
        rotated
    }

    fn rem(self, other: u32) -> (r: u32) {
        self % other
    }
}

/// `std`'s wrapping operations on `i64` are the exact results read in
/// 64-bit two's complement.
proof fn lemma_i64_wrapping(x: i64, y: i64)
    ensures
        i64_specs::wrapping_add(x, y) == to_signed(x + y, 8),
        i64_specs::wrapping_sub(x, y) == to_signed(x - y, 8),
        i64_specs::wrapping_mul(x, y) == to_signed(x * y, 8),
{
    lemma_pow256_values();
    lemma_wrap_shift(x + y, 8);
    lemma_wrap_shift(x - y, 8);
    lemma_wrap_of_fitting(x + y - 0x1_0000_0000_0000_0000, 8);
    lemma_wrap_of_fitting(x + y + 0x1_0000_0000_0000_0000, 8);
    lemma_wrap_of_fitting(x + y, 8);
    lemma_wrap_of_fitting(x - y - 0x1_0000_0000_0000_0000, 8);
    lemma_wrap_of_fitting(x - y + 0x1_0000_0000_0000_0000, 8);
    lemma_wrap_of_fitting(x - y, 8);
}

impl ArithmeticOps<i64> for i64 {
    open spec fn sum(self, other: i64) -> i64 {
        to_signed(self + other, 8) as i64
    }

    open spec fn difference(self, other: i64) -> i64 {
        to_signed(self - other, 8) as i64
    }

    open spec fn product(self, other: i64) -> i64 {
        to_signed(self * other, 8) as i64
    }

    open spec fn quotient(self, other: i64) -> i64 {
        to_signed(trunc_div(self as int, other as int), 8) as i64
    }

    open spec fn div_defined(self, other: i64) -> bool {
        other != 0
    }

    fn add(self, other: i64) -> (r: i64) {
        proof {
            lemma_i64_wrapping(self, other);
        }
        self.wrapping_add(other)
    }

    fn sub(self, other: i64) -> (r: i64) {
        proof {
            lemma_i64_wrapping(self, other);
        }
        self.wrapping_sub(other)
    }

    fn mul(self, other: i64) -> (r: i64) {
        proof {
            lemma_i64_wrapping(self, other);
        }
        self.wrapping_mul(other)
    }

    fn div(self, other: i64) -> (r: i64) {
        div_i64(self, other)
    }
}

impl Integer<i64> for i64 {
    open spec fn leading_zero_count(self) -> i64 {
        u64_leading_zeros(self as u64) as i64
    }

    open spec fn trailing_zero_count(self) -> i64 {
        u64_trailing_zeros(self as u64) as i64
    }

    open spec fn one_count(self) -> i64 {
        ones((self as u64) as nat) as i64
    }

    open spec fn rotated_left(self, other: i64) -> i64 {
        rotl64(self as u64, other as u32) as i64
    }

    open spec fn rotated_right(self, other: i64) -> i64 {
        rotr64(self as u64, other as u32) as i64
    }

    open spec fn remainder(self, other: i64) -> i64 {
        trunc_rem(self as int, other as int) as i64
    }

    open spec fn rem_defined(self, other: i64) -> bool {
        other != 0
    }

    fn leading_zeros(self) -> (r: i64) {
        let bits: u64 = #[verifier::truncate] (self as u64);
        let count = bits.leading_zeros();
        proof {
            axiom_u64_leading_zeros(bits);
        }
        count as i64
    }

    fn trailing_zeros(self) -> (r: i64) {
        let bits: u64 = #[verifier::truncate] (self as u64);
        bits.trailing_zeros() as i64
    }

    fn count_ones(self) -> (r: i64) {
        let bits: u64 = #[verifier::truncate] (self as u64);
        count_ones_u64(bits as u64) as i64
    }

    fn rotl(self, other: i64) -> (r: i64) {
        let bits: u64 = #[verifier::truncate] (self as u64);
        let k: u32 = #[verifier::truncate] (other as u32);
        let rotated = rotate_left_u64(bits, k);
        #[verifier::truncate] (rotated as i64)
    }

    fn rotr(self, other: i64) -> (r: i64) {
        let bits: u64 = #[verifier::truncate] (self as u64);
        let k: u32 = #[verifier::truncate] (other as u32);
        let rotated = rotate_right_u64(bits, k);
        #[verifier::truncate] (rotated as i64)
    }

    fn rem(self, other: i64) -> (r: i64) {
        rem_i64(self, other)
    }
}

/// `std`'s wrapping operations on `u64` are the exact results reduced
/// modulo `2^64`.
proof fn lemma_u64_wrapping(x: u64, y: u64)
    ensures
        u64_specs::wrapping_add(x, y) == to_unsigned(x + y, 8),
        u64_specs::wrapping_sub(x, y) == to_unsigned(x - y, 8),
        u64_specs::wrapping_mul(x, y) == to_unsigned(x * y, 8),
{
    lemma_pow256_values();
    lemma_wrap_shift(x + y, 8);
    lemma_wrap_shift(x - y, 8);
    lemma_wrap_of_fitting(x + y - 0x1_0000_0000_0000_0000, 8);
    lemma_wrap_of_fitting(x + y, 8);
    lemma_wrap_of_fitting(x - y + 0x1_0000_0000_0000_0000, 8);
    lemma_wrap_of_fitting(x - y, 8);
}

impl ArithmeticOps<u64> for u64 {
    open spec fn sum(self, other: u64) -> u64 {
        to_unsigned(self + other, 8) as u64
    }

    open spec fn difference(self, other: u64) -> u64 {
        to_unsigned(self - other, 8) as u64
    }

    open spec fn product(self, other: u64) -> u64 {
        to_unsigned(self * other, 8) as u64
    }

    open spec fn quotient(self, other: u64) -> u64 {
        self / other
    }

    open spec fn div_defined(self, other: u64) -> bool {
        other != 0
    }

    fn add(self, other: u64) -> (r: u64) {
        proof {
            lemma_u64_wrapping(self, other);
        }
        self.wrapping_add(other)
    }

    fn sub(self, other: u64) -> (r: u64) {
        proof {
            lemma_u64_wrapping(self, other);
        }
        self.wrapping_sub(other)
    }

    fn mul(self, other: u64) -> (r: u64) {
        proof {
            lemma_u64_wrapping(self, other);
        }
        self.wrapping_mul(other)
    }

    fn div(self, other: u64) -> (r: u64) {
        self / other
    }
}

impl Integer<u64> for u64 {
    open spec fn leading_zero_count(self) -> u64 {
        u64_leading_zeros(self) as u64
    }

    open spec fn trailing_zero_count(self) -> u64 {
        u64_trailing_zeros(self) as u64
    }

    open spec fn one_count(self) -> u64 {
        ones((self) as nat) as u64
    }

    open spec fn rotated_left(self, other: u64) -> u64 {
        rotl64(self, other as u32)
    }

    open spec fn rotated_right(self, other: u64) -> u64 {
        rotr64(self, other as u32)
    }

    open spec fn remainder(self, other: u64) -> u64 {
        self % other
    }

    open spec fn rem_defined(self, other: u64) -> bool {
        other != 0
    }

    fn leading_zeros(self) -> (r: u64) {
        let bits: u64 = self;
        let count = bits.leading_zeros();
        proof {
            axiom_u64_leading_zeros(bits);
        }
        count as u64
    }

    fn trailing_zeros(self) -> (r: u64) {
        let bits: u64 = self;
        bits.trailing_zeros() as u64
    }

    fn count_ones(self) -> (r: u64) {
        let bits: u64 = self;
        count_ones_u64(bits as u64) as u64
    }

    fn rotl(self, other: u64) -> (r: u64) {
        let bits: u64 = self;
        let k: u32 = #[verifier::truncate] (other as u32);
        let rotated = rotate_left_u64(bits, k);
        rotated
    }

    fn rotr(self, other: u64) -> (r: u64) {
        let bits: u64 = self;
        let k: u32 = #[verifier::truncate] (other as u32);
        let rotated = rotate_right_u64(bits, k);
        rotated
    }

    fn rem(self, other: u64) -> (r: u64) {
        self % other
    }
}

/// `d * trunc_div(x, d) + trunc_rem(x, d)` is `x`, and the remainder is
/// smaller in magnitude than the divisor.
pub proof fn lemma_trunc_div_rem(x: int, d: int)
    requires
        d != 0,
    ensures
        d * trunc_div(x, d) + trunc_rem(x, d) == x,
        magnitude(trunc_rem(x, d)) < magnitude(d),
{
    let a = magnitude(x);
    let b = magnitude(d);
    lemma_fundamental_div_mod(a, b);
    lemma_mod_bound(a, b);
    if d < 0 {
        assert(d * (a / b) == -(b * (a / b))) by (nonlinear_arith)
            requires
                b == -d,
        ;
        assert(d * -(a / b) == b * (a / b)) by (nonlinear_arith)
            requires
                b == -d,
        ;
    } else {
        assert(d * -(a / b) == -(b * (a / b))) by (nonlinear_arith)
            requires
                b == d,
        ;
    }
}

/// Rotating the 32 bits of `x` right undoes rotating them left by the same
/// amount, and the other way round.
pub proof fn lemma_rot32_inverse(x: u32, k: u32)
    ensures
        rotr32(rotl32(x, k), k) == x,
        rotl32(rotr32(x, k), k) == x,
{
    let s = k % 32;
    if s != 0 {
        assert((((x << s) | (x >> (32 - s) as u32)) >> s) | (((x << s) | (x >> (32 - s) as u32))
            << (32 - s) as u32) == x) by (bit_vector)
            requires
                0 < s < 32,
        ;
        assert((((x >> s) | (x << (32 - s) as u32)) << s) | (((x >> s) | (x << (32 - s) as u32))
            >> (32 - s) as u32) == x) by (bit_vector)
            requires
                0 < s < 32,
        ;
    }
}

/// Rotating the 64 bits of `x` right undoes rotating them left by the same
/// amount, and the other way round.
pub proof fn lemma_rot64_inverse(x: u64, k: u32)
    ensures
        rotr64(rotl64(x, k), k) == x,
        rotl64(rotr64(x, k), k) == x,
{
    let s = k % 64;
    if s != 0 {
        assert((((x << s) | (x >> (64 - s) as u32)) >> s) | (((x << s) | (x >> (64 - s) as u32))
            << (64 - s) as u32) == x) by (bit_vector)
            requires
                0 < s < 64,
        ;
        assert((((x >> s) | (x << (64 - s) as u32)) << s) | (((x >> s) | (x << (64 - s) as u32))
            >> (64 - s) as u32) == x) by (bit_vector)
            requires
                0 < s < 64,
        ;
    }
}

/// The bit at position `i` of `x` rotated left by `k` is the bit of `x`
/// at position `i - k`, counted modulo 32.
pub proof fn lemma_rotl32_moves_bits(x: u32, k: u32, i: u32)
    requires
        i < 32,
    ensures
        (rotl32(x, k) >> i) & 1 == (x >> ((i + 32 - k % 32) % 32) as u32) & 1,
{
    let s = k % 32;
    assert(s < 32 && i < 32 ==> (rotl32(x, k) >> i) & 1 == (x >> ((i + 32 - s) % 32) as u32) & 1)
        by (bit_vector)
        requires
            s == k % 32,
    ;
}

/// The bit at position `i` of `x` rotated left by `k` is the bit of `x`
/// at position `i - k`, counted modulo 64.
pub proof fn lemma_rotl64_moves_bits(x: u64, k: u32, i: u32)
    requires
        i < 64,
    ensures
        (rotl64(x, k) >> i) & 1 == (x >> ((i + 64 - k % 64) % 64) as u32) & 1,
{
    let s = k % 64;
    assert(s < 64 && i < 64 ==> (rotl64(x, k) >> i) & 1 == (x >> ((i + 64 - s) % 64) as u32) & 1)
        by (bit_vector)
        requires
            s == k % 64,
    ;
}

/// The bit at position `i` of `x` rotated right by `k` is the bit of `x`
/// at position `i + k`, counted modulo 32.
pub proof fn lemma_rotr32_moves_bits(x: u32, k: u32, i: u32)
    requires
        i < 32,
    ensures
        (rotr32(x, k) >> i) & 1 == (x >> ((i + k % 32) % 32) as u32) & 1,
{
    let s = k % 32;
    assert(s < 32 && i < 32 ==> (rotr32(x, k) >> i) & 1 == (x >> ((i + s) % 32) as u32) & 1)
        by (bit_vector)
        requires
            s == k % 32,
    ;
}

/// The bit at position `i` of `x` rotated right by `k` is the bit of `x`
/// at position `i + k`, counted modulo 64.
pub proof fn lemma_rotr64_moves_bits(x: u64, k: u32, i: u32)
    requires
        i < 64,
    ensures
        (rotr64(x, k) >> i) & 1 == (x >> ((i + k % 64) % 64) as u32) & 1,
{
    let s = k % 64;
    assert(s < 64 && i < 64 ==> (rotr64(x, k) >> i) & 1 == (x >> ((i + s) % 64) as u32) & 1)
        by (bit_vector)
        requires
            s == k % 64,
    ;
}

/// A masked bit that is not zero is one.
proof fn lemma_bit_is_one(a: u32, b: u64)
    ensures
        a & 1 != 0 ==> a & 1 == 1,
        b & 1 != 0 ==> b & 1 == 1,
{
    assert(a & 1 != 0 ==> a & 1 == 1) by (bit_vector);
    assert(b & 1 != 0 ==> b & 1 == 1) by (bit_vector);
}

/// On `i32`, subtraction undoes addition and addition undoes subtraction,
/// with wrap-around, and addition and multiplication commute.
pub proof fn lemma_i32_add_sub(x: i32, y: i32)
    ensures
        <i32 as ArithmeticOps<i32>>::difference(<i32 as ArithmeticOps<i32>>::sum(x, y), y) == x,
        <i32 as ArithmeticOps<i32>>::sum(<i32 as ArithmeticOps<i32>>::difference(x, y), y) == x,
        <i32 as ArithmeticOps<i32>>::sum(x, y) == <i32 as ArithmeticOps<i32>>::sum(y, x),
        <i32 as ArithmeticOps<i32>>::product(x, y) == <i32 as ArithmeticOps<i32>>::product(y, x),
{
    lemma_pow256_values();
    lemma_wrap_congruent(x + y, 4);
    lemma_wrap_congruent(x - y, 4);
    lemma_wrap_inner(x + y, -y, 4);
    lemma_wrap_inner(x - y, y as int, 4);
    lemma_wrap_of_fitting(x as int, 4);
    assert(x * y == y * x) by (nonlinear_arith);
}

/// On `i32`, the quotient times the divisor plus the remainder is the
/// dividend, with wrap-around, and the remainder is smaller than the divisor.
pub proof fn lemma_i32_div_rem(x: i32, d: i32)
    requires
        d != 0,
    ensures
        <i32 as ArithmeticOps<i32>>::sum(<i32 as ArithmeticOps<i32>>::product(<i32 as ArithmeticOps<i32>>::quotient(x, d), d), <i32 as Integer<i32>>::remainder(x, d)) == x,
        magnitude(<i32 as Integer<i32>>::remainder(x, d) as int) < magnitude(d as int),
{
    let q = trunc_div(x as int, d as int);
    let r = trunc_rem(x as int, d as int);
    lemma_pow256_values();
    lemma_trunc_div_rem(x as int, d as int);
    lemma_wrap_congruent(q, 4);
    lemma_wrap_congruent(to_signed(q, 4) * d, 4);
    lemma_wrap_inner(q, d as int, 4);
    assert(to_signed(q, 4) * d == d * to_signed(q, 4)) by (nonlinear_arith);
    assert(q * d == d * q) by (nonlinear_arith);
    lemma_wrap_inner(q * d, r, 4);
    lemma_wrap_of_fitting(x as int, 4);
}

/// On `i32`, rotating right undoes rotating left by the same amount, and
/// rotating left undoes rotating right.
pub proof fn lemma_i32_rotate(x: i32, k: i32)
    ensures
        <i32 as Integer<i32>>::rotated_right(<i32 as Integer<i32>>::rotated_left(x, k), k) == x,
        <i32 as Integer<i32>>::rotated_left(<i32 as Integer<i32>>::rotated_right(x, k), k) == x,
{
    let v = x as u32;
    let kk = k as u32;
    let a = rotl32(v, kk);
    let b = rotr32(v, kk);
    lemma_rot32_inverse(v, kk);
    assert(((a as i32) as u32) == a && ((b as i32) as u32) == b && ((v as i32) == x)) by (bit_vector)
        requires
            v == x as u32,
    ;
}

/// On `u32`, subtraction undoes addition and addition undoes subtraction,
/// with wrap-around, and addition and multiplication commute.
pub proof fn lemma_u32_add_sub(x: u32, y: u32)
    ensures
        <u32 as ArithmeticOps<u32>>::difference(<u32 as ArithmeticOps<u32>>::sum(x, y), y) == x,
        <u32 as ArithmeticOps<u32>>::sum(<u32 as ArithmeticOps<u32>>::difference(x, y), y) == x,
        <u32 as ArithmeticOps<u32>>::sum(x, y) == <u32 as ArithmeticOps<u32>>::sum(y, x),
        <u32 as ArithmeticOps<u32>>::product(x, y) == <u32 as ArithmeticOps<u32>>::product(y, x),
{
    lemma_pow256_values();
    lemma_wrap_congruent(x + y, 4);
    lemma_wrap_congruent(x - y, 4);
    lemma_wrap_inner(x + y, -y, 4);
    lemma_wrap_inner(x - y, y as int, 4);
    lemma_wrap_of_fitting(x as int, 4);
    assert(x * y == y * x) by (nonlinear_arith);
}

/// On `u32`, the quotient times the divisor plus the remainder is the
/// dividend, with wrap-around, and the remainder is smaller than the divisor.
pub proof fn lemma_u32_div_rem(x: u32, d: u32)
    requires
        d != 0,
    ensures
        <u32 as ArithmeticOps<u32>>::sum(<u32 as ArithmeticOps<u32>>::product(<u32 as ArithmeticOps<u32>>::quotient(x, d), d), <u32 as Integer<u32>>::remainder(x, d)) == x,
        <u32 as Integer<u32>>::remainder(x, d) < d,
{
    lemma_pow256_values();
    lemma_fundamental_div_mod(x as int, d as int);
    assert((x / d) * d == d * (x / d)) by (nonlinear_arith);
    lemma_wrap_of_fitting((x / d) * d, 4);
    lemma_wrap_of_fitting(x as int, 4);
}

/// On `u32`, rotating right undoes rotating left by the same amount, and
/// rotating left undoes rotating right.
pub proof fn lemma_u32_rotate(x: u32, k: u32)
    ensures
        <u32 as Integer<u32>>::rotated_right(<u32 as Integer<u32>>::rotated_left(x, k), k) == x,
        <u32 as Integer<u32>>::rotated_left(<u32 as Integer<u32>>::rotated_right(x, k), k) == x,
{
    let kk = k;
    lemma_rot32_inverse(x, kk);
}

/// On `i64`, subtraction undoes addition and addition undoes subtraction,
/// with wrap-around, and addition and multiplication commute.
pub proof fn lemma_i64_add_sub(x: i64, y: i64)
    ensures
        <i64 as ArithmeticOps<i64>>::difference(<i64 as ArithmeticOps<i64>>::sum(x, y), y) == x,
        <i64 as ArithmeticOps<i64>>::sum(<i64 as ArithmeticOps<i64>>::difference(x, y), y) == x,
        <i64 as ArithmeticOps<i64>>::sum(x, y) == <i64 as ArithmeticOps<i64>>::sum(y, x),
        <i64 as ArithmeticOps<i64>>::product(x, y) == <i64 as ArithmeticOps<i64>>::product(y, x),
{
    lemma_pow256_values();
    lemma_wrap_congruent(x + y, 8);
    lemma_wrap_congruent(x - y, 8);
    lemma_wrap_inner(x + y, -y, 8);
    lemma_wrap_inner(x - y, y as int, 8);
    lemma_wrap_of_fitting(x as int, 8);
    assert(x * y == y * x) by (nonlinear_arith);
}

/// On `i64`, the quotient times the divisor plus the remainder is the
/// dividend, with wrap-around, and the remainder is smaller than the divisor.
pub proof fn lemma_i64_div_rem(x: i64, d: i64)
    requires
        d != 0,
    ensures
        <i64 as ArithmeticOps<i64>>::sum(<i64 as ArithmeticOps<i64>>::product(<i64 as ArithmeticOps<i64>>::quotient(x, d), d), <i64 as Integer<i64>>::remainder(x, d)) == x,
        magnitude(<i64 as Integer<i64>>::remainder(x, d) as int) < magnitude(d as int),
{
    let q = trunc_div(x as int, d as int);
    let r = trunc_rem(x as int, d as int);
    lemma_pow256_values();
    lemma_trunc_div_rem(x as int, d as int);
    lemma_wrap_congruent(q, 8);
    lemma_wrap_congruent(to_signed(q, 8) * d, 8);
    lemma_wrap_inner(q, d as int, 8);
    assert(to_signed(q, 8) * d == d * to_signed(q, 8)) by (nonlinear_arith);
    assert(q * d == d * q) by (nonlinear_arith);
    lemma_wrap_inner(q * d, r, 8);
    lemma_wrap_of_fitting(x as int, 8);
}

/// On `i64`, rotating right undoes rotating left by the same amount, and
/// rotating left undoes rotating right.
pub proof fn lemma_i64_rotate(x: i64, k: i64)
    ensures
        <i64 as Integer<i64>>::rotated_right(<i64 as Integer<i64>>::rotated_left(x, k), k) == x,
        <i64 as Integer<i64>>::rotated_left(<i64 as Integer<i64>>::rotated_right(x, k), k) == x,
{
    let v = x as u64;
    let kk = k as u32;
    let a = rotl64(v, kk);
    let b = rotr64(v, kk);
    lemma_rot64_inverse(v, kk);
    assert(((a as i64) as u64) == a && ((b as i64) as u64) == b && ((v as i64) == x)) by (bit_vector)
        requires
            v == x as u64,
    ;
}

/// On `u64`, subtraction undoes addition and addition undoes subtraction,
/// with wrap-around, and addition and multiplication commute.
pub proof fn lemma_u64_add_sub(x: u64, y: u64)
    ensures
        <u64 as ArithmeticOps<u64>>::difference(<u64 as ArithmeticOps<u64>>::sum(x, y), y) == x,
        <u64 as ArithmeticOps<u64>>::sum(<u64 as ArithmeticOps<u64>>::difference(x, y), y) == x,
        <u64 as ArithmeticOps<u64>>::sum(x, y) == <u64 as ArithmeticOps<u64>>::sum(y, x),
        <u64 as ArithmeticOps<u64>>::product(x, y) == <u64 as ArithmeticOps<u64>>::product(y, x),
{
    lemma_pow256_values();
    lemma_wrap_congruent(x + y, 8);
    lemma_wrap_congruent(x - y, 8);
    lemma_wrap_inner(x + y, -y, 8);
    lemma_wrap_inner(x - y, y as int, 8);
    lemma_wrap_of_fitting(x as int, 8);
    assert(x * y == y * x) by (nonlinear_arith);
}

/// On `u64`, the quotient times the divisor plus the remainder is the
/// dividend, with wrap-around, and the remainder is smaller than the divisor.
pub proof fn lemma_u64_div_rem(x: u64, d: u64)
    requires
        d != 0,
    ensures
        <u64 as ArithmeticOps<u64>>::sum(<u64 as ArithmeticOps<u64>>::product(<u64 as ArithmeticOps<u64>>::quotient(x, d), d), <u64 as Integer<u64>>::remainder(x, d)) == x,
        <u64 as Integer<u64>>::remainder(x, d) < d,
{
    lemma_pow256_values();
    lemma_fundamental_div_mod(x as int, d as int);
    assert((x / d) * d == d * (x / d)) by (nonlinear_arith);
    lemma_wrap_of_fitting((x / d) * d, 8);
    lemma_wrap_of_fitting(x as int, 8);
}

/// On `u64`, rotating right undoes rotating left by the same amount, and
/// rotating left undoes rotating right.
pub proof fn lemma_u64_rotate(x: u64, k: u64)
    ensures
        <u64 as Integer<u64>>::rotated_right(<u64 as Integer<u64>>::rotated_left(x, k), k) == x,
        <u64 as Integer<u64>>::rotated_left(<u64 as Integer<u64>>::rotated_right(x, k), k) == x,
{
    let kk = k as u32;
    lemma_rot64_inverse(x, kk);
}

/// On `i32`, the sum, difference and product are the exact results up to a
/// multiple of `2^32`.
pub proof fn lemma_i32_congruences(x: i32, y: i32)
    ensures
        (<i32 as ArithmeticOps<i32>>::sum(x, y) as int - (x as int + y as int)) % 0x1_0000_0000 == 0,
        (<i32 as ArithmeticOps<i32>>::difference(x, y) as int - (x as int - y as int)) % 0x1_0000_0000 == 0,
        (<i32 as ArithmeticOps<i32>>::product(x, y) as int - (x as int * y as int)) % 0x1_0000_0000 == 0,
{
    lemma_pow256_values();
    lemma_wrap_congruent(x + y, 4);
    lemma_wrap_congruent(x - y, 4);
    lemma_wrap_congruent(x * y, 4);
    lemma_mod_equivalence(to_signed(x + y, 4) as int, x + y, 0x1_0000_0000);
    lemma_mod_equivalence(to_signed(x - y, 4) as int, x - y, 0x1_0000_0000);
    lemma_mod_equivalence(to_signed(x * y, 4) as int, x * y, 0x1_0000_0000);
}

/// On `i32`, division rounds towards zero: quotient times divisor plus
/// remainder is the dividend, the remainder is smaller in magnitude than the
/// divisor and has the sign of the dividend; `i32::MIN / -1` wraps to
/// `i32::MIN` with remainder 0.
pub proof fn lemma_i32_division(x: i32, d: i32)
    requires
        d != 0,
    ensures
        !(x == i32::MIN && d == -1) ==> <i32 as ArithmeticOps<i32>>::quotient(x, d) as int * d as int + <i32 as Integer<i32>>::remainder(x, d) as int == x as int,
        x == i32::MIN && d == -1 ==> <i32 as ArithmeticOps<i32>>::quotient(x, d) == i32::MIN && <i32 as Integer<i32>>::remainder(x, d) == 0,
        <i32 as Integer<i32>>::remainder(x, d) == 0 || (<i32 as Integer<i32>>::remainder(x, d) < 0) == (x < 0),
        (if <i32 as Integer<i32>>::remainder(x, d) < 0 { -<i32 as Integer<i32>>::remainder(x, d) } else { <i32 as Integer<i32>>::remainder(x, d) as int }) < (if d < 0 { -d } else { d as int }),
{
    let td = trunc_div(x as int, d as int);
    let tr = trunc_rem(x as int, d as int);
    lemma_pow256_values();
    lemma_trunc_div_bound(x as int, d as int);
    lemma_trunc_div_rem(x as int, d as int);
    assert(d * td == td * d) by (nonlinear_arith);
    lemma_wrap_of_fitting(td, 4);
    if x == i32::MIN && d == -1 {
        lemma_fundamental_div_mod_converse_mod(0x8000_0000, 0x1_0000_0000, 0, 0x8000_0000);
        lemma_fundamental_div_mod_converse_mod(0x8000_0000, 1, 0x8000_0000, 0);
        lemma_fundamental_div_mod_converse_div(0x8000_0000, 1, 0x8000_0000, 0);
    }
}

/// On `i32`: the leading zeros are the zero bits above the highest one bit,
/// the trailing zeros the zero bits below the lowest one bit, all 32 bits
/// for zero; the one bits of a value are those of its half plus its lowest
/// bit.
pub proof fn lemma_i32_bit_counts(x: i32)
    ensures
        x == 0 ==> <i32 as Integer<i32>>::leading_zero_count(x) == 32 && <i32 as Integer<i32>>::trailing_zero_count(x) == 32 && <i32 as Integer<i32>>::one_count(x) == 0,
        x != 0 ==> 0 <= <i32 as Integer<i32>>::leading_zero_count(x) < 32 && ((x as u32) >> (31 - <i32 as Integer<i32>>::leading_zero_count(x)) as u32) & 1 == 1,
        x != 0 ==> forall|j: u32| 32 - <i32 as Integer<i32>>::leading_zero_count(x) <= j < 32 ==> #[trigger] ((x as u32) >> j) & 1 == 0,
        x != 0 ==> 0 <= <i32 as Integer<i32>>::trailing_zero_count(x) < 32 && ((x as u32) >> <i32 as Integer<i32>>::trailing_zero_count(x) as u32) & 1 == 1,
        x != 0 ==> forall|j: u32| 0 <= j < <i32 as Integer<i32>>::trailing_zero_count(x) ==> #[trigger] ((x as u32) >> j) & 1 == 0,
        <i32 as Integer<i32>>::one_count(x) == <i32 as Integer<i32>>::one_count(((x as u32) / 2) as i32) + (x as u32) % 2,
        0 <= <i32 as Integer<i32>>::one_count(x) <= 32,
{
    let v = x as u32;
    axiom_u32_leading_zeros(v);
    axiom_u32_trailing_zeros(v);
    lemma_bit_is_one(((v as u32) >> ((31 - u32_leading_zeros(v) as int) as u32)) & 0xffff_ffff, 0);
    lemma_bit_is_one(0, (v as u64) >> ((31 - u32_leading_zeros(v) as int) as u64));
    lemma2_to64();
    lemma2_to64_rest();
    lemma_ones_bound(v as nat, 32);
    lemma_ones_bound((v / 2) as nat, 32);
    assert((x as u32 == 0) == (x == 0)) by (bit_vector);
}

/// On `i32`, rotating left by `k` moves the bit at position `j` to position
/// `j + k` and rotating right moves it to `j - k`, counted modulo 32: bit
/// `i` of the result is bit `i - k` (left) or `i + k` (right) of `x`.
pub proof fn lemma_i32_rotation_bits(x: i32, k: i32, i: u32)
    requires
        i < 32,
    ensures
        ((<i32 as Integer<i32>>::rotated_left(x, k) as u32) >> i) & 1 == ((x as u32) >> ((i as int + 32 - (k as int) % 32) % 32) as u32) & 1,
        ((<i32 as Integer<i32>>::rotated_right(x, k) as u32) >> i) & 1 == ((x as u32) >> ((i as int + (k as int) % 32) % 32) as u32) & 1,
{
    let v = x as u32;
    let kk: u32 = k as u32;
    let a = rotl32(v, kk);
    let b = rotr32(v, kk);
    assert(((a as i32) as u32) == a && ((b as i32) as u32) == b && kk % 32 == ((k as int) % 32) as u32)
        by (bit_vector)
        requires
            kk == k as u32,
    ;
    lemma_rotl32_moves_bits(v, kk, i);
    lemma_rotr32_moves_bits(v, kk, i);
}

/// On `u32`, the sum, difference and product are the exact results up to a
/// multiple of `2^32`.
pub proof fn lemma_u32_congruences(x: u32, y: u32)
    ensures
        (<u32 as ArithmeticOps<u32>>::sum(x, y) as int - (x as int + y as int)) % 0x1_0000_0000 == 0,
        (<u32 as ArithmeticOps<u32>>::difference(x, y) as int - (x as int - y as int)) % 0x1_0000_0000 == 0,
        (<u32 as ArithmeticOps<u32>>::product(x, y) as int - (x as int * y as int)) % 0x1_0000_0000 == 0,
{
    lemma_pow256_values();
    lemma_wrap_congruent(x + y, 4);
    lemma_wrap_congruent(x - y, 4);
    lemma_wrap_congruent(x * y, 4);
    lemma_mod_equivalence(to_unsigned(x + y, 4) as int, x + y, 0x1_0000_0000);
    lemma_mod_equivalence(to_unsigned(x - y, 4) as int, x - y, 0x1_0000_0000);
    lemma_mod_equivalence(to_unsigned(x * y, 4) as int, x * y, 0x1_0000_0000);
}

/// On `u32`, quotient times divisor plus remainder is the dividend, and the
/// remainder is smaller than the divisor.
pub proof fn lemma_u32_division(x: u32, d: u32)
    requires
        d != 0,
    ensures
        <u32 as ArithmeticOps<u32>>::quotient(x, d) as int * d as int + <u32 as Integer<u32>>::remainder(x, d) as int == x as int,
        <u32 as Integer<u32>>::remainder(x, d) < d,
{
    lemma_fundamental_div_mod(x as int, d as int);
    assert(d * (x / d) == (x / d) * d) by (nonlinear_arith);
}

/// On `u32`: the leading zeros are the zero bits above the highest one bit,
/// the trailing zeros the zero bits below the lowest one bit, all 32 bits
/// for zero; the one bits of a value are those of its half plus its lowest
/// bit.
pub proof fn lemma_u32_bit_counts(x: u32)
    ensures
        x == 0 ==> <u32 as Integer<u32>>::leading_zero_count(x) == 32 && <u32 as Integer<u32>>::trailing_zero_count(x) == 32 && <u32 as Integer<u32>>::one_count(x) == 0,
        x != 0 ==> 0 <= <u32 as Integer<u32>>::leading_zero_count(x) < 32 && ((x) >> (31 - <u32 as Integer<u32>>::leading_zero_count(x)) as u32) & 1 == 1,
        x != 0 ==> forall|j: u32| 32 - <u32 as Integer<u32>>::leading_zero_count(x) <= j < 32 ==> #[trigger] ((x) >> j) & 1 == 0,
        x != 0 ==> 0 <= <u32 as Integer<u32>>::trailing_zero_count(x) < 32 && ((x) >> <u32 as Integer<u32>>::trailing_zero_count(x) as u32) & 1 == 1,
        x != 0 ==> forall|j: u32| 0 <= j < <u32 as Integer<u32>>::trailing_zero_count(x) ==> #[trigger] ((x) >> j) & 1 == 0,
        <u32 as Integer<u32>>::one_count(x) == <u32 as Integer<u32>>::one_count(x / 2) + (x) % 2,
        0 <= <u32 as Integer<u32>>::one_count(x) <= 32,
{
    let v = x;
    axiom_u32_leading_zeros(v);
    axiom_u32_trailing_zeros(v);
    lemma_bit_is_one(((v as u32) >> ((31 - u32_leading_zeros(v) as int) as u32)) & 0xffff_ffff, 0);
    lemma_bit_is_one(0, (v as u64) >> ((31 - u32_leading_zeros(v) as int) as u64));
    lemma2_to64();
    lemma2_to64_rest();
    lemma_ones_bound(v as nat, 32);
    lemma_ones_bound((v / 2) as nat, 32);
    
}

/// On `u32`, rotating left by `k` moves the bit at position `j` to position
/// `j + k` and rotating right moves it to `j - k`, counted modulo 32: bit
/// `i` of the result is bit `i - k` (left) or `i + k` (right) of `x`.
pub proof fn lemma_u32_rotation_bits(x: u32, k: u32, i: u32)
    requires
        i < 32,
    ensures
        ((<u32 as Integer<u32>>::rotated_left(x, k) as u32) >> i) & 1 == ((x) >> ((i as int + 32 - (k as int) % 32) % 32) as u32) & 1,
        ((<u32 as Integer<u32>>::rotated_right(x, k) as u32) >> i) & 1 == ((x) >> ((i as int + (k as int) % 32) % 32) as u32) & 1,
{
    let v = x;
    let kk: u32 = k;

    lemma_rotl32_moves_bits(v, kk, i);
    lemma_rotr32_moves_bits(v, kk, i);
}

/// On `i64`, the sum, difference and product are the exact results up to a
/// multiple of `2^64`.
pub proof fn lemma_i64_congruences(x: i64, y: i64)
    ensures
        (<i64 as ArithmeticOps<i64>>::sum(x, y) as int - (x as int + y as int)) % 0x1_0000_0000_0000_0000 == 0,
        (<i64 as ArithmeticOps<i64>>::difference(x, y) as int - (x as int - y as int)) % 0x1_0000_0000_0000_0000 == 0,
        (<i64 as ArithmeticOps<i64>>::product(x, y) as int - (x as int * y as int)) % 0x1_0000_0000_0000_0000 == 0,
{
    lemma_pow256_values();
    lemma_wrap_congruent(x + y, 8);
    lemma_wrap_congruent(x - y, 8);
    lemma_wrap_congruent(x * y, 8);
    lemma_mod_equivalence(to_signed(x + y, 8) as int, x + y, 0x1_0000_0000_0000_0000);
    lemma_mod_equivalence(to_signed(x - y, 8) as int, x - y, 0x1_0000_0000_0000_0000);
    lemma_mod_equivalence(to_signed(x * y, 8) as int, x * y, 0x1_0000_0000_0000_0000);
}

/// On `i64`, division rounds towards zero: quotient times divisor plus
/// remainder is the dividend, the remainder is smaller in magnitude than the
/// divisor and has the sign of the dividend; `i64::MIN / -1` wraps to
/// `i64::MIN` with remainder 0.
pub proof fn lemma_i64_division(x: i64, d: i64)
    requires
        d != 0,
    ensures
        !(x == i64::MIN && d == -1) ==> <i64 as ArithmeticOps<i64>>::quotient(x, d) as int * d as int + <i64 as Integer<i64>>::remainder(x, d) as int == x as int,
        x == i64::MIN && d == -1 ==> <i64 as ArithmeticOps<i64>>::quotient(x, d) == i64::MIN && <i64 as Integer<i64>>::remainder(x, d) == 0,
        <i64 as Integer<i64>>::remainder(x, d) == 0 || (<i64 as Integer<i64>>::remainder(x, d) < 0) == (x < 0),
        (if <i64 as Integer<i64>>::remainder(x, d) < 0 { -<i64 as Integer<i64>>::remainder(x, d) } else { <i64 as Integer<i64>>::remainder(x, d) as int }) < (if d < 0 { -d } else { d as int }),
{
    let td = trunc_div(x as int, d as int);
    let tr = trunc_rem(x as int, d as int);
    lemma_pow256_values();
    lemma_trunc_div_bound(x as int, d as int);
    lemma_trunc_div_rem(x as int, d as int);
    assert(d * td == td * d) by (nonlinear_arith);
    lemma_wrap_of_fitting(td, 8);
    if x == i64::MIN && d == -1 {
        lemma_fundamental_div_mod_converse_mod(0x8000_0000_0000_0000, 0x1_0000_0000_0000_0000, 0, 0x8000_0000_0000_0000);
        lemma_fundamental_div_mod_converse_mod(0x8000_0000_0000_0000, 1, 0x8000_0000_0000_0000, 0);
        lemma_fundamental_div_mod_converse_div(0x8000_0000_0000_0000, 1, 0x8000_0000_0000_0000, 0);
    }
}

/// On `i64`: the leading zeros are the zero bits above the highest one bit,
/// the trailing zeros the zero bits below the lowest one bit, all 64 bits
/// for zero; the one bits of a value are those of its half plus its lowest
/// bit.
pub proof fn lemma_i64_bit_counts(x: i64)
    ensures
        x == 0 ==> <i64 as Integer<i64>>::leading_zero_count(x) == 64 && <i64 as Integer<i64>>::trailing_zero_count(x) == 64 && <i64 as Integer<i64>>::one_count(x) == 0,
        x != 0 ==> 0 <= <i64 as Integer<i64>>::leading_zero_count(x) < 64 && ((x as u64) >> (63 - <i64 as Integer<i64>>::leading_zero_count(x)) as u64) & 1 == 1,
        x != 0 ==> forall|j: u64| 64 - <i64 as Integer<i64>>::leading_zero_count(x) <= j < 64 ==> #[trigger] ((x as u64) >> j) & 1 == 0,
        x != 0 ==> 0 <= <i64 as Integer<i64>>::trailing_zero_count(x) < 64 && ((x as u64) >> <i64 as Integer<i64>>::trailing_zero_count(x) as u64) & 1 == 1,
        x != 0 ==> forall|j: u64| 0 <= j < <i64 as Integer<i64>>::trailing_zero_count(x) ==> #[trigger] ((x as u64) >> j) & 1 == 0,
        <i64 as Integer<i64>>::one_count(x) == <i64 as Integer<i64>>::one_count(((x as u64) / 2) as i64) + (x as u64) % 2,
        0 <= <i64 as Integer<i64>>::one_count(x) <= 64,
{
    let v = x as u64;
    axiom_u64_leading_zeros(v);
    axiom_u64_trailing_zeros(v);
    lemma_bit_is_one(((v as u32) >> ((63 - u64_leading_zeros(v)) as u32)) & 0xffff_ffff, 0);
    lemma_bit_is_one(0, (v as u64) >> ((63 - u64_leading_zeros(v)) as u64));
    lemma2_to64();
    lemma2_to64_rest();
    lemma_ones_bound(v as nat, 64);
    lemma_ones_bound((v / 2) as nat, 64);
    assert((x as u64 == 0) == (x == 0)) by (bit_vector);
}

/// On `i64`, rotating left by `k` moves the bit at position `j` to position
/// `j + k` and rotating right moves it to `j - k`, counted modulo 64: bit
/// `i` of the result is bit `i - k` (left) or `i + k` (right) of `x`.
pub proof fn lemma_i64_rotation_bits(x: i64, k: i64, i: u32)
    requires
        i < 64,
    ensures
        ((<i64 as Integer<i64>>::rotated_left(x, k) as u64) >> i) & 1 == ((x as u64) >> ((i as int + 64 - (k as int) % 64) % 64) as u32) & 1,
        ((<i64 as Integer<i64>>::rotated_right(x, k) as u64) >> i) & 1 == ((x as u64) >> ((i as int + (k as int) % 64) % 64) as u32) & 1,
{
    let v = x as u64;
    let kk: u32 = k as u32;
    let a = rotl64(v, kk);
    let b = rotr64(v, kk);
    assert(((a as i64) as u64) == a && ((b as i64) as u64) == b && kk % 64 == ((k as int) % 64) as u32)
        by (bit_vector)
        requires
            kk == k as u32,
    ;
    lemma_rotl64_moves_bits(v, kk, i);
    lemma_rotr64_moves_bits(v, kk, i);
}

/// On `u64`, the sum, difference and product are the exact results up to a
/// multiple of `2^64`.
pub proof fn lemma_u64_congruences(x: u64, y: u64)
    ensures
        (<u64 as ArithmeticOps<u64>>::sum(x, y) as int - (x as int + y as int)) % 0x1_0000_0000_0000_0000 == 0,
        (<u64 as ArithmeticOps<u64>>::difference(x, y) as int - (x as int - y as int)) % 0x1_0000_0000_0000_0000 == 0,
        (<u64 as ArithmeticOps<u64>>::product(x, y) as int - (x as int * y as int)) % 0x1_0000_0000_0000_0000 == 0,
{
    lemma_pow256_values();
    lemma_wrap_congruent(x + y, 8);
    lemma_wrap_congruent(x - y, 8);
    lemma_wrap_congruent(x * y, 8);
    lemma_mod_equivalence(to_unsigned(x + y, 8) as int, x + y, 0x1_0000_0000_0000_0000);
    lemma_mod_equivalence(to_unsigned(x - y, 8) as int, x - y, 0x1_0000_0000_0000_0000);
    lemma_mod_equivalence(to_unsigned(x * y, 8) as int, x * y, 0x1_0000_0000_0000_0000);
}

/// On `u64`, quotient times divisor plus remainder is the dividend, and the
/// remainder is smaller than the divisor.
pub proof fn lemma_u64_division(x: u64, d: u64)
    requires
        d != 0,
    ensures
        <u64 as ArithmeticOps<u64>>::quotient(x, d) as int * d as int + <u64 as Integer<u64>>::remainder(x, d) as int == x as int,
        <u64 as Integer<u64>>::remainder(x, d) < d,
{
    lemma_fundamental_div_mod(x as int, d as int);
    assert(d * (x / d) == (x / d) * d) by (nonlinear_arith);
}

/// On `u64`: the leading zeros are the zero bits above the highest one bit,
/// the trailing zeros the zero bits below the lowest one bit, all 64 bits
/// for zero; the one bits of a value are those of its half plus its lowest
/// bit.
pub proof fn lemma_u64_bit_counts(x: u64)
    ensures
        x == 0 ==> <u64 as Integer<u64>>::leading_zero_count(x) == 64 && <u64 as Integer<u64>>::trailing_zero_count(x) == 64 && <u64 as Integer<u64>>::one_count(x) == 0,
        x != 0 ==> 0 <= <u64 as Integer<u64>>::leading_zero_count(x) < 64 && ((x) >> (63 - <u64 as Integer<u64>>::leading_zero_count(x)) as u64) & 1 == 1,
        x != 0 ==> forall|j: u64| 64 - <u64 as Integer<u64>>::leading_zero_count(x) <= j < 64 ==> #[trigger] ((x) >> j) & 1 == 0,
        x != 0 ==> 0 <= <u64 as Integer<u64>>::trailing_zero_count(x) < 64 && ((x) >> <u64 as Integer<u64>>::trailing_zero_count(x) as u64) & 1 == 1,
        x != 0 ==> forall|j: u64| 0 <= j < <u64 as Integer<u64>>::trailing_zero_count(x) ==> #[trigger] ((x) >> j) & 1 == 0,
        <u64 as Integer<u64>>::one_count(x) == <u64 as Integer<u64>>::one_count(x / 2) + (x) % 2,
        0 <= <u64 as Integer<u64>>::one_count(x) <= 64,
{
    let v = x;
    axiom_u64_leading_zeros(v);
    axiom_u64_trailing_zeros(v);
    lemma_bit_is_one(((v as u32) >> ((63 - u64_leading_zeros(v)) as u32)) & 0xffff_ffff, 0);
    lemma_bit_is_one(0, (v as u64) >> ((63 - u64_leading_zeros(v)) as u64));
    lemma2_to64();
    lemma2_to64_rest();
    lemma_ones_bound(v as nat, 64);
    lemma_ones_bound((v / 2) as nat, 64);
    
}

/// On `u64`, rotating left by `k` moves the bit at position `j` to position
/// `j + k` and rotating right moves it to `j - k`, counted modulo 64: bit
/// `i` of the result is bit `i - k` (left) or `i + k` (right) of `x`.
pub proof fn lemma_u64_rotation_bits(x: u64, k: u64, i: u32)
    requires
        i < 64,
    ensures
        ((<u64 as Integer<u64>>::rotated_left(x, k) as u64) >> i) & 1 == ((x) >> ((i as int + 64 - (k as int) % 64) % 64) as u32) & 1,
        ((<u64 as Integer<u64>>::rotated_right(x, k) as u64) >> i) & 1 == ((x) >> ((i as int + (k as int) % 64) % 64) as u32) & 1,
{
    let v = x;
    let kk: u32 = k as u32;
    assert(kk % 64 == ((k as int) % 64) as u32) by (bit_vector)
        requires
            kk == k as u32,
    ;
    lemma_rotl64_moves_bits(v, kk, i);
    lemma_rotr64_moves_bits(v, kk, i);
}

} // verus!
