//! Little-endian byte strings and two's-complement encodings, as
//! mathematical functions on sequences and integers.

use vstd::arithmetic::div_mod::{
    lemma_add_mod_noop, lemma_div_denominator, lemma_fundamental_div_mod_converse_div,
    lemma_fundamental_div_mod_converse_mod, lemma_mod_bound,
    lemma_mod_equivalence, lemma_mul_mod_noop_left,
};
use vstd::prelude::*;

verus! {

/// `256` raised to the power `n`: the number of values that `n` bytes hold.
pub open spec fn pow256(n: nat) -> nat
    decreases n,
{
    if n == 0 {
        1
    } else {
        256 * pow256((n - 1) as nat)
    }
}

/// The number that a little-endian byte string denotes, least significant
/// byte first.
pub open spec fn le_value(bytes: Seq<u8>) -> nat
    decreases bytes.len(),
{
    if bytes.len() == 0 {
        0
    } else {
        bytes[0] as nat + 256 * le_value(bytes.drop_first())
    }
}

/// The `n` lowest bytes of `v`, least significant byte first.
pub open spec fn le_bytes(v: nat, n: nat) -> Seq<u8>
    decreases n,
{
    if n == 0 {
        Seq::empty()
    } else {
        seq![(v % 256) as u8] + le_bytes(v / 256, (n - 1) as nat)
    }
}

/// The bit pattern of `x` in `n` bytes of two's complement, read as an
/// unsigned number: `x` modulo `256^n`.
pub open spec fn to_unsigned(x: int, n: nat) -> nat {
    (x % (pow256(n) as int)) as nat
}

/// The `n`-byte two's-complement bit pattern `v` read as a signed number.
pub open spec fn to_signed(v: int, n: nat) -> int {
    let m = v % (pow256(n) as int);
    if 2 * m >= pow256(n) {
        m - pow256(n)
    } else {
        m
    }
}

/// `x` fits in `n` bytes of two's complement.
pub open spec fn fits_signed(x: int, n: nat) -> bool {
    -(pow256(n) as int) <= 2 * x < pow256(n)
}

/// The `n`-byte little-endian encoding of the signed number `x`.
pub open spec fn signed_le_bytes(x: int, n: nat) -> Seq<u8> {
    le_bytes(to_unsigned(x, n), n)
}

/// The signed number that the first `n` bytes of `bytes` encode in
/// little-endian two's complement.
pub open spec fn signed_le_value(bytes: Seq<u8>, n: nat) -> int {
    to_signed(le_value(bytes.take(n as int)) as int, n)
}

pub proof fn lemma_pow256_positive(n: nat)
    ensures
        pow256(n) >= 1,
    decreases n,
{
    if n > 0 {
        lemma_pow256_positive((n - 1) as nat);
    }
}

/// Encoding a number below `256^n` in `n` bytes and decoding the bytes
/// gives the number back.
pub proof fn lemma_le_value_of_le_bytes(v: nat, n: nat)
    requires
        v < pow256(n),
    ensures
        le_bytes(v, n).len() == n,
        le_value(le_bytes(v, n)) == v,
    decreases n,
{
    if n > 0 {
        let rest = le_bytes(v / 256, (n - 1) as nat);
        lemma_le_value_of_le_bytes(v / 256, (n - 1) as nat);
        assert((seq![(v % 256) as u8] + rest).drop_first() =~= rest);
    }
}

/// Decoding `n` bytes and encoding the number in `n` bytes gives the bytes
/// back.
pub proof fn lemma_le_bytes_of_le_value(bytes: Seq<u8>)
    ensures
        le_value(bytes) < pow256(bytes.len()),
        le_bytes(le_value(bytes), bytes.len()) == bytes,
    decreases bytes.len(),
{
    if bytes.len() > 0 {
        let rest = bytes.drop_first();
        lemma_le_bytes_of_le_value(rest);
        let v = le_value(bytes);
        assert(v % 256 == bytes[0] as nat);
        assert(v / 256 == le_value(rest));
        assert(le_bytes(v, bytes.len()) =~= bytes);
    }
}

/// Reading a two's-complement bit pattern back as a signed number undoes
/// the conversion for every number that fits.
pub proof fn lemma_to_signed_of_to_unsigned(x: int, n: nat)
    requires
        n >= 1,
        fits_signed(x, n),
    ensures
        to_unsigned(x, n) < pow256(n),
        to_signed(to_unsigned(x, n) as int, n) == x,
{
    let p = pow256(n) as int;
    lemma_pow256_positive(n);
    if x >= 0 {
        lemma_fundamental_div_mod_converse_mod(x, p, 0, x);
    } else {
        lemma_fundamental_div_mod_converse_mod(x, p, -1, x + p);
    }
    let u = to_unsigned(x, n) as int;
    lemma_fundamental_div_mod_converse_mod(u, p, 0, u);
}


/// Reinterpreting a byte as signed or unsigned matches the arithmetic
/// two's-complement conversions.
pub proof fn lemma_byte_casts(x: i8, b: u8)
    ensures
        x as u8 == to_unsigned(x as int, 1),
        b as i8 == to_signed(b as int, 1),
{
    reveal_with_fuel(pow256, 2);
    assert(x >= 0 ==> x as u8 == x) by (bit_vector);
    assert(x < 0 ==> x as u8 == x + 256) by (bit_vector);
    assert(b < 128 ==> b as i8 == b) by (bit_vector);
    assert(b >= 128 ==> b as i8 == b - 256) by (bit_vector);
    if x >= 0 {
        lemma_fundamental_div_mod_converse_mod(x as int, 256, 0, x as int);
    } else {
        lemma_fundamental_div_mod_converse_mod(x as int, 256, -1, x + 256);
    }
    lemma_fundamental_div_mod_converse_mod(b as int, 256, 0, b as int);
}


/// A single byte encodes itself.
pub proof fn lemma_single_byte(b: u8, bytes: Seq<u8>)
    requires
        bytes.len() >= 1,
    ensures
        le_bytes(b as nat, 1) == seq![b],
        le_value(bytes.take(1)) == bytes[0],
{
    reveal_with_fuel(le_bytes, 2);
    reveal_with_fuel(le_value, 2);
    lemma_fundamental_div_mod_converse_mod(b as int, 256, 0, b as int);
    assert(le_bytes(b as nat, 1) =~= seq![b]);
    assert(bytes.take(1).drop_first() =~= Seq::<u8>::empty());
}


/// The number of values that one, two, four and eight bytes hold.
pub proof fn lemma_pow256_values()
    ensures
        pow256(1) == 0x100,
        pow256(2) == 0x1_0000,
        pow256(4) == 0x1_0000_0000,
        pow256(8) == 0x1_0000_0000_0000_0000,
{
    reveal_with_fuel(pow256, 9);
}

/// Reading back the two's-complement encoding of a number that fits in `n`
/// bytes gives the number, whatever bytes follow the encoding.
pub proof fn lemma_signed_le_round_trip(x: int, n: nat, rest: Seq<u8>)
    requires
        n >= 1,
        fits_signed(x, n),
    ensures
        signed_le_bytes(x, n).len() == n,
        signed_le_value(signed_le_bytes(x, n) + rest, n) == x,
{
    lemma_to_signed_of_to_unsigned(x, n);
    lemma_unsigned_le_round_trip(to_unsigned(x, n), n, rest);
}

/// Reading back the encoding of a number below `256^n` gives the number,
/// whatever bytes follow the encoding.
pub proof fn lemma_unsigned_le_round_trip(v: nat, n: nat, rest: Seq<u8>)
    requires
        v < pow256(n),
    ensures
        le_bytes(v, n).len() == n,
        le_value((le_bytes(v, n) + rest).take(n as int)) == v,
{
    lemma_le_value_of_le_bytes(v, n);
    assert((le_bytes(v, n) + rest).take(n as int) =~= le_bytes(v, n));
}

/// Encoding the number that the first `n` bytes denote gives those bytes.
pub proof fn lemma_unsigned_le_bytes_round_trip(bytes: Seq<u8>, n: nat)
    requires
        bytes.len() >= n,
    ensures
        le_value(bytes.take(n as int)) < pow256(n),
        le_bytes(le_value(bytes.take(n as int)), n) == bytes.take(n as int),
{
    lemma_le_bytes_of_le_value(bytes.take(n as int));
}

/// Encoding the signed number that the first `n` bytes denote in two's
/// complement gives those bytes.
pub proof fn lemma_signed_le_bytes_round_trip(bytes: Seq<u8>, n: nat)
    requires
        n >= 1,
        bytes.len() >= n,
    ensures
        fits_signed(signed_le_value(bytes, n), n),
        signed_le_bytes(signed_le_value(bytes, n), n) == bytes.take(n as int),
{
    let v = le_value(bytes.take(n as int));
    lemma_unsigned_le_bytes_round_trip(bytes, n);
    lemma_to_unsigned_of_to_signed(v as int, n);
}

/// Converting an `n`-byte bit pattern to a signed number and back gives the
/// bit pattern.
pub proof fn lemma_to_unsigned_of_to_signed(v: int, n: nat)
    requires
        0 <= v < pow256(n),
    ensures
        fits_signed(to_signed(v, n), n),
        to_unsigned(to_signed(v, n), n) == v,
{
    let p = pow256(n) as int;
    lemma_pow256_positive(n);
    lemma_fundamental_div_mod_converse_mod(v, p, 0, v);
    if 2 * v >= p {
        lemma_fundamental_div_mod_converse_mod(v - p, p, -1, v);
    }
}


/// A number that fits in `n` bytes is its own two's-complement reading, and
/// a number below `256^n` is its own unsigned reading.
pub proof fn lemma_wrap_of_fitting(x: int, n: nat)
    ensures
        n >= 1 && fits_signed(x, n) ==> to_signed(x, n) == x,
        0 <= x < pow256(n) ==> to_unsigned(x, n) == x,
{
    let p = pow256(n) as int;
    lemma_pow256_positive(n);
    if 0 <= x < p {
        lemma_fundamental_div_mod_converse_mod(x, p, 0, x);
    }
    if n >= 1 && fits_signed(x, n) {
        lemma_to_signed_of_to_unsigned(x, n);
        if x >= 0 {
            lemma_fundamental_div_mod_converse_mod(x, p, 0, x);
        } else {
            lemma_fundamental_div_mod_converse_mod(x, p, -1, x + p);
        }
    }
}

/// The two's-complement readings of `x` are congruent to `x` modulo `256^n`,
/// and the signed one fits in `n` bytes.
pub proof fn lemma_wrap_congruent(x: int, n: nat)
    ensures
        to_unsigned(x, n) < pow256(n),
        (to_unsigned(x, n) as int) % (pow256(n) as int) == x % (pow256(n) as int),
        to_signed(x, n) % (pow256(n) as int) == x % (pow256(n) as int),
        fits_signed(to_signed(x, n), n),
{
    let p = pow256(n) as int;
    lemma_pow256_positive(n);
    let m = x % p;
    lemma_mod_bound(x, p);
    lemma_fundamental_div_mod_converse_mod(m, p, 0, m);
    if 2 * m >= p {
        lemma_fundamental_div_mod_converse_mod(m - p, p, -1, m);
    }
}

/// Wrapping an intermediate result does not change the wrapped result of a
/// sum or a product.
pub proof fn lemma_wrap_inner(a: int, b: int, n: nat)
    ensures
        to_signed(to_signed(a, n) + b, n) == to_signed(a + b, n),
        to_signed(to_signed(a, n) * b, n) == to_signed(a * b, n),
        to_unsigned(to_unsigned(a, n) + b, n) == to_unsigned(a + b, n),
        to_unsigned(to_unsigned(a, n) * b, n) == to_unsigned(a * b, n),
{
    let p = pow256(n) as int;
    lemma_pow256_positive(n);
    lemma_wrap_congruent(a, n);
    let s = to_signed(a, n);
    let u = to_unsigned(a, n) as int;
    lemma_add_mod_noop(s, b, p);
    lemma_add_mod_noop(a, b, p);
    lemma_add_mod_noop(u, b, p);
    lemma_mul_mod_noop_left(s, b, p);
    lemma_mul_mod_noop_left(a, b, p);
    lemma_mul_mod_noop_left(u, b, p);
}

/// The encoding of `v` in `n` bytes has `n` bytes, and byte `i` is digit
/// `i` of `v` in base 256: the least significant byte comes first.
pub proof fn lemma_le_bytes_digits(v: nat, n: nat, i: nat)
    requires
        i < n,
    ensures
        le_bytes(v, n).len() == n,
        le_bytes(v, n)[i as int] == (v / pow256(i)) % 256,
    decreases n,
{
    lemma_le_bytes_len(v, n);
    if i == 0 {
        assert(pow256(0) == 1);
        lemma_fundamental_div_mod_converse_div(v as int, 1, v as int, 0);
    } else {
        lemma_le_bytes_digits(v / 256, (n - 1) as nat, (i - 1) as nat);
        lemma_pow256_positive((i - 1) as nat);
        lemma_div_denominator(v as int, 256, pow256((i - 1) as nat) as int);
    }
}

/// The encoding of any number in `n` bytes has `n` bytes.
pub proof fn lemma_le_bytes_len(v: nat, n: nat)
    ensures
        le_bytes(v, n).len() == n,
    decreases n,
{
    if n > 0 {
        lemma_le_bytes_len(v / 256, (n - 1) as nat);
    }
}

/// Digit `i` in base 256 of the number that a byte string denotes is byte
/// `i` of the string.
pub proof fn lemma_le_value_digits(bytes: Seq<u8>, i: nat)
    requires
        i < bytes.len(),
    ensures
        (le_value(bytes) / pow256(i)) % 256 == bytes[i as int],
{
    lemma_le_bytes_of_le_value(bytes);
    lemma_le_bytes_digits(le_value(bytes), bytes.len(), i);
}

/// Byte `i` of the `n`-byte two's-complement encoding of `x` is digit `i`
/// in base 256 of `x` reduced modulo `256^n`, least significant first.
pub proof fn lemma_signed_le_bytes_digits(x: int, n: nat, i: nat)
    requires
        i < n,
    ensures
        signed_le_bytes(x, n).len() == n,
        signed_le_bytes(x, n)[i as int] == ((x % (pow256(n) as int)) / (pow256(i) as int)) % 256,
{
    lemma_le_bytes_digits(to_unsigned(x, n), n, i);
    lemma_wrap_congruent(x, n);
}

/// The signed number that `n` bytes encode in two's complement is the
/// unsigned number they denote, up to a multiple of `256^n`, and lies in the
/// signed range of `n` bytes.
pub proof fn lemma_signed_le_value_range(bytes: Seq<u8>, n: nat)
    ensures
        (signed_le_value(bytes, n) - le_value(bytes.take(n as int))) % (pow256(n) as int) == 0,
        -(pow256(n) as int) <= 2 * signed_le_value(bytes, n) < pow256(n),
{
    let v = le_value(bytes.take(n as int)) as int;
    lemma_wrap_congruent(v, n);
    lemma_pow256_positive(n);
    lemma_mod_equivalence(to_signed(v, n), v, pow256(n) as int);
}

} // verus!
