//! Conversion of integers from and to little-endian byte buffers.

use crate::bytes::{
    le_bytes, le_value, lemma_byte_casts, lemma_pow256_values, lemma_signed_le_round_trip,
    lemma_single_byte, lemma_unsigned_le_round_trip, signed_le_bytes, signed_le_value,
};
use crate::value::Error;
use byteorder::{LittleEndian, ReadBytesExt, WriteBytesExt};
use std::io::Cursor;
use vstd::prelude::*;

verus! {

/// The error of a failed read from `std::io`.
#[verifier::external_type_specification]
#[verifier::external_body]
pub struct ExIoError(std::io::Error);

/// Convert from and to little endian buffers.
pub trait LittleEndianConvert where Self: Sized {
    /// Convert to little endian buffer.
    fn into_little_endian(self) -> Vec<u8>;

    /// Convert from little endian buffer.
    fn from_little_endian(buffer: Vec<u8>) -> Result<Self, Error>;
}

/// Calls `byteorder`'s `WriteBytesExt::write_i16::<LittleEndian>` on a new
/// `Vec`; the contract claims that it writes the two bytes of `x`'s
/// two's complement, least significant first.
#[verifier::external_body]
fn write_i16_le(x: i16) -> (bytes: Vec<u8>)
    ensures
        bytes@ == signed_le_bytes(x as int, 2),
{
    let mut bytes = Vec::with_capacity(2);
    bytes.write_i16::<LittleEndian>(x).expect("writing to a Vec does not fail");
    bytes
}

/// Calls `byteorder`'s `ReadBytesExt::read_i16::<LittleEndian>` on a cursor
/// at the start of `buffer`; the contract claims that it fails exactly when
/// fewer than two bytes are there, and otherwise gives the two's-complement number of
/// the first two bytes, least significant first. What the
/// error holds is not stated.
#[verifier::external_body]
fn read_i16_le(buffer: Vec<u8>) -> (r: Result<i16, std::io::Error>)
    ensures
        r is Ok <==> buffer.len() >= 2,
        r matches Ok(v) ==> v == signed_le_value(buffer@, 2),
{
    Cursor::new(buffer).read_i16::<LittleEndian>()
}

/// Calls `byteorder`'s `WriteBytesExt::write_u16::<LittleEndian>` on a new
/// `Vec`; the contract claims that it writes the two bytes of `x`'s
/// binary representation, least significant first.
#[verifier::external_body]
fn write_u16_le(x: u16) -> (bytes: Vec<u8>)
    ensures
        bytes@ == le_bytes(x as nat, 2),
{
    let mut bytes = Vec::with_capacity(2);
    bytes.write_u16::<LittleEndian>(x).expect("writing to a Vec does not fail");
    bytes
}

/// Calls `byteorder`'s `ReadBytesExt::read_u16::<LittleEndian>` on a cursor
/// at the start of `buffer`; the contract claims that it fails exactly when
/// fewer than two bytes are there, and otherwise gives the number of
/// the first two bytes, least significant first. What the
/// error holds is not stated.
#[verifier::external_body]
fn read_u16_le(buffer: Vec<u8>) -> (r: Result<u16, std::io::Error>)
    ensures
        r is Ok <==> buffer.len() >= 2,
        r matches Ok(v) ==> v == le_value(buffer@.take(2)),
{
    Cursor::new(buffer).read_u16::<LittleEndian>()
}

/// Calls `byteorder`'s `WriteBytesExt::write_i32::<LittleEndian>` on a new
/// `Vec`; the contract claims that it writes the four bytes of `x`'s
/// two's complement, least significant first.
#[verifier::external_body]
fn write_i32_le(x: i32) -> (bytes: Vec<u8>)
    ensures
        bytes@ == signed_le_bytes(x as int, 4),
{
    let mut bytes = Vec::with_capacity(4);
    bytes.write_i32::<LittleEndian>(x).expect("writing to a Vec does not fail");
    bytes
}

/// Calls `byteorder`'s `ReadBytesExt::read_i32::<LittleEndian>` on a cursor
/// at the start of `buffer`; the contract claims that it fails exactly when
/// fewer than four bytes are there, and otherwise gives the two's-complement number of
/// the first four bytes, least significant first. What the
/// error holds is not stated.
#[verifier::external_body]
fn read_i32_le(buffer: Vec<u8>) -> (r: Result<i32, std::io::Error>)
    ensures
        r is Ok <==> buffer.len() >= 4,
        r matches Ok(v) ==> v == signed_le_value(buffer@, 4),
{
    Cursor::new(buffer).read_i32::<LittleEndian>()
}

/// Calls `byteorder`'s `WriteBytesExt::write_u32::<LittleEndian>` on a new
/// `Vec`; the contract claims that it writes the four bytes of `x`'s
/// binary representation, least significant first.
#[verifier::external_body]
fn write_u32_le(x: u32) -> (bytes: Vec<u8>)
    ensures
        bytes@ == le_bytes(x as nat, 4),
{
    let mut bytes = Vec::with_capacity(4);
    bytes.write_u32::<LittleEndian>(x).expect("writing to a Vec does not fail");
    bytes
}

/// Calls `byteorder`'s `ReadBytesExt::read_u32::<LittleEndian>` on a cursor
/// at the start of `buffer`; the contract claims that it fails exactly when
/// fewer than four bytes are there, and otherwise gives the number of
/// the first four bytes, least significant first. What the
/// error holds is not stated.
#[verifier::external_body]
fn read_u32_le(buffer: Vec<u8>) -> (r: Result<u32, std::io::Error>)
    ensures
        r is Ok <==> buffer.len() >= 4,
        r matches Ok(v) ==> v == le_value(buffer@.take(4)),
{
    Cursor::new(buffer).read_u32::<LittleEndian>()
}

/// Calls `byteorder`'s `WriteBytesExt::write_i64::<LittleEndian>` on a new
/// `Vec`; the contract claims that it writes the eight bytes of `x`'s
/// two's complement, least significant first.
#[verifier::external_body]
fn write_i64_le(x: i64) -> (bytes: Vec<u8>)
    ensures
        bytes@ == signed_le_bytes(x as int, 8),
{
    let mut bytes = Vec::with_capacity(8);
    bytes.write_i64::<LittleEndian>(x).expect("writing to a Vec does not fail");
    bytes
}

/// Calls `byteorder`'s `ReadBytesExt::read_i64::<LittleEndian>` on a cursor
/// at the start of `buffer`; the contract claims that it fails exactly when
/// fewer than eight bytes are there, and otherwise gives the two's-complement number of
/// the first eight bytes, least significant first. What the
/// error holds is not stated.
#[verifier::external_body]
fn read_i64_le(buffer: Vec<u8>) -> (r: Result<i64, std::io::Error>)
    ensures
        r is Ok <==> buffer.len() >= 8,
        r matches Ok(v) ==> v == signed_le_value(buffer@, 8),
{
    Cursor::new(buffer).read_i64::<LittleEndian>()
}

impl LittleEndianConvert for i8 {
    fn into_little_endian(self) -> (bytes: Vec<u8>)
        ensures
            bytes@ == signed_le_bytes(self as int, 1),
    {
        let b: u8 = self as u8;
        proof {
            lemma_byte_casts(self, b);
            lemma_single_byte(b, seq![b]);
        }
        let bytes = vec![b];
        bytes
    }

    fn from_little_endian(buffer: Vec<u8>) -> (r: Result<i8, Error>)
        ensures
            r is Ok <==> buffer.len() >= 1,
            r matches Ok(v) ==> v == signed_le_value(buffer@, 1),
            r matches Err(Error::Value(m)) ==> m@ == "invalid little endian buffer"@,
    {
        if buffer.len() >= 1 {
            let b = buffer[0];
            let v: i8 = b as i8;
            proof {
                lemma_byte_casts(v, b);
                lemma_single_byte(b, buffer@);
            }
            Ok(v)
        } else {
            Err(Error::Value("invalid little endian buffer".to_owned()))
        }
    }
}

impl LittleEndianConvert for u8 {
    fn into_little_endian(self) -> (bytes: Vec<u8>)
        ensures
            bytes@ == le_bytes(self as nat, 1),
    {
        proof {
            lemma_single_byte(self, seq![self]);
        }
        let bytes = vec![self];
        bytes
    }

    fn from_little_endian(buffer: Vec<u8>) -> (r: Result<u8, Error>)
        ensures
            r is Ok <==> buffer.len() >= 1,
            r matches Ok(v) ==> v == le_value(buffer@.take(1)),
            r matches Err(Error::Value(m)) ==> m@ == "invalid little endian buffer"@,
    {
        if buffer.len() >= 1 {
            proof {
                lemma_single_byte(buffer[0], buffer@);
            }
            Ok(buffer[0])
        } else {
            Err(Error::Value("invalid little endian buffer".to_owned()))
        }
    }
}

impl LittleEndianConvert for i16 {
    fn into_little_endian(self) -> (bytes: Vec<u8>)
        ensures
            bytes@ == signed_le_bytes(self as int, 2),
    {
        write_i16_le(self)
    }

    fn from_little_endian(buffer: Vec<u8>) -> (r: Result<i16, Error>)
        ensures
            r is Ok <==> buffer.len() >= 2,
            r matches Ok(v) ==> v == signed_le_value(buffer@, 2),
    {
        match read_i16_le(buffer) {
            Ok(v) => Ok(v),
            Err(e) => Err(Error::Value(e.to_string())),
        }
    }
}

impl LittleEndianConvert for u16 {
    fn into_little_endian(self) -> (bytes: Vec<u8>)
        ensures
            bytes@ == le_bytes(self as nat, 2),
    {
        write_u16_le(self)
    }

    fn from_little_endian(buffer: Vec<u8>) -> (r: Result<u16, Error>)
        ensures
            r is Ok <==> buffer.len() >= 2,
            r matches Ok(v) ==> v == le_value(buffer@.take(2)),
    {
        match read_u16_le(buffer) {
            Ok(v) => Ok(v),
            Err(e) => Err(Error::Value(e.to_string())),
        }
    }
}

impl LittleEndianConvert for i32 {
    fn into_little_endian(self) -> (bytes: Vec<u8>)
        ensures
            bytes@ == signed_le_bytes(self as int, 4),
    {
        write_i32_le(self)
    }

    fn from_little_endian(buffer: Vec<u8>) -> (r: Result<i32, Error>)
        ensures
            r is Ok <==> buffer.len() >= 4,
            r matches Ok(v) ==> v == signed_le_value(buffer@, 4),
    {
        match read_i32_le(buffer) {
            Ok(v) => Ok(v),
            Err(e) => Err(Error::Value(e.to_string())),
        }
    }
}

impl LittleEndianConvert for u32 {
    fn into_little_endian(self) -> (bytes: Vec<u8>)
        ensures
            bytes@ == le_bytes(self as nat, 4),
    {
        write_u32_le(self)
    }

    fn from_little_endian(buffer: Vec<u8>) -> (r: Result<u32, Error>)
        ensures
            r is Ok <==> buffer.len() >= 4,
            r matches Ok(v) ==> v == le_value(buffer@.take(4)),
    {
        match read_u32_le(buffer) {
            Ok(v) => Ok(v),
            Err(e) => Err(Error::Value(e.to_string())),
        }
    }
}

impl LittleEndianConvert for i64 {
    fn into_little_endian(self) -> (bytes: Vec<u8>)
        ensures
            bytes@ == signed_le_bytes(self as int, 8),
    {
        write_i64_le(self)
    }

    fn from_little_endian(buffer: Vec<u8>) -> (r: Result<i64, Error>)
        ensures
            r is Ok <==> buffer.len() >= 8,
            r matches Ok(v) ==> v == signed_le_value(buffer@, 8),
    {
        match read_i64_le(buffer) {
            Ok(v) => Ok(v),
            Err(e) => Err(Error::Value(e.to_string())),
        }
    }
}

/// Reading a `i8` back from the bytes that `i8::into_little_endian` gives
/// yields the value, whatever bytes follow them.
pub proof fn lemma_i8_little_endian_round_trip(x: i8, rest: Seq<u8>)
    ensures
        signed_le_bytes(x as int, 1).len() == 1,
        signed_le_value(signed_le_bytes(x as int, 1) + rest, 1) == x,
{
    lemma_pow256_values();
    lemma_signed_le_round_trip(x as int, 1, rest);
}

/// Reading a `u8` back from the bytes that `u8::into_little_endian` gives
/// yields the value, whatever bytes follow them.
pub proof fn lemma_u8_little_endian_round_trip(x: u8, rest: Seq<u8>)
    ensures
        le_bytes(x as nat, 1).len() == 1,
        le_value((le_bytes(x as nat, 1) + rest).take(1)) == x,
{
    lemma_pow256_values();
    lemma_unsigned_le_round_trip(x as nat, 1, rest);
}

/// Reading a `i16` back from the bytes that `i16::into_little_endian` gives
/// yields the value, whatever bytes follow them.
pub proof fn lemma_i16_little_endian_round_trip(x: i16, rest: Seq<u8>)
    ensures
        signed_le_bytes(x as int, 2).len() == 2,
        signed_le_value(signed_le_bytes(x as int, 2) + rest, 2) == x,
{
    lemma_pow256_values();
    lemma_signed_le_round_trip(x as int, 2, rest);
}

/// Reading a `u16` back from the bytes that `u16::into_little_endian` gives
/// yields the value, whatever bytes follow them.
pub proof fn lemma_u16_little_endian_round_trip(x: u16, rest: Seq<u8>)
    ensures
        le_bytes(x as nat, 2).len() == 2,
        le_value((le_bytes(x as nat, 2) + rest).take(2)) == x,
{
    lemma_pow256_values();
    lemma_unsigned_le_round_trip(x as nat, 2, rest);
}

/// Reading a `i32` back from the bytes that `i32::into_little_endian` gives
/// yields the value, whatever bytes follow them.
pub proof fn lemma_i32_little_endian_round_trip(x: i32, rest: Seq<u8>)
    ensures
        signed_le_bytes(x as int, 4).len() == 4,
        signed_le_value(signed_le_bytes(x as int, 4) + rest, 4) == x,
{
    lemma_pow256_values();
    lemma_signed_le_round_trip(x as int, 4, rest);
}

/// Reading a `u32` back from the bytes that `u32::into_little_endian` gives
/// yields the value, whatever bytes follow them.
pub proof fn lemma_u32_little_endian_round_trip(x: u32, rest: Seq<u8>)
    ensures
        le_bytes(x as nat, 4).len() == 4,
        le_value((le_bytes(x as nat, 4) + rest).take(4)) == x,
{
    lemma_pow256_values();
    lemma_unsigned_le_round_trip(x as nat, 4, rest);
}

/// Reading a `i64` back from the bytes that `i64::into_little_endian` gives
/// yields the value, whatever bytes follow them.
pub proof fn lemma_i64_little_endian_round_trip(x: i64, rest: Seq<u8>)
    ensures
        signed_le_bytes(x as int, 8).len() == 8,
        signed_le_value(signed_le_bytes(x as int, 8) + rest, 8) == x,
{
    lemma_pow256_values();
    lemma_signed_le_round_trip(x as int, 8, rest);
}

} // verus!
