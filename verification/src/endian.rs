//! The two byte orders, as values of multi-byte fields.
//!
//! The spec functions say which number a run of bytes stands for in each
//! order. The executable readers hand the bytes to the `byteorder` crate; what
//! is assumed of that crate is stated on the private functions at the end.

use vstd::prelude::*;
use byteorder::{BigEndian, ByteOrder, LittleEndian};
use crate::lowlevel::TIFFByteOrder;

verus! {

/// The number that the first two bytes of `b` stand for, in the given order.
pub open spec fn u16_value(order: TIFFByteOrder, b: Seq<u8>) -> int {
    match order {
        TIFFByteOrder::LittleEndian => b[0] as int + 0x100 * (b[1] as int),
        TIFFByteOrder::BigEndian => 0x100 * (b[0] as int) + b[1] as int,
    }
}

/// The number that the first four bytes of `b` stand for, in the given order.
pub open spec fn u32_value(order: TIFFByteOrder, b: Seq<u8>) -> int {
    match order {
        TIFFByteOrder::LittleEndian => b[0] as int + 0x100 * (b[1] as int) + 0x1_0000 * (
        b[2] as int) + 0x100_0000 * (b[3] as int),
        TIFFByteOrder::BigEndian => 0x100_0000 * (b[0] as int) + 0x1_0000 * (b[1] as int) + 0x100
            * (b[2] as int) + b[3] as int,
    }
}

/// The number that the first eight bytes of `b` stand for, in the given order.
pub open spec fn u64_value(order: TIFFByteOrder, b: Seq<u8>) -> int {
    match order {
        TIFFByteOrder::LittleEndian => u32_value(order, b) + 0x1_0000_0000 * u32_value(
            order,
            b.skip(4),
        ),
        TIFFByteOrder::BigEndian => 0x1_0000_0000 * u32_value(order, b) + u32_value(
            order,
            b.skip(4),
        ),
    }
}

/// The signed number that the 16-bit pattern `v` stands for in two's complement.
pub open spec fn signed16(v: int) -> int {
    if v < 0x8000 {
        v
    } else {
        v - 0x1_0000
    }
}

/// The signed number that the 32-bit pattern `v` stands for in two's complement.
pub open spec fn signed32(v: int) -> int {
    if v < 0x8000_0000 {
        v
    } else {
        v - 0x1_0000_0000
    }
}

/// The signed number that the byte `v` stands for in two's complement.
pub open spec fn signed8(v: int) -> int {
    if v < 0x80 {
        v
    } else {
        v - 0x100
    }
}

/// Reads an unsigned 16-bit value from the start of `buf`.
pub fn read_u16(order: TIFFByteOrder, buf: &[u8]) -> (value: u16)
    requires
        buf@.len() >= 2,
    ensures
        value == u16_value(order, buf@),
{
    match order {
        TIFFByteOrder::LittleEndian => le_read_u16(buf),
        TIFFByteOrder::BigEndian => be_read_u16(buf),
    }
}

/// Reads an unsigned 32-bit value from the start of `buf`.
pub fn read_u32(order: TIFFByteOrder, buf: &[u8]) -> (value: u32)
    requires
        buf@.len() >= 4,
    ensures
        value == u32_value(order, buf@),
{
    match order {
        TIFFByteOrder::LittleEndian => le_read_u32(buf),
        TIFFByteOrder::BigEndian => be_read_u32(buf),
    }
}

/// Reads an unsigned 64-bit value from the start of `buf`.
pub fn read_u64(order: TIFFByteOrder, buf: &[u8]) -> (value: u64)
    requires
        buf@.len() >= 8,
    ensures
        value == u64_value(order, buf@),
{
    match order {
        TIFFByteOrder::LittleEndian => le_read_u64(buf),
        TIFFByteOrder::BigEndian => be_read_u64(buf),
    }
}

/// Reads a signed 16-bit value from the start of `buf`.
pub fn read_i16(order: TIFFByteOrder, buf: &[u8]) -> (value: i16)
    requires
        buf@.len() >= 2,
    ensures
        value == signed16(u16_value(order, buf@)),
{
    match order {
        TIFFByteOrder::LittleEndian => le_read_i16(buf),
        TIFFByteOrder::BigEndian => be_read_i16(buf),
    }
}

/// Reads a signed 32-bit value from the start of `buf`.
pub fn read_i32(order: TIFFByteOrder, buf: &[u8]) -> (value: i32)
    requires
        buf@.len() >= 4,
    ensures
        value == signed32(u32_value(order, buf@)),
{
    match order {
        TIFFByteOrder::LittleEndian => le_read_i32(buf),
        TIFFByteOrder::BigEndian => be_read_i32(buf),
    }
}

/// `byteorder::LittleEndian::read_u16`. Assumed: on a buffer of at least two
/// bytes it returns the first byte plus 256 times the second.
#[verifier::external_body]
fn le_read_u16(buf: &[u8]) -> (value: u16)
    requires
        buf@.len() >= 2,
    ensures
        value == u16_value(TIFFByteOrder::LittleEndian, buf@),
{
    LittleEndian::read_u16(buf)
}

/// `byteorder::BigEndian::read_u16`. Assumed: on a buffer of at least two
/// bytes it returns 256 times the first byte plus the second.
#[verifier::external_body]
fn be_read_u16(buf: &[u8]) -> (value: u16)
    requires
        buf@.len() >= 2,
    ensures
        value == u16_value(TIFFByteOrder::BigEndian, buf@),
{
    BigEndian::read_u16(buf)
}

/// `byteorder::LittleEndian::read_u32`. Assumed: on a buffer of at least four
/// bytes it returns the number whose base-256 digits are the first four
/// bytes, lowest digit first.
#[verifier::external_body]
fn le_read_u32(buf: &[u8]) -> (value: u32)
    requires
        buf@.len() >= 4,
    ensures
        value == u32_value(TIFFByteOrder::LittleEndian, buf@),
{
    LittleEndian::read_u32(buf)
}

/// `byteorder::BigEndian::read_u32`. Assumed: on a buffer of at least four
/// bytes it returns the number whose base-256 digits are the first four
/// bytes, highest digit first.
#[verifier::external_body]
fn be_read_u32(buf: &[u8]) -> (value: u32)
    requires
        buf@.len() >= 4,
    ensures
        value == u32_value(TIFFByteOrder::BigEndian, buf@),
{
    BigEndian::read_u32(buf)
}

/// `byteorder::LittleEndian::read_u64`. Assumed: on a buffer of at least eight
/// bytes it returns the number whose base-256 digits are the first eight
/// bytes, lowest digit first.
#[verifier::external_body]
fn le_read_u64(buf: &[u8]) -> (value: u64)
    requires
        buf@.len() >= 8,
    ensures
        value == u64_value(TIFFByteOrder::LittleEndian, buf@),
{
    LittleEndian::read_u64(buf)
}

/// `byteorder::BigEndian::read_u64`. Assumed: on a buffer of at least eight
/// bytes it returns the number whose base-256 digits are the first eight
/// bytes, highest digit first.
#[verifier::external_body]
fn be_read_u64(buf: &[u8]) -> (value: u64)
    requires
        buf@.len() >= 8,
    ensures
        value == u64_value(TIFFByteOrder::BigEndian, buf@),
{
    BigEndian::read_u64(buf)
}

/// `byteorder::LittleEndian::read_i16`. Assumed: it returns the little-endian
/// unsigned value of the first two bytes, read as two's complement.
#[verifier::external_body]
fn le_read_i16(buf: &[u8]) -> (value: i16)
    requires
        buf@.len() >= 2,
    ensures
        value == signed16(u16_value(TIFFByteOrder::LittleEndian, buf@)),
{
    LittleEndian::read_i16(buf)
}

/// `byteorder::BigEndian::read_i16`. Assumed: it returns the big-endian
/// unsigned value of the first two bytes, read as two's complement.
#[verifier::external_body]
fn be_read_i16(buf: &[u8]) -> (value: i16)
    requires
        buf@.len() >= 2,
    ensures
        value == signed16(u16_value(TIFFByteOrder::BigEndian, buf@)),
{
    BigEndian::read_i16(buf)
}

/// `byteorder::LittleEndian::read_i32`. Assumed: it returns the little-endian
/// unsigned value of the first four bytes, read as two's complement.
#[verifier::external_body]
fn le_read_i32(buf: &[u8]) -> (value: i32)
    requires
        buf@.len() >= 4,
    ensures
        value == signed32(u32_value(TIFFByteOrder::LittleEndian, buf@)),
{
    LittleEndian::read_i32(buf)
}

/// `byteorder::BigEndian::read_i32`. Assumed: it returns the big-endian
/// unsigned value of the first four bytes, read as two's complement.
#[verifier::external_body]
fn be_read_i32(buf: &[u8]) -> (value: i32)
    requires
        buf@.len() >= 4,
    ensures
        value == signed32(u32_value(TIFFByteOrder::BigEndian, buf@)),
{
    BigEndian::read_i32(buf)
}

} // verus!
