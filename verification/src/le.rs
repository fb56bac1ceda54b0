//! Little-endian integers: how both wire protocols write numbers.

use vstd::prelude::*;

verus! {

/// The two bytes of `x`, least significant first.
pub open spec fn u16_le(x: u16) -> Seq<u8> {
    seq![(x % 0x100) as u8, (x / 0x100) as u8]
}

/// The four bytes of `x`, least significant first.
pub open spec fn u32_le(x: u32) -> Seq<u8> {
    seq![
        (x % 0x100) as u8,
        (x / 0x100 % 0x100) as u8,
        (x / 0x1_0000 % 0x100) as u8,
        (x / 0x100_0000) as u8,
    ]
}

/// The number that two bytes write, least significant first.
pub open spec fn le_u16(b0: u8, b1: u8) -> u16 {
    (b0 + 0x100 * b1) as u16
}

/// The number that four bytes write, least significant first.
pub open spec fn le_u32(b0: u8, b1: u8, b2: u8, b3: u8) -> u32 {
    (b0 + 0x100 * b1 + 0x1_0000 * b2 + 0x100_0000 * b3) as u32
}

/// The byte that carries a signed step: two's complement.
pub open spec fn i8_byte(v: i8) -> u8 {
    (v as int % 0x100) as u8
}

/// The signed step that a byte carries.
pub open spec fn byte_i8(b: u8) -> i8 {
    if b < 0x80 {
        b as i8
    } else {
        (b - 0x100) as i8
    }
}

/// Reading what was written gives the number back.
pub proof fn u16_round_trip(x: u16)
    ensures
        le_u16(u16_le(x)[0], u16_le(x)[1]) == x,
{
}

/// Reading what was written gives the number back.
pub proof fn u32_round_trip(x: u32)
    ensures
        le_u32(u32_le(x)[0], u32_le(x)[1], u32_le(x)[2], u32_le(x)[3]) == x,
{
}

/// A signed step survives its byte.
pub proof fn i8_round_trip(v: i8)
    ensures
        byte_i8(i8_byte(v)) == v,
{
}

pub fn u16_to_le(x: u16) -> (r: [u8; 2])
    ensures
        r@ == u16_le(x),
{
    let r = [(x % 0x100) as u8, (x / 0x100) as u8];
    assert(r@ =~= u16_le(x));
    r
}

pub fn u32_to_le(x: u32) -> (r: [u8; 4])
    ensures
        r@ == u32_le(x),
{
    let r = [
        (x % 0x100) as u8,
        (x / 0x100 % 0x100) as u8,
        (x / 0x1_0000 % 0x100) as u8,
        (x / 0x100_0000) as u8,
    ];
    assert(r@ =~= u32_le(x));
    r
}

pub fn u16_from_le(b0: u8, b1: u8) -> (r: u16)
    ensures
        r == le_u16(b0, b1),
{
    b0 as u16 + 0x100 * b1 as u16
}

pub fn u32_from_le(b0: u8, b1: u8, b2: u8, b3: u8) -> (r: u32)
    ensures
        r == le_u32(b0, b1, b2, b3),
{
    b0 as u32 + 0x100 * b1 as u32 + 0x1_0000 * b2 as u32 + 0x100_0000 * b3 as u32
}

pub fn i8_to_byte(v: i8) -> (r: u8)
    ensures
        r == i8_byte(v),
{
    if v >= 0 {
        v as u8
    } else {
        (v as i16 + 0x100) as u8
    }
}

pub fn i8_from_byte(b: u8) -> (r: i8)
    ensures
        r == byte_i8(b),
{
    if b < 0x80 {
        b as i8
    } else {
        (b as i16 - 0x100) as i8
    }
}

/// Two bytes write a number in base 256, the low digit first; and every pair
/// of bytes writes one.
pub proof fn u16_is_written_low_byte_first(x: u16, b0: u8, b1: u8)
    ensures
        u16_le(x).len() == 2,
        u16_le(x)[0] + 256 * u16_le(x)[1] == x,
        le_u16(b0, b1) == b0 + 256 * b1,
        u16_le(le_u16(b0, b1)) == seq![b0, b1],
{
    assert(u16_le(le_u16(b0, b1)) =~= seq![b0, b1]);
}

/// Four bytes write a number in base 256, the low digit first; and every
/// four bytes write one.
pub proof fn u32_is_written_low_byte_first(x: u32, b0: u8, b1: u8, b2: u8, b3: u8)
    ensures
        u32_le(x).len() == 4,
        u32_le(x)[0] + 256 * u32_le(x)[1] + 65536 * u32_le(x)[2] + 16777216 * u32_le(x)[3] == x,
        le_u32(b0, b1, b2, b3) == b0 + 256 * b1 + 65536 * b2 + 16777216 * b3,
        u32_le(le_u32(b0, b1, b2, b3)) == seq![b0, b1, b2, b3],
{
    assert(u32_le(le_u32(b0, b1, b2, b3)) =~= seq![b0, b1, b2, b3]);
}

/// Steps up are their own byte, and steps down count back from 256.
pub proof fn steps_are_twos_complement(v: i8, b: u8)
    ensures
        v >= 0 ==> i8_byte(v) == v,
        v < 0 ==> i8_byte(v) == 256 + v,
        b < 128 ==> byte_i8(b) == b,
        b >= 128 ==> byte_i8(b) == b - 256,
        i8_byte(byte_i8(b)) == b,
{
}

} // verus!
