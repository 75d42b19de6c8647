//! The calls into `byteorder` that encode and decode integers.
//!
//! Each function here makes one call of `byteorder::ByteOrder` on `BigEndian`
//! or `LittleEndian` and is trusted: its contract restates what that crate's
//! source does (a `from_be_bytes`/`from_le_bytes` of the first bytes of the
//! slice, or a copy of `to_be_bytes`/`to_le_bytes` into them; the signed
//! forms go through the unsigned ones with an `as` cast). Each call panics
//! when the slice is shorter than the integer, which `requires` rules out.
use vstd::prelude::*;
use byteorder::{BigEndian, ByteOrder, LittleEndian};
use crate::encoding::{be_to_nat, le_to_nat, nat_to_be, nat_to_le, signed_of, unsigned_of};

verus! {
/// `BigEndian::read_u16`: reads the first 2 bytes of `buf`, most significant byte first,
/// as an unsigned 16-bit integer.
#[verifier::external_body]
pub(crate) fn be_read_u16(buf: &[u8]) -> (r: u16)
    requires
        buf@.len() >= 2,
    ensures
        r == be_to_nat(buf@.subrange(0, 2)),
{
    BigEndian::read_u16(buf)
}

/// `BigEndian::write_u16`: overwrites the first 2 bytes of `buf` with `n`,
/// most significant byte first, and leaves the rest of `buf` as it was.
#[verifier::external_body]
pub(crate) fn be_write_u16(buf: &mut [u8], n: u16)
    requires
        old(buf)@.len() >= 2,
    ensures
        final(buf)@ == nat_to_be(n as nat, 2) + old(buf)@.skip(2),
{
    BigEndian::write_u16(buf, n)
}

/// `BigEndian::read_u32`: reads the first 4 bytes of `buf`, most significant byte first,
/// as an unsigned 32-bit integer.
#[verifier::external_body]
pub(crate) fn be_read_u32(buf: &[u8]) -> (r: u32)
    requires
        buf@.len() >= 4,
    ensures
        r == be_to_nat(buf@.subrange(0, 4)),
{
    BigEndian::read_u32(buf)
}

/// `BigEndian::write_u32`: overwrites the first 4 bytes of `buf` with `n`,
/// most significant byte first, and leaves the rest of `buf` as it was.
#[verifier::external_body]
pub(crate) fn be_write_u32(buf: &mut [u8], n: u32)
    requires
        old(buf)@.len() >= 4,
    ensures
        final(buf)@ == nat_to_be(n as nat, 4) + old(buf)@.skip(4),
{
    BigEndian::write_u32(buf, n)
}

/// `BigEndian::read_u64`: reads the first 8 bytes of `buf`, most significant byte first,
/// as an unsigned 64-bit integer.
#[verifier::external_body]
pub(crate) fn be_read_u64(buf: &[u8]) -> (r: u64)
    requires
        buf@.len() >= 8,
    ensures
        r == be_to_nat(buf@.subrange(0, 8)),
{
    BigEndian::read_u64(buf)
}

/// `BigEndian::write_u64`: overwrites the first 8 bytes of `buf` with `n`,
/// most significant byte first, and leaves the rest of `buf` as it was.
#[verifier::external_body]
pub(crate) fn be_write_u64(buf: &mut [u8], n: u64)
    requires
        old(buf)@.len() >= 8,
    ensures
        final(buf)@ == nat_to_be(n as nat, 8) + old(buf)@.skip(8),
{
    BigEndian::write_u64(buf, n)
}

/// `BigEndian::read_i16`: reads the first 2 bytes of `buf`, most significant byte first,
/// as the two's complement of a 16-bit integer.
#[verifier::external_body]
pub(crate) fn be_read_i16(buf: &[u8]) -> (r: i16)
    requires
        buf@.len() >= 2,
    ensures
        r as int == signed_of(be_to_nat(buf@.subrange(0, 2)), 2),
{
    BigEndian::read_i16(buf)
}

/// `BigEndian::write_i16`: overwrites the first 2 bytes of `buf` with `n`,
/// most significant byte first, and leaves the rest of `buf` as it was.
#[verifier::external_body]
pub(crate) fn be_write_i16(buf: &mut [u8], n: i16)
    requires
        old(buf)@.len() >= 2,
    ensures
        final(buf)@ == nat_to_be(unsigned_of(n as int, 2), 2) + old(buf)@.skip(2),
{
    BigEndian::write_i16(buf, n)
}

/// `BigEndian::read_i32`: reads the first 4 bytes of `buf`, most significant byte first,
/// as the two's complement of a 32-bit integer.
#[verifier::external_body]
pub(crate) fn be_read_i32(buf: &[u8]) -> (r: i32)
    requires
        buf@.len() >= 4,
    ensures
        r as int == signed_of(be_to_nat(buf@.subrange(0, 4)), 4),
{
    BigEndian::read_i32(buf)
}

/// `BigEndian::write_i32`: overwrites the first 4 bytes of `buf` with `n`,
/// most significant byte first, and leaves the rest of `buf` as it was.
#[verifier::external_body]
pub(crate) fn be_write_i32(buf: &mut [u8], n: i32)
    requires
        old(buf)@.len() >= 4,
    ensures
        final(buf)@ == nat_to_be(unsigned_of(n as int, 4), 4) + old(buf)@.skip(4),
{
    BigEndian::write_i32(buf, n)
}

/// `BigEndian::read_i64`: reads the first 8 bytes of `buf`, most significant byte first,
/// as the two's complement of a 64-bit integer.
#[verifier::external_body]
pub(crate) fn be_read_i64(buf: &[u8]) -> (r: i64)
    requires
        buf@.len() >= 8,
    ensures
        r as int == signed_of(be_to_nat(buf@.subrange(0, 8)), 8),
{
    BigEndian::read_i64(buf)
}

/// `BigEndian::write_i64`: overwrites the first 8 bytes of `buf` with `n`,
/// most significant byte first, and leaves the rest of `buf` as it was.
#[verifier::external_body]
pub(crate) fn be_write_i64(buf: &mut [u8], n: i64)
    requires
        old(buf)@.len() >= 8,
    ensures
        final(buf)@ == nat_to_be(unsigned_of(n as int, 8), 8) + old(buf)@.skip(8),
{
    BigEndian::write_i64(buf, n)
}

/// `LittleEndian::read_u16`: reads the first 2 bytes of `buf`, least significant byte first,
/// as an unsigned 16-bit integer.
#[verifier::external_body]
pub(crate) fn le_read_u16(buf: &[u8]) -> (r: u16)
    requires
        buf@.len() >= 2,
    ensures
        r == le_to_nat(buf@.subrange(0, 2)),
{
    LittleEndian::read_u16(buf)
}

/// `LittleEndian::write_u16`: overwrites the first 2 bytes of `buf` with `n`,
/// least significant byte first, and leaves the rest of `buf` as it was.
#[verifier::external_body]
pub(crate) fn le_write_u16(buf: &mut [u8], n: u16)
    requires
        old(buf)@.len() >= 2,
    ensures
        final(buf)@ == nat_to_le(n as nat, 2) + old(buf)@.skip(2),
{
    LittleEndian::write_u16(buf, n)
}

/// `LittleEndian::read_u32`: reads the first 4 bytes of `buf`, least significant byte first,
/// as an unsigned 32-bit integer.
#[verifier::external_body]
pub(crate) fn le_read_u32(buf: &[u8]) -> (r: u32)
    requires
        buf@.len() >= 4,
    ensures
        r == le_to_nat(buf@.subrange(0, 4)),
{
    LittleEndian::read_u32(buf)
}

/// `LittleEndian::write_u32`: overwrites the first 4 bytes of `buf` with `n`,
/// least significant byte first, and leaves the rest of `buf` as it was.
#[verifier::external_body]
pub(crate) fn le_write_u32(buf: &mut [u8], n: u32)
    requires
        old(buf)@.len() >= 4,
    ensures
        final(buf)@ == nat_to_le(n as nat, 4) + old(buf)@.skip(4),
{
    LittleEndian::write_u32(buf, n)
}

/// `LittleEndian::read_u64`: reads the first 8 bytes of `buf`, least significant byte first,
/// as an unsigned 64-bit integer.
#[verifier::external_body]
pub(crate) fn le_read_u64(buf: &[u8]) -> (r: u64)
    requires
        buf@.len() >= 8,
    ensures
        r == le_to_nat(buf@.subrange(0, 8)),
{
    LittleEndian::read_u64(buf)
}

/// `LittleEndian::write_u64`: overwrites the first 8 bytes of `buf` with `n`,
/// least significant byte first, and leaves the rest of `buf` as it was.
#[verifier::external_body]
pub(crate) fn le_write_u64(buf: &mut [u8], n: u64)
    requires
        old(buf)@.len() >= 8,
    ensures
        final(buf)@ == nat_to_le(n as nat, 8) + old(buf)@.skip(8),
{
    LittleEndian::write_u64(buf, n)
}

/// `LittleEndian::read_i16`: reads the first 2 bytes of `buf`, least significant byte first,
/// as the two's complement of a 16-bit integer.
#[verifier::external_body]
pub(crate) fn le_read_i16(buf: &[u8]) -> (r: i16)
    requires
        buf@.len() >= 2,
    ensures
        r as int == signed_of(le_to_nat(buf@.subrange(0, 2)), 2),
{
    LittleEndian::read_i16(buf)
}

/// `LittleEndian::write_i16`: overwrites the first 2 bytes of `buf` with `n`,
/// least significant byte first, and leaves the rest of `buf` as it was.
#[verifier::external_body]
pub(crate) fn le_write_i16(buf: &mut [u8], n: i16)
    requires
        old(buf)@.len() >= 2,
    ensures
        final(buf)@ == nat_to_le(unsigned_of(n as int, 2), 2) + old(buf)@.skip(2),
{
    LittleEndian::write_i16(buf, n)
}

/// `LittleEndian::read_i32`: reads the first 4 bytes of `buf`, least significant byte first,
/// as the two's complement of a 32-bit integer.
#[verifier::external_body]
pub(crate) fn le_read_i32(buf: &[u8]) -> (r: i32)
    requires
        buf@.len() >= 4,
    ensures
        r as int == signed_of(le_to_nat(buf@.subrange(0, 4)), 4),
{
    LittleEndian::read_i32(buf)
}

/// `LittleEndian::write_i32`: overwrites the first 4 bytes of `buf` with `n`,
/// least significant byte first, and leaves the rest of `buf` as it was.
#[verifier::external_body]
pub(crate) fn le_write_i32(buf: &mut [u8], n: i32)
    requires
        old(buf)@.len() >= 4,
    ensures
        final(buf)@ == nat_to_le(unsigned_of(n as int, 4), 4) + old(buf)@.skip(4),
{
    LittleEndian::write_i32(buf, n)
}

/// `LittleEndian::read_i64`: reads the first 8 bytes of `buf`, least significant byte first,
/// as the two's complement of a 64-bit integer.
#[verifier::external_body]
pub(crate) fn le_read_i64(buf: &[u8]) -> (r: i64)
    requires
        buf@.len() >= 8,
    ensures
        r as int == signed_of(le_to_nat(buf@.subrange(0, 8)), 8),
{
    LittleEndian::read_i64(buf)
}

/// `LittleEndian::write_i64`: overwrites the first 8 bytes of `buf` with `n`,
/// least significant byte first, and leaves the rest of `buf` as it was.
#[verifier::external_body]
pub(crate) fn le_write_i64(buf: &mut [u8], n: i64)
    requires
        old(buf)@.len() >= 8,
    ensures
        final(buf)@ == nat_to_le(unsigned_of(n as int, 8), 8) + old(buf)@.skip(8),
{
    LittleEndian::write_i64(buf, n)
}

} // verus!
