//! Byte order: how an unsigned number is laid out as a fixed number of bytes.

use byteorder::{BigEndian, ByteOrder, LittleEndian};
use vstd::prelude::*;

verus! {

/// The order in which the bytes of a number follow one another.
#[derive(Clone, Copy, Debug, PartialEq, Eq, Structural)]
pub enum Endianness {
    /// Most significant byte first.
    Big,
    /// Least significant byte first.
    Little,
}

/// The number of values that `width` bytes can tell apart: 256 to the power `width`.
pub open spec fn radix(width: nat) -> nat
    decreases width,
{
    if width == 0 {
        1
    } else {
        256 * radix((width - 1) as nat)
    }
}

/// The `width` lowest base-256 digits of `n`, most significant first.
pub open spec fn be_digits(n: nat, width: nat) -> Seq<u8>
    decreases width,
{
    if width == 0 {
        Seq::empty()
    } else {
        be_digits(n / 256, (width - 1) as nat).push((n % 256) as u8)
    }
}

/// The number whose base-256 digits, most significant first, are `digits`.
pub open spec fn be_number(digits: Seq<u8>) -> nat
    decreases digits.len(),
{
    if digits.len() == 0 {
        0
    } else {
        256 * be_number(digits.drop_last()) + digits.last() as nat
    }
}

/// The `width` bytes that stand for `n` in the given order.
pub open spec fn digits(n: nat, width: nat, order: Endianness) -> Seq<u8> {
    match order {
        Endianness::Big => be_digits(n, width),
        Endianness::Little => be_digits(n, width).reverse(),
    }
}

/// The number that `bytes` stand for in the given order.
pub open spec fn number(bytes: Seq<u8>, order: Endianness) -> nat {
    match order {
        Endianness::Big => be_number(bytes),
        Endianness::Little => be_number(bytes.reverse()),
    }
}

/// The radix of each width that a value of the format has.
pub proof fn lemma_radix_values()
    ensures
        radix(1) == 0x100,
        radix(2) == 0x1_0000,
        radix(4) == 0x1_0000_0000,
        radix(8) == 0x1_0000_0000_0000_0000,
{
    reveal_with_fuel(radix, 9);
}

/// A number laid out in `width` bytes takes `width` bytes.
pub proof fn lemma_be_digits_len(n: nat, width: nat)
    ensures
        be_digits(n, width).len() == width,
    decreases width,
{
    if width > 0 {
        lemma_be_digits_len(n / 256, (width - 1) as nat);
    }
}

/// Laying a number out in big-endian order and reading the bytes back gives the number,
/// as long as it fits in the width.
pub proof fn lemma_be_number_of_digits(n: nat, width: nat)
    requires
        n < radix(width),
    ensures
        be_number(be_digits(n, width)) == n,
    decreases width,
{
    if width > 0 {
        let rest = be_digits(n / 256, (width - 1) as nat);
        lemma_be_number_of_digits(n / 256, (width - 1) as nat);
        assert(be_digits(n, width).drop_last() =~= rest);
    }
}

/// In either order, the bytes that stand for a number are `width` long and stand for
/// that number again.
pub proof fn lemma_number_of_digits(n: nat, width: nat, order: Endianness)
    requires
        n < radix(width),
    ensures
        digits(n, width, order).len() == width,
        number(digits(n, width, order), order) == n,
{
    lemma_be_digits_len(n, width);
    lemma_be_number_of_digits(n, width);
    assert(be_digits(n, width).reverse().reverse() =~= be_digits(n, width));
}

/// `<byteorder::BigEndian as byteorder::ByteOrder>::write_u16`, on a buffer of 2 bytes:
/// the 2 bytes of `n`, most significant first.
#[verifier::external_body]
fn be_write_u16(n: u16) -> (r: [u8; 2])
    ensures
        r@ == be_digits(n as nat, 2),
{
    let mut buf: [u8; 2] = [0u8; 2];
    BigEndian::write_u16(&mut buf, n);
    buf
}

/// `<byteorder::BigEndian as byteorder::ByteOrder>::read_u16`: the number that the
/// first 2 bytes of `buf` stand for, most significant first. It panics on fewer bytes.
#[verifier::external_body]
fn be_read_u16(buf: &[u8]) -> (r: u16)
    requires
        buf@.len() >= 2,
    ensures
        r as nat == be_number(buf@.subrange(0, 2)),
{
    BigEndian::read_u16(buf)
}

/// `<byteorder::LittleEndian as byteorder::ByteOrder>::write_u16`, on a buffer of 2 bytes:
/// the 2 bytes of `n`, least significant first.
#[verifier::external_body]
fn le_write_u16(n: u16) -> (r: [u8; 2])
    ensures
        r@ == be_digits(n as nat, 2).reverse(),
{
    let mut buf: [u8; 2] = [0u8; 2];
    LittleEndian::write_u16(&mut buf, n);
    buf
}

/// `<byteorder::LittleEndian as byteorder::ByteOrder>::read_u16`: the number that the
/// first 2 bytes of `buf` stand for, least significant first. It panics on fewer bytes.
#[verifier::external_body]
fn le_read_u16(buf: &[u8]) -> (r: u16)
    requires
        buf@.len() >= 2,
    ensures
        r as nat == be_number(buf@.subrange(0, 2).reverse()),
{
    LittleEndian::read_u16(buf)
}

/// `<byteorder::BigEndian as byteorder::ByteOrder>::write_u32`, on a buffer of 4 bytes:
/// the 4 bytes of `n`, most significant first.
#[verifier::external_body]
fn be_write_u32(n: u32) -> (r: [u8; 4])
    ensures
        r@ == be_digits(n as nat, 4),
{
    let mut buf: [u8; 4] = [0u8; 4];
    BigEndian::write_u32(&mut buf, n);
    buf
}

/// `<byteorder::BigEndian as byteorder::ByteOrder>::read_u32`: the number that the
/// first 4 bytes of `buf` stand for, most significant first. It panics on fewer bytes.
#[verifier::external_body]
fn be_read_u32(buf: &[u8]) -> (r: u32)
    requires
        buf@.len() >= 4,
    ensures
        r as nat == be_number(buf@.subrange(0, 4)),
{
    BigEndian::read_u32(buf)
}

/// `<byteorder::LittleEndian as byteorder::ByteOrder>::write_u32`, on a buffer of 4 bytes:
/// the 4 bytes of `n`, least significant first.
#[verifier::external_body]
fn le_write_u32(n: u32) -> (r: [u8; 4])
    ensures
        r@ == be_digits(n as nat, 4).reverse(),
{
    let mut buf: [u8; 4] = [0u8; 4];
    LittleEndian::write_u32(&mut buf, n);
    buf
}

/// `<byteorder::LittleEndian as byteorder::ByteOrder>::read_u32`: the number that the
/// first 4 bytes of `buf` stand for, least significant first. It panics on fewer bytes.
#[verifier::external_body]
fn le_read_u32(buf: &[u8]) -> (r: u32)
    requires
        buf@.len() >= 4,
    ensures
        r as nat == be_number(buf@.subrange(0, 4).reverse()),
{
    LittleEndian::read_u32(buf)
}

/// `<byteorder::BigEndian as byteorder::ByteOrder>::write_u64`, on a buffer of 8 bytes:
/// the 8 bytes of `n`, most significant first.
#[verifier::external_body]
fn be_write_u64(n: u64) -> (r: [u8; 8])
    ensures
        r@ == be_digits(n as nat, 8),
{
    let mut buf: [u8; 8] = [0u8; 8];
    BigEndian::write_u64(&mut buf, n);
    buf
}

/// `<byteorder::BigEndian as byteorder::ByteOrder>::read_u64`: the number that the
/// first 8 bytes of `buf` stand for, most significant first. It panics on fewer bytes.
#[verifier::external_body]
fn be_read_u64(buf: &[u8]) -> (r: u64)
    requires
        buf@.len() >= 8,
    ensures
        r as nat == be_number(buf@.subrange(0, 8)),
{
    BigEndian::read_u64(buf)
}

/// `<byteorder::LittleEndian as byteorder::ByteOrder>::write_u64`, on a buffer of 8 bytes:
/// the 8 bytes of `n`, least significant first.
#[verifier::external_body]
fn le_write_u64(n: u64) -> (r: [u8; 8])
    ensures
        r@ == be_digits(n as nat, 8).reverse(),
{
    let mut buf: [u8; 8] = [0u8; 8];
    LittleEndian::write_u64(&mut buf, n);
    buf
}

/// `<byteorder::LittleEndian as byteorder::ByteOrder>::read_u64`: the number that the
/// first 8 bytes of `buf` stand for, least significant first. It panics on fewer bytes.
#[verifier::external_body]
fn le_read_u64(buf: &[u8]) -> (r: u64)
    requires
        buf@.len() >= 8,
    ensures
        r as nat == be_number(buf@.subrange(0, 8).reverse()),
{
    LittleEndian::read_u64(buf)
}

/// The 2 bytes of `n` in the given order.
pub fn u16_to_bytes(n: u16, order: Endianness) -> (r: [u8; 2])
    ensures
        r@ == digits(n as nat, 2, order),
{
    match order {
        Endianness::Big => be_write_u16(n),
        Endianness::Little => le_write_u16(n),
    }
}

/// The number that 2 bytes stand for in the given order.
pub fn u16_from_bytes(bytes: &[u8], order: Endianness) -> (r: u16)
    requires
        bytes@.len() == 2,
    ensures
        r as nat == number(bytes@, order),
{
    assert(bytes@.subrange(0, 2) =~= bytes@);
    match order {
        Endianness::Big => be_read_u16(bytes),
        Endianness::Little => le_read_u16(bytes),
    }
}

/// The 4 bytes of `n` in the given order.
pub fn u32_to_bytes(n: u32, order: Endianness) -> (r: [u8; 4])
    ensures
        r@ == digits(n as nat, 4, order),
{
    match order {
        Endianness::Big => be_write_u32(n),
        Endianness::Little => le_write_u32(n),
    }
}

/// The number that 4 bytes stand for in the given order.
pub fn u32_from_bytes(bytes: &[u8], order: Endianness) -> (r: u32)
    requires
        bytes@.len() == 4,
    ensures
        r as nat == number(bytes@, order),
{
    assert(bytes@.subrange(0, 4) =~= bytes@);
    match order {
        Endianness::Big => be_read_u32(bytes),
        Endianness::Little => le_read_u32(bytes),
    }
}

/// The 8 bytes of `n` in the given order.
pub fn u64_to_bytes(n: u64, order: Endianness) -> (r: [u8; 8])
    ensures
        r@ == digits(n as nat, 8, order),
{
    match order {
        Endianness::Big => be_write_u64(n),
        Endianness::Little => le_write_u64(n),
    }
}

/// The number that 8 bytes stand for in the given order.
pub fn u64_from_bytes(bytes: &[u8], order: Endianness) -> (r: u64)
    requires
        bytes@.len() == 8,
    ensures
        r as nat == number(bytes@, order),
{
    assert(bytes@.subrange(0, 8) =~= bytes@);
    match order {
        Endianness::Big => be_read_u64(bytes),
        Endianness::Little => le_read_u64(bytes),
    }
}

} // verus!
