//! The fixed-width values: signed integers of one, two, four and eight bytes in two's
//! complement, and the bit patterns of the two floating-point widths.

use crate::order::{
    digits, lemma_number_of_digits, lemma_radix_values, number, radix, u16_from_bytes,
    u16_to_bytes, u32_from_bytes, u32_to_bytes, u64_from_bytes, u64_to_bytes, Endianness,
};
use vstd::prelude::*;

verus! {

/// The unsigned number that stands for `v` in two's complement of `width` bytes.
pub open spec fn unsigned(v: int, width: nat) -> nat {
    if v >= 0 {
        v as nat
    } else {
        (v + radix(width)) as nat
    }
}

/// The signed number that `n` stands for in two's complement of `width` bytes.
pub open spec fn signed(n: nat, width: nat) -> int {
    if 2 * n < radix(width) {
        n as int
    } else {
        n - radix(width)
    }
}

/// The byte that stands for `v`.
pub open spec fn byte_bytes(v: i8) -> Seq<u8> {
    seq![unsigned(v as int, 1) as u8]
}

/// The value that one byte stands for.
pub open spec fn byte_value(bytes: Seq<u8>) -> i8 {
    signed(bytes[0] as nat, 1) as i8
}

/// The two bytes that stand for `v` in the given order.
pub open spec fn short_bytes(v: i16, order: Endianness) -> Seq<u8> {
    digits(unsigned(v as int, 2), 2, order)
}

/// The value that two bytes stand for in the given order.
pub open spec fn short_value(bytes: Seq<u8>, order: Endianness) -> i16 {
    signed(number(bytes, order), 2) as i16
}

/// The four bytes that stand for `v` in the given order.
pub open spec fn int_bytes(v: i32, order: Endianness) -> Seq<u8> {
    digits(unsigned(v as int, 4), 4, order)
}

/// The value that four bytes stand for in the given order.
pub open spec fn int_value(bytes: Seq<u8>, order: Endianness) -> i32 {
    signed(number(bytes, order), 4) as i32
}

/// The eight bytes that stand for `v` in the given order.
pub open spec fn long_bytes(v: i64, order: Endianness) -> Seq<u8> {
    digits(unsigned(v as int, 8), 8, order)
}

/// The value that eight bytes stand for in the given order.
pub open spec fn long_value(bytes: Seq<u8>, order: Endianness) -> i64 {
    signed(number(bytes, order), 8) as i64
}

/// The four bytes of a single-precision bit pattern in the given order.
pub open spec fn float_bytes(bits: u32, order: Endianness) -> Seq<u8> {
    digits(bits as nat, 4, order)
}

/// The single-precision bit pattern that four bytes hold in the given order.
pub open spec fn float_value(bytes: Seq<u8>, order: Endianness) -> u32 {
    number(bytes, order) as u32
}

/// The eight bytes of a double-precision bit pattern in the given order.
pub open spec fn double_bytes(bits: u64, order: Endianness) -> Seq<u8> {
    digits(bits as nat, 8, order)
}

/// The double-precision bit pattern that eight bytes hold in the given order.
pub open spec fn double_value(bytes: Seq<u8>, order: Endianness) -> u64 {
    number(bytes, order) as u64
}

/// A one-byte value written and read back is the same value.
pub proof fn lemma_byte_round_trip(v: i8)
    ensures
        byte_bytes(v).len() == 1,
        byte_value(byte_bytes(v)) == v,
{
    lemma_radix_values();
}

/// A two-byte value written and read back in the same order is the same value.
pub proof fn lemma_short_round_trip(v: i16, order: Endianness)
    ensures
        short_bytes(v, order).len() == 2,
        short_value(short_bytes(v, order), order) == v,
{
    lemma_radix_values();
    lemma_number_of_digits(unsigned(v as int, 2), 2, order);
}

/// A four-byte value written and read back in the same order is the same value.
pub proof fn lemma_int_round_trip(v: i32, order: Endianness)
    ensures
        int_bytes(v, order).len() == 4,
        int_value(int_bytes(v, order), order) == v,
{
    lemma_radix_values();
    lemma_number_of_digits(unsigned(v as int, 4), 4, order);
}

/// An eight-byte value written and read back in the same order is the same value.
pub proof fn lemma_long_round_trip(v: i64, order: Endianness)
    ensures
        long_bytes(v, order).len() == 8,
        long_value(long_bytes(v, order), order) == v,
{
    lemma_radix_values();
    lemma_number_of_digits(unsigned(v as int, 8), 8, order);
}

/// A single-precision bit pattern written and read back in the same order is the same
/// pattern, bit for bit.
pub proof fn lemma_float_round_trip(bits: u32, order: Endianness)
    ensures
        float_bytes(bits, order).len() == 4,
        float_value(float_bytes(bits, order), order) == bits,
{
    lemma_radix_values();
    lemma_number_of_digits(bits as nat, 4, order);
}

/// A double-precision bit pattern written and read back in the same order is the same
/// pattern, bit for bit.
pub proof fn lemma_double_round_trip(bits: u64, order: Endianness)
    ensures
        double_bytes(bits, order).len() == 8,
        double_value(double_bytes(bits, order), order) == bits,
{
    lemma_radix_values();
    lemma_number_of_digits(bits as nat, 8, order);
}

/// The byte that stands for `v`.
pub fn byte_to_bytes(v: i8) -> (r: [u8; 1])
    ensures
        r@ == byte_bytes(v),
{
    proof {
        lemma_radix_values();
    }
    let n: u8 = if v >= 0 {
        v as u8
    } else {
        (v as i16 + 0x100) as u8
    };
    [n]
}

/// The value that one byte stands for.
pub fn byte_from_bytes(bytes: &[u8]) -> (r: i8)
    requires
        bytes@.len() == 1,
    ensures
        r == byte_value(bytes@),
{
    proof {
        lemma_radix_values();
    }
    let n: u8 = bytes[0];
    if n < 0x80 {
        n as i8
    } else {
        (n as i16 - 0x100) as i8
    }
}

/// The two bytes that stand for `v` in the given order.
pub fn short_to_bytes(v: i16, order: Endianness) -> (r: [u8; 2])
    ensures
        r@ == short_bytes(v, order),
{
    proof {
        lemma_radix_values();
    }
    let n: u16 = if v >= 0 {
        v as u16
    } else {
        (v as i32 + 0x1_0000) as u16
    };
    u16_to_bytes(n, order)
}

/// The value that two bytes stand for in the given order.
pub fn short_from_bytes(bytes: &[u8], order: Endianness) -> (r: i16)
    requires
        bytes@.len() == 2,
    ensures
        r == short_value(bytes@, order),
{
    proof {
        lemma_radix_values();
    }
    let n: u16 = u16_from_bytes(bytes, order);
    if n < 0x8000 {
        n as i16
    } else {
        (n as i32 - 0x1_0000) as i16
    }
}

/// The four bytes that stand for `v` in the given order.
pub fn int_to_bytes(v: i32, order: Endianness) -> (r: [u8; 4])
    ensures
        r@ == int_bytes(v, order),
{
    proof {
        lemma_radix_values();
    }
    let n: u32 = if v >= 0 {
        v as u32
    } else {
        (v as i64 + 0x1_0000_0000) as u32
    };
    u32_to_bytes(n, order)
}

/// The value that four bytes stand for in the given order.
pub fn int_from_bytes(bytes: &[u8], order: Endianness) -> (r: i32)
    requires
        bytes@.len() == 4,
    ensures
        r == int_value(bytes@, order),
{
    proof {
        lemma_radix_values();
    }
    let n: u32 = u32_from_bytes(bytes, order);
    if n < 0x8000_0000 {
        n as i32
    } else {
        (n as i64 - 0x1_0000_0000) as i32
    }
}

/// The eight bytes that stand for `v` in the given order.
pub fn long_to_bytes(v: i64, order: Endianness) -> (r: [u8; 8])
    ensures
        r@ == long_bytes(v, order),
{
    proof {
        lemma_radix_values();
    }
    let n: u64 = if v >= 0 {
        v as u64
    } else {
        (v as i128 + 0x1_0000_0000_0000_0000) as u64
    };
    u64_to_bytes(n, order)
}

/// The value that eight bytes stand for in the given order.
pub fn long_from_bytes(bytes: &[u8], order: Endianness) -> (r: i64)
    requires
        bytes@.len() == 8,
    ensures
        r == long_value(bytes@, order),
{
    proof {
        lemma_radix_values();
    }
    let n: u64 = u64_from_bytes(bytes, order);
    if n < 0x8000_0000_0000_0000 {
        n as i64
    } else {
        (n as i128 - 0x1_0000_0000_0000_0000) as i64
    }
}

} // verus!
