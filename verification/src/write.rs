//! Writing values to a byte sink.

use crate::error::Error;
use crate::order::{u16_to_bytes, u32_to_bytes, u64_to_bytes, Endianness};
use crate::scalar::{
    byte_bytes, byte_to_bytes, double_bytes, float_bytes, int_bytes, int_to_bytes, long_bytes,
    long_to_bytes, short_bytes, short_to_bytes,
};
use crate::stream::ByteSink;
use crate::text::{java_cesu8, java_cesu8_text, to_java_cesu8};
use crate::wire::{
    byte_array_bytes, byte_elements, int_array_bytes, int_elements,
    lemma_prefixed_written_then_read, lemma_string_written_then_read, long_array_bytes,
    long_elements, parse_string, prefixed_bytes, string_bytes,
};
use vstd::prelude::*;

verus! {

/// What a write leaves of a sink: one that keeps account holds `bytes` more and the
/// write succeeded; of another nothing is known, and it has no account afterwards
/// either.
pub open spec fn appended<W: ByteSink>(
    before: &W,
    after: &W,
    r: Result<(), Error>,
    bytes: Seq<u8>,
) -> bool {
    &&& r matches Err(e) ==> e is IoError
    &&& match before.written() {
        Some(w) => r is Ok && after.written() == Some(w + bytes),
        None => after.written() is None,
    }
}

/// Hands `bytes` to the sink, and reports a fault of the sink as an I/O error.
pub fn write_bytes<W: ByteSink>(dst: &mut W, bytes: &[u8]) -> (r: Result<(), Error>)
    ensures
        appended(old(dst), final(dst), r, bytes@),
{
    match dst.write_all(bytes) {
        Ok(()) => Ok(()),
        Err(fault) => Err(Error::IoError(fault)),
    }
}

/// Closes an open compound: writes the single byte `0x00`.
pub fn close_nbt<W: ByteSink>(dst: &mut W) -> (r: Result<(), Error>)
    ensures
        appended(old(dst), final(dst), r, seq![0u8]),
{
    let buf: [u8; 1] = [0u8];
    assert(buf@ =~= seq![0u8]);
    write_bytes(dst, buf.as_slice())
}

/// Writes a one-byte value.
pub fn write_bare_byte<W: ByteSink>(dst: &mut W, value: i8) -> (r: Result<(), Error>)
    ensures
        appended(old(dst), final(dst), r, byte_bytes(value)),
{
    let buf = byte_to_bytes(value);
    write_bytes(dst, buf.as_slice())
}

/// Writes a two-byte value in the given order.
pub fn write_bare_short<W: ByteSink>(dst: &mut W, value: i16, order: Endianness) -> (r: Result<
    (),
    Error,
>)
    ensures
        appended(old(dst), final(dst), r, short_bytes(value, order)),
{
    let buf = short_to_bytes(value, order);
    write_bytes(dst, buf.as_slice())
}

/// Writes a four-byte value in the given order.
pub fn write_bare_int<W: ByteSink>(dst: &mut W, value: i32, order: Endianness) -> (r: Result<
    (),
    Error,
>)
    ensures
        appended(old(dst), final(dst), r, int_bytes(value, order)),
{
    let buf = int_to_bytes(value, order);
    write_bytes(dst, buf.as_slice())
}

/// Writes an eight-byte value in the given order.
pub fn write_bare_long<W: ByteSink>(dst: &mut W, value: i64, order: Endianness) -> (r: Result<
    (),
    Error,
>)
    ensures
        appended(old(dst), final(dst), r, long_bytes(value, order)),
{
    let buf = long_to_bytes(value, order);
    write_bytes(dst, buf.as_slice())
}

/// Writes a single-precision number, given by its bit pattern, in the given order.
pub fn write_bare_float<W: ByteSink>(dst: &mut W, bits: u32, order: Endianness) -> (r: Result<
    (),
    Error,
>)
    ensures
        appended(old(dst), final(dst), r, float_bytes(bits, order)),
{
    let buf = u32_to_bytes(bits, order);
    write_bytes(dst, buf.as_slice())
}

/// Writes a double-precision number, given by its bit pattern, in the given order.
pub fn write_bare_double<W: ByteSink>(dst: &mut W, bits: u64, order: Endianness) -> (r: Result<
    (),
    Error,
>)
    ensures
        appended(old(dst), final(dst), r, double_bytes(bits, order)),
{
    let buf = u64_to_bytes(bits, order);
    write_bytes(dst, buf.as_slice())
}

/// Writes a one-byte array: the number of its elements as a four-byte value, then
/// the elements in their order. Of a number too large for four bytes the low 32 bits are
/// written.
pub fn write_bare_byte_array<W: ByteSink>(
    dst: &mut W,
    value: &[i8],
    order: Endianness,
) -> (r: Result<(), Error>)
    ensures
        appended(old(dst), final(dst), r, byte_array_bytes(value@, order)),
{
    let count: i32 = #[verifier::truncate] (value.len() as i32);
    match write_bare_int(dst, count, order) {
        Ok(()) => {},
        Err(e) => {
            return Err(e);
        },
    }
    let mut i: usize = 0;
    while i < value.len()
        invariant
            i <= value.len(),
            count == value@.len() as i32,
            match old(dst).written() {
                Some(w) => dst.written() == Some(
                    w + (int_bytes(count, order) + byte_elements(value@.take(i as int))),
                ),
                None => dst.written() is None,
            },
        decreases value.len() - i,
    {
        match write_bare_byte(dst, value[i]) {
            Ok(()) => {},
            Err(e) => {
                return Err(e);
            },
        }
        i += 1;
    }
    assert(value@.take(i as int) =~= value@);
    Ok(())
}

/// Writes a four-byte array: the number of its elements as a four-byte value, then
/// the elements in their order. Of a number too large for four bytes the low 32 bits are
/// written.
pub fn write_bare_int_array<W: ByteSink>(
    dst: &mut W,
    value: &[i32],
    order: Endianness,
) -> (r: Result<(), Error>)
    ensures
        appended(old(dst), final(dst), r, int_array_bytes(value@, order)),
{
    let count: i32 = #[verifier::truncate] (value.len() as i32);
    match write_bare_int(dst, count, order) {
        Ok(()) => {},
        Err(e) => {
            return Err(e);
        },
    }
    let mut i: usize = 0;
    while i < value.len()
        invariant
            i <= value.len(),
            count == value@.len() as i32,
            match old(dst).written() {
                Some(w) => dst.written() == Some(
                    w + (int_bytes(count, order) + int_elements(value@.take(i as int), order)),
                ),
                None => dst.written() is None,
            },
        decreases value.len() - i,
    {
        match write_bare_int(dst, value[i], order) {
            Ok(()) => {},
            Err(e) => {
                return Err(e);
            },
        }
        assert(value@.take(i + 1).drop_last() =~= value@.take(i as int));
        i += 1;
    }
    assert(value@.take(i as int) =~= value@);
    Ok(())
}

/// Writes an eight-byte array: the number of its elements as a four-byte value, then
/// the elements in their order. Of a number too large for four bytes the low 32 bits are
/// written.
pub fn write_bare_long_array<W: ByteSink>(
    dst: &mut W,
    value: &[i64],
    order: Endianness,
) -> (r: Result<(), Error>)
    ensures
        appended(old(dst), final(dst), r, long_array_bytes(value@, order)),
{
    let count: i32 = #[verifier::truncate] (value.len() as i32);
    match write_bare_int(dst, count, order) {
        Ok(()) => {},
        Err(e) => {
            return Err(e);
        },
    }
    let mut i: usize = 0;
    while i < value.len()
        invariant
            i <= value.len(),
            count == value@.len() as i32,
            match old(dst).written() {
                Some(w) => dst.written() == Some(
                    w + (int_bytes(count, order) + long_elements(value@.take(i as int), order)),
                ),
                None => dst.written() is None,
            },
        decreases value.len() - i,
    {
        match write_bare_long(dst, value[i], order) {
            Ok(()) => {},
            Err(e) => {
                return Err(e);
            },
        }
        assert(value@.take(i + 1).drop_last() =~= value@.take(i as int));
        i += 1;
    }
    assert(value@.take(i as int) =~= value@);
    Ok(())
}

/// Writes the encoded form of a string: its length as an unsigned two-byte number in
/// the given order, then the bytes as they are. Of a length too large for two bytes the
/// low 16 bits are written.
pub fn write_prefixed<W: ByteSink>(dst: &mut W, body: &[u8], order: Endianness) -> (r: Result<
    (),
    Error,
>)
    ensures
        appended(old(dst), final(dst), r, prefixed_bytes(body@, order)),
{
    let len: u16 = (body.len() % 0x1_0000) as u16;
    let prefix = u16_to_bytes(len, order);
    match write_bytes(dst, prefix.as_slice()) {
        Ok(()) => {},
        Err(e) => {
            return Err(e);
        },
    }
    let r = write_bytes(dst, body);
    proof {
        if old(dst).written() is Some {
            let w = old(dst).written().unwrap();
            assert(w + prefix@ + body@ =~= w + prefixed_bytes(body@, order));
        }
    }
    r
}

/// Writes a string: the length of its modified UTF-8 form as an unsigned two-byte
/// number in the given order, then that form.
///
/// The form decodes to `value` again, and only the empty text has the empty form. So a
/// text whose form is of a length that two bytes can hold is read back as it was
/// written.
pub fn write_bare_string<W: ByteSink>(dst: &mut W, value: &str, order: Endianness) -> (r: Result<
    (),
    Error,
>)
    ensures
        appended(old(dst), final(dst), r, string_bytes(value@, order)),
        java_cesu8_text(java_cesu8(value@)) == Some(value@),
        java_cesu8(value@).len() == 0 ==> value@.len() == 0,
        java_cesu8(value@).len() <= 0xFFFF ==> parse_string(string_bytes(value@, order), order)
            == Ok::<(Seq<char>, nat), Error>((value@, string_bytes(value@, order).len())),
{
    let encoded = to_java_cesu8(value);
    proof {
        if encoded@.len() <= 0xFFFF {
            lemma_string_written_then_read(value@, order, Seq::empty());
            lemma_prefixed_written_then_read(encoded@, order, Seq::empty());
        }
    }
    write_prefixed(dst, encoded.as_slice(), order)
}

} // verus!
