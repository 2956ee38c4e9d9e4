//! The wire format as mathematics: for each kind of value the bytes that stand for it,
//! and what a reader makes of the front of a stream of bytes.

use crate::error::{Error, IoFault};
use crate::order::{digits, lemma_number_of_digits, lemma_radix_values, number, Endianness};
use crate::scalar::{
    byte_bytes, byte_value, double_bytes, double_value, float_bytes, float_value, int_bytes,
    int_value, lemma_byte_round_trip, lemma_double_round_trip, lemma_float_round_trip,
    lemma_int_round_trip, lemma_long_round_trip, lemma_short_round_trip, long_bytes,
    long_value, short_bytes, short_value,
};
use crate::text::{java_cesu8, java_cesu8_text};
use vstd::prelude::*;

verus! {

/// What a reader makes of the front of a stream: a value and the number of bytes that
/// it took, or the reason why there is no value.
pub type Parsed<T> = Result<(T, nat), Error>;

/// The outcome of a read that found fewer bytes than the width of its value.
pub open spec fn ran_out<T>() -> Parsed<T> {
    Err(Error::IoError(IoFault::UnexpectedEof))
}

/// A one-byte value at the front of `s`: it takes 1 byte, and fails
/// where there are fewer.
pub open spec fn parse_byte(s: Seq<u8>) -> Parsed<i8> {
    if s.len() < 1 {
        ran_out()
    } else {
        Ok((byte_value(s.take(1)), 1))
    }
}

/// What was written as a one-byte value is read back as the same
/// value, whatever follows it in the stream.
pub proof fn lemma_byte_written_then_read(v: i8, rest: Seq<u8>)
    ensures
        parse_byte(byte_bytes(v) + rest) == Ok::<(i8, nat), Error>((v, 1)),
{
    lemma_byte_round_trip(v);
    assert((byte_bytes(v) + rest).take(1) =~= byte_bytes(v));
}

/// A two-byte value at the front of `s`: it takes 2 bytes, and fails
/// where there are fewer.
pub open spec fn parse_short(s: Seq<u8>, order: Endianness) -> Parsed<i16> {
    if s.len() < 2 {
        ran_out()
    } else {
        Ok((short_value(s.take(2), order), 2))
    }
}

/// What was written as a two-byte value is read back as the same
/// value, whatever follows it in the stream.
pub proof fn lemma_short_written_then_read(v: i16, order: Endianness, rest: Seq<u8>)
    ensures
        parse_short(short_bytes(v, order) + rest, order) == Ok::<(i16, nat), Error>((v, 2)),
{
    lemma_short_round_trip(v, order);
    assert((short_bytes(v, order) + rest).take(2) =~= short_bytes(v, order));
}

/// A four-byte value at the front of `s`: it takes 4 bytes, and fails
/// where there are fewer.
pub open spec fn parse_int(s: Seq<u8>, order: Endianness) -> Parsed<i32> {
    if s.len() < 4 {
        ran_out()
    } else {
        Ok((int_value(s.take(4), order), 4))
    }
}

/// What was written as a four-byte value is read back as the same
/// value, whatever follows it in the stream.
pub proof fn lemma_int_written_then_read(v: i32, order: Endianness, rest: Seq<u8>)
    ensures
        parse_int(int_bytes(v, order) + rest, order) == Ok::<(i32, nat), Error>((v, 4)),
{
    lemma_int_round_trip(v, order);
    assert((int_bytes(v, order) + rest).take(4) =~= int_bytes(v, order));
}

/// An eight-byte value at the front of `s`: it takes 8 bytes, and fails
/// where there are fewer.
pub open spec fn parse_long(s: Seq<u8>, order: Endianness) -> Parsed<i64> {
    if s.len() < 8 {
        ran_out()
    } else {
        Ok((long_value(s.take(8), order), 8))
    }
}

/// What was written as an eight-byte value is read back as the same
/// value, whatever follows it in the stream.
pub proof fn lemma_long_written_then_read(v: i64, order: Endianness, rest: Seq<u8>)
    ensures
        parse_long(long_bytes(v, order) + rest, order) == Ok::<(i64, nat), Error>((v, 8)),
{
    lemma_long_round_trip(v, order);
    assert((long_bytes(v, order) + rest).take(8) =~= long_bytes(v, order));
}

/// A single-precision bit pattern at the front of `s`: it takes 4 bytes, and fails
/// where there are fewer.
pub open spec fn parse_float(s: Seq<u8>, order: Endianness) -> Parsed<u32> {
    if s.len() < 4 {
        ran_out()
    } else {
        Ok((float_value(s.take(4), order), 4))
    }
}

/// What was written as a single-precision bit pattern is read back as the same
/// value, whatever follows it in the stream.
pub proof fn lemma_float_written_then_read(v: u32, order: Endianness, rest: Seq<u8>)
    ensures
        parse_float(float_bytes(v, order) + rest, order) == Ok::<(u32, nat), Error>((v, 4)),
{
    lemma_float_round_trip(v, order);
    assert((float_bytes(v, order) + rest).take(4) =~= float_bytes(v, order));
}

/// A double-precision bit pattern at the front of `s`: it takes 8 bytes, and fails
/// where there are fewer.
pub open spec fn parse_double(s: Seq<u8>, order: Endianness) -> Parsed<u64> {
    if s.len() < 8 {
        ran_out()
    } else {
        Ok((double_value(s.take(8), order), 8))
    }
}

/// What was written as a double-precision bit pattern is read back as the same
/// value, whatever follows it in the stream.
pub proof fn lemma_double_written_then_read(v: u64, order: Endianness, rest: Seq<u8>)
    ensures
        parse_double(double_bytes(v, order) + rest, order) == Ok::<(u64, nat), Error>((v, 8)),
{
    lemma_double_round_trip(v, order);
    assert((double_bytes(v, order) + rest).take(8) =~= double_bytes(v, order));
}

/// The number of elements that a count asks for. A negative count asks for as many as
/// the same bits say when they are read as an unsigned machine word, which is more
/// than any count that is not negative.
pub open spec fn announced(count: i32) -> nat {
    if count >= 0 {
        count as nat
    } else {
        (usize::MAX + 1 + count) as nat
    }
}

/// The bytes of the elements of a one-byte array, one element after another.
pub open spec fn byte_elements(values: Seq<i8>) -> Seq<u8> {
    Seq::new(values.len(), |j: int| byte_bytes(values[j])[0])
}

/// The `n` one-byte elements that lie in `s` from `start` on, one after another.
pub open spec fn byte_elements_at(s: Seq<u8>, start: int, n: nat) -> Seq<i8> {
    Seq::new(n, |j: int| byte_value(s.subrange(start + j, start + j + 1)))
}

/// The bytes that stand for a one-byte array: the count of its elements as a four-byte
/// value, then the elements. A count too large for four bytes loses its high bits.
pub open spec fn byte_array_bytes(values: Seq<i8>, order: Endianness) -> Seq<u8> {
    int_bytes(values.len() as i32, order) + byte_elements(values)
}

/// A one-byte array at the front of `s`: a four-byte count, then as many elements as
/// the count asks for. It fails where `s` holds fewer bytes than that.
pub open spec fn parse_byte_array(s: Seq<u8>, order: Endianness) -> Parsed<Seq<i8>> {
    if s.len() < 4 {
        ran_out()
    } else {
        let n = announced(int_value(s.take(4), order));
        if s.len() < 4 + n {
            ran_out()
        } else {
            Ok((byte_elements_at(s, 4, n), 4 + n))
        }
    }
}

/// What was written as a one-byte array of a length that four bytes can count is read
/// back as the same elements in the same order, whatever follows it in the stream.
pub proof fn lemma_byte_array_written_then_read(values: Seq<i8>, order: Endianness, rest: Seq<u8>)
    requires
        values.len() <= i32::MAX,
    ensures
        parse_byte_array(byte_array_bytes(values, order) + rest, order) == Ok::<
            (Seq<i8>, nat),
            Error,
        >((values, byte_array_bytes(values, order).len())),
        byte_array_bytes(values, order).len() == 4 + values.len(),
{
    let count = values.len() as i32;
    let s = byte_array_bytes(values, order) + rest;
    lemma_int_round_trip(count, order);
    assert(s.take(4) =~= int_bytes(count, order));
    let read = byte_elements_at(s, 4, values.len());
    assert forall|j: int| 0 <= j < values.len() implies read[j] == values[j] by {
        assert(s.subrange(4 + j, 4 + j + 1) =~= byte_bytes(values[j]));
        lemma_byte_round_trip(values[j]);
    }
    assert(read =~= values);
}

/// The bytes of the elements of a four-byte array, one element after another.
pub open spec fn int_elements(values: Seq<i32>, order: Endianness) -> Seq<u8>
    decreases values.len(),
{
    if values.len() == 0 {
        Seq::empty()
    } else {
        int_elements(values.drop_last(), order) + int_bytes(values.last(), order)
    }
}

/// The `n` four-byte elements that lie in `s` from `start` on, one after another.
pub open spec fn int_elements_at(s: Seq<u8>, start: int, n: nat, order: Endianness) -> Seq<i32> {
    Seq::new(n, |j: int| int_value(s.subrange(start + 4 * j, start + 4 * j + 4), order))
}

/// The bytes that stand for a four-byte array: the count of its elements as a four-byte
/// value, then the elements. A count too large for four bytes loses its high bits.
pub open spec fn int_array_bytes(values: Seq<i32>, order: Endianness) -> Seq<u8> {
    int_bytes(values.len() as i32, order) + int_elements(values, order)
}

/// A four-byte array at the front of `s`: a four-byte count, then as many elements as
/// the count asks for. It fails where `s` holds fewer bytes than that.
pub open spec fn parse_int_array(s: Seq<u8>, order: Endianness) -> Parsed<Seq<i32>> {
    if s.len() < 4 {
        ran_out()
    } else {
        let n = announced(int_value(s.take(4), order));
        if s.len() < 4 + 4 * n {
            ran_out()
        } else {
            Ok((int_elements_at(s, 4, n, order), 4 + 4 * n))
        }
    }
}

/// The elements of an array take 4 bytes each.
pub proof fn lemma_int_elements_len(values: Seq<i32>, order: Endianness)
    ensures
        int_elements(values, order).len() == 4 * values.len(),
    decreases values.len(),
{
    if values.len() > 0 {
        lemma_int_elements_len(values.drop_last(), order);
        lemma_int_round_trip(values.last(), order);
    }
}

/// Each element of an array lies where its index says.
pub proof fn lemma_int_elements_at(values: Seq<i32>, order: Endianness, j: int)
    requires
        0 <= j < values.len(),
    ensures
        int_elements(values, order).subrange(4 * j, 4 * j + 4) == int_bytes(values[j], order),
    decreases values.len(),
{
    let front = values.drop_last();
    let all = int_elements(values, order);
    lemma_int_elements_len(front, order);
    lemma_int_round_trip(values.last(), order);
    if j < front.len() {
        lemma_int_elements_at(front, order, j);
        assert(all.subrange(4 * j, 4 * j + 4) =~= int_elements(front, order).subrange(
            4 * j,
            4 * j + 4,
        ));
    } else {
        assert(all.subrange(4 * j, 4 * j + 4) =~= int_bytes(values.last(), order));
    }
}

/// What was written as a four-byte array of a length that four bytes can count is read
/// back as the same elements in the same order, whatever follows it in the stream.
pub proof fn lemma_int_array_written_then_read(values: Seq<i32>, order: Endianness, rest: Seq<u8>)
    requires
        values.len() <= i32::MAX,
    ensures
        parse_int_array(int_array_bytes(values, order) + rest, order) == Ok::<
            (Seq<i32>, nat),
            Error,
        >((values, int_array_bytes(values, order).len())),
        int_array_bytes(values, order).len() == 4 + 4 * values.len(),
{
    let count = values.len() as i32;
    let body = int_elements(values, order);
    let s = int_array_bytes(values, order) + rest;
    lemma_int_round_trip(count, order);
    lemma_int_elements_len(values, order);
    assert(s.take(4) =~= int_bytes(count, order));
    let read = int_elements_at(s, 4, values.len(), order);
    assert forall|j: int| 0 <= j < values.len() implies read[j] == values[j] by {
        lemma_int_elements_at(values, order, j);
        assert(s.subrange(4 + 4 * j, 4 + 4 * j + 4) =~= body.subrange(4 * j, 4 * j + 4));
        lemma_int_round_trip(values[j], order);
    }
    assert(read =~= values);
}

/// The bytes of the elements of an eight-byte array, one element after another.
pub open spec fn long_elements(values: Seq<i64>, order: Endianness) -> Seq<u8>
    decreases values.len(),
{
    if values.len() == 0 {
        Seq::empty()
    } else {
        long_elements(values.drop_last(), order) + long_bytes(values.last(), order)
    }
}

/// The `n` eight-byte elements that lie in `s` from `start` on, one after another.
pub open spec fn long_elements_at(s: Seq<u8>, start: int, n: nat, order: Endianness) -> Seq<i64> {
    Seq::new(n, |j: int| long_value(s.subrange(start + 8 * j, start + 8 * j + 8), order))
}

/// The bytes that stand for an eight-byte array: the count of its elements as a four-byte
/// value, then the elements. A count too large for four bytes loses its high bits.
pub open spec fn long_array_bytes(values: Seq<i64>, order: Endianness) -> Seq<u8> {
    int_bytes(values.len() as i32, order) + long_elements(values, order)
}

/// An eight-byte array at the front of `s`: a four-byte count, then as many elements as
/// the count asks for. It fails where `s` holds fewer bytes than that.
pub open spec fn parse_long_array(s: Seq<u8>, order: Endianness) -> Parsed<Seq<i64>> {
    if s.len() < 4 {
        ran_out()
    } else {
        let n = announced(int_value(s.take(4), order));
        if s.len() < 4 + 8 * n {
            ran_out()
        } else {
            Ok((long_elements_at(s, 4, n, order), 4 + 8 * n))
        }
    }
}

/// The elements of an array take 8 bytes each.
pub proof fn lemma_long_elements_len(values: Seq<i64>, order: Endianness)
    ensures
        long_elements(values, order).len() == 8 * values.len(),
    decreases values.len(),
{
    if values.len() > 0 {
        lemma_long_elements_len(values.drop_last(), order);
        lemma_long_round_trip(values.last(), order);
    }
}

/// Each element of an array lies where its index says.
pub proof fn lemma_long_elements_at(values: Seq<i64>, order: Endianness, j: int)
    requires
        0 <= j < values.len(),
    ensures
        long_elements(values, order).subrange(8 * j, 8 * j + 8) == long_bytes(values[j], order),
    decreases values.len(),
{
    let front = values.drop_last();
    let all = long_elements(values, order);
    lemma_long_elements_len(front, order);
    lemma_long_round_trip(values.last(), order);
    if j < front.len() {
        lemma_long_elements_at(front, order, j);
        assert(all.subrange(8 * j, 8 * j + 8) =~= long_elements(front, order).subrange(
            8 * j,
            8 * j + 8,
        ));
    } else {
        assert(all.subrange(8 * j, 8 * j + 8) =~= long_bytes(values.last(), order));
    }
}

/// What was written as an eight-byte array of a length that four bytes can count is read
/// back as the same elements in the same order, whatever follows it in the stream.
pub proof fn lemma_long_array_written_then_read(values: Seq<i64>, order: Endianness, rest: Seq<u8>)
    requires
        values.len() <= i32::MAX,
    ensures
        parse_long_array(long_array_bytes(values, order) + rest, order) == Ok::<
            (Seq<i64>, nat),
            Error,
        >((values, long_array_bytes(values, order).len())),
        long_array_bytes(values, order).len() == 4 + 8 * values.len(),
{
    let count = values.len() as i32;
    let body = long_elements(values, order);
    let s = long_array_bytes(values, order) + rest;
    lemma_int_round_trip(count, order);
    lemma_long_elements_len(values, order);
    assert(s.take(4) =~= int_bytes(count, order));
    let read = long_elements_at(s, 4, values.len(), order);
    assert forall|j: int| 0 <= j < values.len() implies read[j] == values[j] by {
        lemma_long_elements_at(values, order, j);
        assert(s.subrange(4 + 8 * j, 4 + 8 * j + 8) =~= body.subrange(8 * j, 8 * j + 8));
        lemma_long_round_trip(values[j], order);
    }
    assert(read =~= values);
}

/// The bytes that stand for a string whose encoded form is `body`: the length of
/// `body` as an unsigned two-byte number, then `body`. A length too large for two bytes
/// loses its high bits.
pub open spec fn prefixed_bytes(body: Seq<u8>, order: Endianness) -> Seq<u8> {
    digits((body.len() % 0x1_0000) as nat, 2, order) + body
}

/// The encoded form of a string at the front of `s`: an unsigned two-byte length, then
/// as many bytes. Fewer than two bytes are an I/O error; a stream that ends before the
/// announced length is an incomplete value.
pub open spec fn parse_prefixed(s: Seq<u8>, order: Endianness) -> Parsed<Seq<u8>> {
    if s.len() < 2 {
        ran_out()
    } else {
        let len = number(s.take(2), order);
        if s.len() < 2 + len {
            Err(Error::IncompleteNbtValue)
        } else {
            Ok((s.subrange(2, 2 + len as int), 2 + len))
        }
    }
}

/// The text that the encoded form `body` stands for, if any. No bytes stand for the
/// empty text; any others are decoded as modified UTF-8.
pub open spec fn text_of(body: Seq<u8>) -> Option<Seq<char>> {
    if body.len() == 0 {
        Some(Seq::empty())
    } else {
        java_cesu8_text(body)
    }
}

/// The bytes that stand for a string: its modified UTF-8 form behind that form's
/// length.
pub open spec fn string_bytes(text: Seq<char>, order: Endianness) -> Seq<u8> {
    prefixed_bytes(java_cesu8(text), order)
}

/// A string at the front of `s`: a length-prefixed encoded form, decoded. Bytes that
/// decode to no text are an error of their own.
pub open spec fn parse_string(s: Seq<u8>, order: Endianness) -> Parsed<Seq<char>> {
    match parse_prefixed(s, order) {
        Ok((body, used)) => match text_of(body) {
            Some(text) => Ok((text, used)),
            None => Err(Error::InvalidCesu8),
        },
        Err(e) => Err(e),
    }
}

/// A header at the front of `s`: a tag byte and, unless the tag is zero, a string, the
/// name. The zero tag ends a compound and has the empty name.
pub open spec fn parse_header(s: Seq<u8>, order: Endianness) -> Parsed<(u8, Seq<char>)> {
    if s.len() < 1 {
        ran_out()
    } else if s[0] == 0 {
        Ok(((0u8, Seq::empty()), 1))
    } else {
        match parse_string(s.skip(1), order) {
            Ok((name, used)) => Ok(((s[0], name), 1 + used)),
            Err(e) => Err(e),
        }
    }
}

/// An encoded form of a length that two bytes can hold, written behind its length, is
/// read back unchanged, whatever follows it in the stream.
pub proof fn lemma_prefixed_written_then_read(body: Seq<u8>, order: Endianness, rest: Seq<u8>)
    requires
        body.len() <= 0xFFFF,
    ensures
        parse_prefixed(prefixed_bytes(body, order) + rest, order) == Ok::<(Seq<u8>, nat), Error>(
            (body, 2 + body.len()),
        ),
        prefixed_bytes(body, order).len() == 2 + body.len(),
{
    let s = prefixed_bytes(body, order) + rest;
    lemma_radix_values();
    lemma_number_of_digits(body.len(), 2, order);
    assert(s.take(2) =~= digits(body.len(), 2, order));
    assert(s.subrange(2, 2 + body.len() as int) =~= body);
}

/// A text whose modified UTF-8 form is of a length that two bytes can hold is read
/// back as it was written, whatever follows it in the stream: the empty text, plain
/// ASCII, the null character and characters beyond the Basic Multilingual Plane alike.
/// The number of bytes taken is that of the encoded form and its length, not the number
/// of characters.
///
/// The second and third premise hold of every text that has passed through the
/// encoder: the encoder's contract says so.
pub proof fn lemma_string_written_then_read(text: Seq<char>, order: Endianness, rest: Seq<u8>)
    requires
        java_cesu8(text).len() <= 0xFFFF,
        java_cesu8_text(java_cesu8(text)) == Some(text),
        java_cesu8(text).len() == 0 ==> text.len() == 0,
    ensures
        parse_string(string_bytes(text, order) + rest, order) == Ok::<(Seq<char>, nat), Error>(
            (text, 2 + java_cesu8(text).len()),
        ),
{
    lemma_prefixed_written_then_read(java_cesu8(text), order, rest);
    if java_cesu8(text).len() == 0 {
        assert(text =~= Seq::<char>::empty());
    }
}

/// A stream that starts with the zero byte holds the header of tag zero and empty
/// name, which takes that one byte and no more.
pub proof fn lemma_header_of_end(rest: Seq<u8>, order: Endianness)
    ensures
        parse_header(seq![0u8] + rest, order) == Ok::<((u8, Seq<char>), nat), Error>(
            ((0u8, Seq::empty()), 1),
        ),
{
}

/// A stream that starts with a tag other than zero and a string holds the header of
/// that tag and that string. The header takes the tag's byte, the two bytes of the
/// string's length and as many bytes as that length says. A string that cannot be read
/// fails the header in the same way.
pub proof fn lemma_header_of_named(tag: u8, tail: Seq<u8>, order: Endianness)
    requires
        tag != 0,
    ensures
        match parse_string(tail, order) {
            Ok((name, used)) => {
                &&& parse_header(seq![tag] + tail, order) == Ok::<((u8, Seq<char>), nat), Error>(
                    ((tag, name), 1 + used),
                )
                &&& used == 2 + number(tail.take(2), order)
            },
            Err(e) => parse_header(seq![tag] + tail, order) == Err::<((u8, Seq<char>), nat), Error>(
                e,
            ),
        },
{
    assert((seq![tag] + tail).skip(1) =~= tail);
}

} // verus!
