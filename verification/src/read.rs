//! Reading values from a byte source.

use crate::error::{Error, IoFault};
use crate::order::{number, u16_from_bytes, u32_from_bytes, u64_from_bytes, Endianness};
use crate::scalar::{
    byte_from_bytes, int_from_bytes, int_value, long_from_bytes, short_from_bytes,
};
use crate::stream::ByteSource;
use crate::text::decode_text;
use crate::wire::{
    announced, byte_elements_at, int_elements_at, long_elements_at, parse_byte,
    parse_byte_array, parse_double, parse_float, parse_header, parse_int, parse_int_array,
    parse_long, parse_long_array, parse_prefixed, parse_short, parse_string, text_of, Parsed,
};
use vstd::prelude::*;

verus! {

/// That a read did to a source of the bytes `s` what `parsed` says: it returned the
/// value and left the source without the bytes that the value took, or it returned
/// the error.
pub open spec fn taken<T>(
    s: Seq<u8>,
    left: Option<Seq<u8>>,
    r: Result<T, Error>,
    parsed: Parsed<T>,
) -> bool {
    match parsed {
        Ok((v, used)) => r == Ok::<T, Error>(v) && left == Some(s.skip(used as int)),
        Err(e) => r == Err::<T, Error>(e) && left is Some,
    }
}

/// The result of a read with its value replaced by the value's view.
pub open spec fn viewed<T: View>(r: Result<T, Error>) -> Result<T::V, Error> {
    match r {
        Ok(v) => Ok(v@),
        Err(e) => Err(e),
    }
}

/// Asks the source for exactly `n` bytes and holds it to that number: a source that
/// hands over more or fewer has failed.
pub fn take_exact<R: ByteSource>(src: &mut R, n: usize) -> (r: Result<Vec<u8>, Error>)
    ensures
        r matches Ok(bytes) ==> bytes@.len() == n,
        r matches Err(e) ==> e is IoError,
        old(src).pending() is None ==> final(src).pending() is None,
        old(src).pending() matches Some(s) ==> {
            &&& final(src).reads() == old(src).reads() + 1
            &&& if n <= s.len() {
                &&& r matches Ok(bytes)
                &&& bytes@ == s.take(n as int)
                &&& final(src).pending() == Some(s.skip(n as int))
            } else {
                &&& r == Err::<Vec<u8>, Error>(Error::IoError(IoFault::UnexpectedEof))
                &&& final(src).pending() is Some
            }
        },
{
    match src.read_exact(n) {
        Ok(bytes) => {
            if bytes.len() == n {
                Ok(bytes)
            } else {
                Err(Error::IoError(IoFault::Other))
            }
        },
        Err(fault) => Err(Error::IoError(fault)),
    }
}

/// Asks the source for some bytes, at most `max`, and holds it to that bound: a source
/// that hands over more has failed.
pub fn take_some<R: ByteSource>(src: &mut R, max: usize) -> (r: Result<Vec<u8>, Error>)
    ensures
        r matches Ok(chunk) ==> chunk@.len() <= max,
        r matches Err(e) ==> e is IoError,
        old(src).pending() is None ==> final(src).pending() is None,
        old(src).pending() matches Some(s) ==> {
            &&& r matches Ok(chunk)
            &&& chunk@.len() <= s.len()
            &&& chunk@ == s.take(chunk@.len() as int)
            &&& (chunk@.len() == 0 ==> max == 0 || s.len() == 0)
            &&& final(src).pending() == Some(s.skip(chunk@.len() as int))
            &&& final(src).reads() == old(src).reads() + 1
        },
{
    match src.read(max) {
        Ok(chunk) => {
            if chunk.len() <= max {
                Ok(chunk)
            } else {
                Err(Error::IoError(IoFault::Other))
            }
        },
        Err(fault) => Err(Error::IoError(fault)),
    }
}

/// Reads a one-byte value. It asks the source once,
/// for exactly 1 byte; a source that has fewer fails, and the failure is passed on as
/// an I/O error.
pub fn read_bare_byte<R: ByteSource>(src: &mut R) -> (r: Result<i8, Error>)
    ensures
        r matches Err(e) ==> e is IoError,
        old(src).pending() is None ==> final(src).pending() is None,
        old(src).pending() matches Some(s) ==> {
            &&& taken(s, final(src).pending(), r, parse_byte(s))
            &&& final(src).reads() == old(src).reads() + 1
        },
{
    match take_exact(src, 1) {
        Ok(bytes) => Ok(byte_from_bytes(bytes.as_slice())),
        Err(e) => Err(e),
    }
}

/// Reads a two-byte value in the given order. It asks the source once,
/// for exactly 2 bytes; a source that has fewer fails, and the failure is passed on as
/// an I/O error.
pub fn read_bare_short<R: ByteSource>(src: &mut R, order: Endianness) -> (r: Result<i16, Error>)
    ensures
        r matches Err(e) ==> e is IoError,
        old(src).pending() is None ==> final(src).pending() is None,
        old(src).pending() matches Some(s) ==> {
            &&& taken(s, final(src).pending(), r, parse_short(s, order))
            &&& final(src).reads() == old(src).reads() + 1
        },
{
    match take_exact(src, 2) {
        Ok(bytes) => Ok(short_from_bytes(bytes.as_slice(), order)),
        Err(e) => Err(e),
    }
}

/// Reads a four-byte value in the given order. It asks the source once,
/// for exactly 4 bytes; a source that has fewer fails, and the failure is passed on as
/// an I/O error.
pub fn read_bare_int<R: ByteSource>(src: &mut R, order: Endianness) -> (r: Result<i32, Error>)
    ensures
        r matches Err(e) ==> e is IoError,
        old(src).pending() is None ==> final(src).pending() is None,
        old(src).pending() matches Some(s) ==> {
            &&& taken(s, final(src).pending(), r, parse_int(s, order))
            &&& final(src).reads() == old(src).reads() + 1
        },
{
    match take_exact(src, 4) {
        Ok(bytes) => Ok(int_from_bytes(bytes.as_slice(), order)),
        Err(e) => Err(e),
    }
}

/// Reads an eight-byte value in the given order. It asks the source once,
/// for exactly 8 bytes; a source that has fewer fails, and the failure is passed on as
/// an I/O error.
pub fn read_bare_long<R: ByteSource>(src: &mut R, order: Endianness) -> (r: Result<i64, Error>)
    ensures
        r matches Err(e) ==> e is IoError,
        old(src).pending() is None ==> final(src).pending() is None,
        old(src).pending() matches Some(s) ==> {
            &&& taken(s, final(src).pending(), r, parse_long(s, order))
            &&& final(src).reads() == old(src).reads() + 1
        },
{
    match take_exact(src, 8) {
        Ok(bytes) => Ok(long_from_bytes(bytes.as_slice(), order)),
        Err(e) => Err(e),
    }
}

/// Reads a single-precision number in the given order, as its bit pattern. It asks the
/// source once, for exactly 4 bytes; a source that has fewer fails, and the failure is
/// passed on as an I/O error.
pub fn read_bare_float<R: ByteSource>(src: &mut R, order: Endianness) -> (r: Result<u32, Error>)
    ensures
        r matches Err(e) ==> e is IoError,
        old(src).pending() is None ==> final(src).pending() is None,
        old(src).pending() matches Some(s) ==> {
            &&& taken(s, final(src).pending(), r, parse_float(s, order))
            &&& final(src).reads() == old(src).reads() + 1
        },
{
    match take_exact(src, 4) {
        Ok(bytes) => Ok(u32_from_bytes(bytes.as_slice(), order)),
        Err(e) => Err(e),
    }
}

/// Reads a double-precision number in the given order, as its bit pattern. It asks the
/// source once, for exactly 8 bytes; a source that has fewer fails, and the failure is
/// passed on as an I/O error.
pub fn read_bare_double<R: ByteSource>(src: &mut R, order: Endianness) -> (r: Result<u64, Error>)
    ensures
        r matches Err(e) ==> e is IoError,
        old(src).pending() is None ==> final(src).pending() is None,
        old(src).pending() matches Some(s) ==> {
            &&& taken(s, final(src).pending(), r, parse_double(s, order))
            &&& final(src).reads() == old(src).reads() + 1
        },
{
    match take_exact(src, 8) {
        Ok(bytes) => Ok(u64_from_bytes(bytes.as_slice(), order)),
        Err(e) => Err(e),
    }
}

/// The number of elements that a count asks for.
pub fn element_count(count: i32) -> (n: usize)
    ensures
        n == announced(count),
{
    if count >= 0 {
        count as usize
    } else {
        usize::MAX - ((-(count + 1)) as usize)
    }
}

/// Reads a one-byte array: a four-byte count, then as many elements as the count
/// asks for, each with a request of its own, in the order in which they arrive. A
/// negative count asks for more elements than any other, as `announced` says. Nothing
/// is set aside for the elements before they arrive, so a count that the source cannot
/// honour costs no memory: the read fails when the source runs out.
pub fn read_bare_byte_array<R: ByteSource>(src: &mut R, order: Endianness) -> (r: Result<
    Vec<i8>,
    Error,
>)
    ensures
        r matches Err(e) ==> e is IoError,
        old(src).pending() is None ==> final(src).pending() is None,
        old(src).pending() matches Some(s) ==> {
            &&& taken(s, final(src).pending(), viewed(r), parse_byte_array(s, order))
            &&& r matches Ok(values) ==> final(src).reads() == old(src).reads() + 1
                + values@.len()
        },
{
    let count: i32 = match read_bare_int(src, order) {
        Ok(count) => count,
        Err(e) => {
            return Err(e);
        },
    };
    let n: usize = element_count(count);
    let mut buf: Vec<i8> = Vec::new();
    let mut i: usize = 0;
    while i < n
        invariant
            i <= n,
            buf@.len() == i,
            old(src).pending() is None ==> src.pending() is None,
            old(src).pending() matches Some(s) ==> {
                &&& s.len() >= 4
                &&& n == announced(int_value(s.take(4), order))
                &&& s.len() >= 4 + i
                &&& src.pending() == Some(s.skip(4 + i))
                &&& src.reads() == old(src).reads() + 1 + i
                &&& buf@ == byte_elements_at(s, 4, i as nat)
            },
        decreases n - i,
    {
        match read_bare_byte(src) {
            Ok(v) => {
                buf.push(v);
            },
            Err(e) => {
                return Err(e);
            },
        }
        i += 1;
    }
    Ok(buf)
}

/// Reads a four-byte array: a four-byte count, then as many elements as the count
/// asks for, each with a request of its own, in the order in which they arrive. A
/// negative count asks for more elements than any other, as `announced` says. Nothing
/// is set aside for the elements before they arrive, so a count that the source cannot
/// honour costs no memory: the read fails when the source runs out.
pub fn read_bare_int_array<R: ByteSource>(src: &mut R, order: Endianness) -> (r: Result<
    Vec<i32>,
    Error,
>)
    ensures
        r matches Err(e) ==> e is IoError,
        old(src).pending() is None ==> final(src).pending() is None,
        old(src).pending() matches Some(s) ==> {
            &&& taken(s, final(src).pending(), viewed(r), parse_int_array(s, order))
            &&& r matches Ok(values) ==> final(src).reads() == old(src).reads() + 1
                + values@.len()
        },
{
    let count: i32 = match read_bare_int(src, order) {
        Ok(count) => count,
        Err(e) => {
            return Err(e);
        },
    };
    let n: usize = element_count(count);
    let mut buf: Vec<i32> = Vec::new();
    let mut i: usize = 0;
    while i < n
        invariant
            i <= n,
            buf@.len() == i,
            old(src).pending() is None ==> src.pending() is None,
            old(src).pending() matches Some(s) ==> {
                &&& s.len() >= 4
                &&& n == announced(int_value(s.take(4), order))
                &&& s.len() >= 4 + 4 * i
                &&& src.pending() == Some(s.skip(4 + 4 * i))
                &&& src.reads() == old(src).reads() + 1 + i
                &&& buf@ == int_elements_at(s, 4, i as nat, order)
            },
        decreases n - i,
    {
        match read_bare_int(src, order) {
            Ok(v) => {
                buf.push(v);
            },
            Err(e) => {
                return Err(e);
            },
        }
        proof {
            if old(src).pending() is Some {
                let s = old(src).pending().unwrap();
                let at = 4 + 4 * i;
                assert(s.skip(at).take(4) =~= s.subrange(at, at + 4));
            }
        }
        i += 1;
    }
    Ok(buf)
}

/// Reads an eight-byte array: a four-byte count, then as many elements as the count
/// asks for, each with a request of its own, in the order in which they arrive. A
/// negative count asks for more elements than any other, as `announced` says. Nothing
/// is set aside for the elements before they arrive, so a count that the source cannot
/// honour costs no memory: the read fails when the source runs out.
pub fn read_bare_long_array<R: ByteSource>(src: &mut R, order: Endianness) -> (r: Result<
    Vec<i64>,
    Error,
>)
    ensures
        r matches Err(e) ==> e is IoError,
        old(src).pending() is None ==> final(src).pending() is None,
        old(src).pending() matches Some(s) ==> {
            &&& taken(s, final(src).pending(), viewed(r), parse_long_array(s, order))
            &&& r matches Ok(values) ==> final(src).reads() == old(src).reads() + 1
                + values@.len()
        },
{
    let count: i32 = match read_bare_int(src, order) {
        Ok(count) => count,
        Err(e) => {
            return Err(e);
        },
    };
    let n: usize = element_count(count);
    let mut buf: Vec<i64> = Vec::new();
    let mut i: usize = 0;
    while i < n
        invariant
            i <= n,
            buf@.len() == i,
            old(src).pending() is None ==> src.pending() is None,
            old(src).pending() matches Some(s) ==> {
                &&& s.len() >= 4
                &&& n == announced(int_value(s.take(4), order))
                &&& s.len() >= 4 + 8 * i
                &&& src.pending() == Some(s.skip(4 + 8 * i))
                &&& src.reads() == old(src).reads() + 1 + i
                &&& buf@ == long_elements_at(s, 4, i as nat, order)
            },
        decreases n - i,
    {
        match read_bare_long(src, order) {
            Ok(v) => {
                buf.push(v);
            },
            Err(e) => {
                return Err(e);
            },
        }
        proof {
            if old(src).pending() is Some {
                let s = old(src).pending().unwrap();
                let at = 4 + 8 * i;
                assert(s.skip(at).take(8) =~= s.subrange(at, at + 8));
            }
        }
        i += 1;
    }
    Ok(buf)
}

/// Takes up a chunk that a source has yielded for the encoded form of a string of which
/// `body` holds what came before. A source that yields nothing has ended, and the
/// string with it: the value is incomplete.
pub fn absorb(body: &mut Vec<u8>, chunk: Vec<u8>) -> (r: Result<(), Error>)
    ensures
        chunk@.len() == 0 ==> r == Err::<(), Error>(Error::IncompleteNbtValue) && final(body)@
            == old(body)@,
        chunk@.len() > 0 ==> r is Ok && final(body)@ == old(body)@ + chunk@,
{
    if chunk.len() == 0 {
        return Err(Error::IncompleteNbtValue);
    }
    let mut chunk = chunk;
    body.append(&mut chunk);
    Ok(())
}

/// Reads the encoded form of a string: an unsigned two-byte length, then as many
/// bytes. A length of zero ends the read at once. Otherwise the source is asked again
/// and again for what is still missing, so a source that yields a few bytes at a time
/// serves as well as one that yields all at once; a source that yields nothing before
/// the length is reached has ended, and the value is incomplete.
pub fn read_prefixed<R: ByteSource>(src: &mut R, order: Endianness) -> (r: Result<Vec<u8>, Error>)
    ensures
        r matches Err(e) ==> e is IoError || e is IncompleteNbtValue,
        r matches Ok(body) ==> body@.len() <= 0xFFFF,
        old(src).pending() is None ==> final(src).pending() is None,
        old(src).pending() matches Some(s) ==> {
            &&& taken(s, final(src).pending(), viewed(r), parse_prefixed(s, order))
            &&& final(src).reads() > old(src).reads()
            &&& r matches Ok(body) ==> final(src).reads() <= old(src).reads() + 1 + body@.len()
        },
{
    let len: usize = match take_exact(src, 2) {
        Ok(prefix) => u16_from_bytes(prefix.as_slice(), order) as usize,
        Err(e) => {
            return Err(e);
        },
    };
    let mut body: Vec<u8> = Vec::new();
    if len == 0 {
        proof {
            if old(src).pending() is Some {
                let s = old(src).pending().unwrap();
                assert(body@ =~= s.subrange(2, 2));
            }
        }
        return Ok(body);
    }
    while body.len() < len
        invariant
            body@.len() <= len <= 0xFFFF,
            old(src).pending() is None ==> src.pending() is None,
            old(src).pending() matches Some(s) ==> {
                &&& s.len() >= 2
                &&& len == number(s.take(2), order)
                &&& s.len() >= 2 + body@.len()
                &&& body@ == s.subrange(2, 2 + body@.len() as int)
                &&& src.pending() == Some(s.skip(2 + body@.len() as int))
                &&& old(src).reads() < src.reads() <= old(src).reads() + 1 + body@.len()
            },
        decreases len - body@.len(),
    {
        let chunk: Vec<u8> = match take_some(src, len - body.len()) {
            Ok(chunk) => chunk,
            Err(e) => {
                return Err(e);
            },
        };
        match absorb(&mut body, chunk) {
            Ok(()) => {},
            Err(e) => {
                return Err(e);
            },
        }
    }
    Ok(body)
}

/// The text that an encoded form stands for: the empty text for no bytes, without
/// a look at the decoder; otherwise what the bytes decode to as modified UTF-8, or
/// `InvalidCesu8` where they decode to nothing.
pub fn text_from_encoded(body: &[u8]) -> (r: Result<String, Error>)
    ensures
        match text_of(body@) {
            Some(text) => r matches Ok(t) && t@ == text,
            None => r == Err::<String, Error>(Error::InvalidCesu8),
        },
{
    if body.len() == 0 {
        return Ok(String::new());
    }
    decode_text(body)
}

/// Reads a string: its encoded form as `read_prefixed` reads it, decoded as modified
/// UTF-8. A string of length zero is the empty text, and costs the source the one
/// request for the length and no more.
pub fn read_bare_string<R: ByteSource>(src: &mut R, order: Endianness) -> (r: Result<String, Error>)
    ensures
        old(src).pending() is None ==> final(src).pending() is None,
        old(src).pending() matches Some(s) ==> {
            &&& taken(s, final(src).pending(), viewed(r), parse_string(s, order))
            &&& final(src).reads() > old(src).reads()
            &&& s.len() >= 2 && number(s.take(2), order) == 0 ==> final(src).reads() == old(
                src,
            ).reads() + 1
        },
{
    let body: Vec<u8> = match read_prefixed(src, order) {
        Ok(body) => body,
        Err(e) => {
            return Err(e);
        },
    };
    text_from_encoded(body.as_slice())
}

/// Reads the next header: a tag byte and, unless the tag is zero, the name that follows
/// it as a string. The zero tag ends a compound; it is returned with the empty name, and
/// nothing is read behind it.
pub fn emit_next_header<R: ByteSource>(src: &mut R, order: Endianness) -> (r: Result<
    (u8, String),
    Error,
>)
    ensures
        r matches Ok(header) ==> (header.0 == 0 ==> header.1@.len() == 0),
        old(src).pending() is None ==> final(src).pending() is None,
        old(src).pending() matches Some(s) ==> {
            &&& taken(s, final(src).pending(), viewed(r), parse_header(s, order))
            &&& s.len() >= 1 && s[0] == 0 ==> final(src).reads() == old(src).reads() + 1
        },
{
    let tag: u8 = match take_exact(src, 1) {
        Ok(bytes) => bytes[0],
        Err(e) => {
            return Err(e);
        },
    };
    if tag == 0 {
        return Ok((tag, String::new()));
    }
    let r = match read_bare_string(src, order) {
        Ok(name) => Ok((tag, name)),
        Err(e) => Err(e),
    };
    proof {
        if old(src).pending() is Some {
            let s = old(src).pending().unwrap();
            if let Ok((_, used)) = parse_string(s.skip(1), order) {
                assert(s.skip(1).skip(used as int) =~= s.skip(1 + used as int));
            }
        }
    }
    r
}

} // verus!
