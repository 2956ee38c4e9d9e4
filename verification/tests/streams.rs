use nbt_raw::read::{take_exact, take_some};
use nbt_raw::write::write_bytes;
use nbt_raw::{
    close_nbt, emit_next_header, read_bare_int, read_bare_string, write_bare_byte,
    write_bare_int, write_bare_int_array, write_bare_long, write_bare_string, ByteSink,
    ByteSource, Endianness, Error, IoFault, MemorySource,
};

/// A source that hands over one byte more or fewer than it was asked for.
struct Careless {
    more: bool,
}

impl ByteSource for Careless {
    fn read(&mut self, max: usize) -> Result<Vec<u8>, IoFault> {
        Ok(vec![0x41; max + 1])
    }

    fn read_exact(&mut self, n: usize) -> Result<Vec<u8>, IoFault> {
        if self.more {
            Ok(vec![0; n + 1])
        } else {
            Ok(vec![0; n - 1])
        }
    }
}

/// A source that keeps to the size of the length of a string and to no other.
struct CarelessBody;

impl ByteSource for CarelessBody {
    fn read(&mut self, max: usize) -> Result<Vec<u8>, IoFault> {
        Ok(vec![0x41; max + 1])
    }

    fn read_exact(&mut self, n: usize) -> Result<Vec<u8>, IoFault> {
        Ok(vec![1; n])
    }
}

/// A sink that accepts a given number of bytes and fails from then on.
struct Limited {
    room: usize,
    taken: Vec<u8>,
}

impl ByteSink for Limited {
    fn write_all(&mut self, bytes: &[u8]) -> Result<(), IoFault> {
        if bytes.len() > self.room {
            return Err(IoFault::Other);
        }
        self.room -= bytes.len();
        self.taken.extend_from_slice(bytes);
        Ok(())
    }
}

#[test]
fn a_vector_keeps_what_is_written_in_order() {
    let mut out: Vec<u8> = vec![0xEE];
    assert_eq!(write_bare_byte(&mut out, 1), Ok(()));
    assert_eq!(write_bare_int(&mut out, 2, Endianness::Big), Ok(()));
    assert_eq!(write_bare_string(&mut out, "ab", Endianness::Big), Ok(()));
    assert_eq!(close_nbt(&mut out), Ok(()));
    assert_eq!(out, vec![0xEEu8, 1, 0, 0, 0, 2, 0, 2, 0x61, 0x62, 0]);
}

#[test]
fn a_fault_of_the_sink_is_an_io_error() {
    let fault: Error = Error::IoError(IoFault::Other);
    let mut sink = Limited { room: 0, taken: Vec::new() };
    assert_eq!(close_nbt(&mut sink), Err(fault));
    assert_eq!(write_bare_byte(&mut sink, 1), Err(fault));
    assert_eq!(write_bare_long(&mut sink, 1, Endianness::Big), Err(fault));
    assert_eq!(write_bare_string(&mut sink, "", Endianness::Big), Err(fault));
    assert_eq!(write_bytes(&mut sink, &[1]), Err(fault));
    assert_eq!(write_bytes(&mut sink, &[]), Ok(()));
}

#[test]
fn an_array_stops_at_the_first_fault() {
    let mut sink = Limited { room: 9, taken: Vec::new() };
    assert_eq!(
        write_bare_int_array(&mut sink, &[1, 2, 3], Endianness::Big),
        Err(Error::IoError(IoFault::Other))
    );
    assert_eq!(sink.taken, vec![0u8, 0, 0, 3, 0, 0, 0, 1]);
    let mut sink = Limited { room: 16, taken: Vec::new() };
    assert_eq!(write_bare_int_array(&mut sink, &[1, 2, 3], Endianness::Big), Ok(()));
    assert_eq!(sink.taken, vec![0u8, 0, 0, 3, 0, 0, 0, 1, 0, 0, 0, 2, 0, 0, 0, 3]);
}

#[test]
fn a_string_stops_at_the_first_fault() {
    let mut sink = Limited { room: 3, taken: Vec::new() };
    assert_eq!(
        write_bare_string(&mut sink, "abcd", Endianness::Big),
        Err(Error::IoError(IoFault::Other))
    );
    assert_eq!(sink.taken, vec![0u8, 4]);
}

#[test]
fn a_memory_source_yields_what_is_asked_for() {
    let mut src = MemorySource::new(vec![1, 2, 3, 4, 5]);
    assert_eq!(src.remaining(), 5);
    assert_eq!(src.read(2), Ok(vec![1u8, 2]));
    assert_eq!(src.read(0), Ok(vec![]));
    assert_eq!(src.read_exact(2), Ok(vec![3u8, 4]));
    assert_eq!(src.read(10), Ok(vec![5u8]));
    assert_eq!(src.read(10), Ok(vec![]));
    assert_eq!(src.remaining(), 0);
}

#[test]
fn a_memory_source_keeps_to_its_chunk_limit() {
    let mut src = MemorySource::with_chunk(vec![1, 2, 3, 4, 5, 6, 7], 3);
    assert_eq!(src.read(10), Ok(vec![1u8, 2, 3]));
    assert_eq!(src.read(2), Ok(vec![4u8, 5]));
    assert_eq!(src.read(10), Ok(vec![6u8, 7]));
    assert_eq!(src.read(10), Ok(vec![]));
    let mut src = MemorySource::with_chunk(vec![1, 2], 0);
    assert_eq!(src.read(10), Ok(vec![1u8]));
    assert_eq!(src.read(10), Ok(vec![2u8]));
}

#[test]
fn an_exact_read_of_too_much_fails_and_keeps_the_bytes() {
    let mut src = MemorySource::with_chunk(vec![1, 2, 3], 1);
    assert_eq!(src.read_exact(4), Err(IoFault::UnexpectedEof));
    assert_eq!(src.remaining(), 3);
    assert_eq!(src.read_exact(3), Ok(vec![1u8, 2, 3]));
    assert_eq!(src.read_exact(0), Ok(vec![]));
    assert_eq!(src.read_exact(1), Err(IoFault::UnexpectedEof));
}

#[test]
fn a_source_that_hands_over_the_wrong_number_of_bytes_has_failed() {
    let fault: Error = Error::IoError(IoFault::Other);
    for more in [true, false] {
        assert_eq!(take_exact(&mut Careless { more }, 4), Err(fault));
        assert_eq!(read_bare_int(&mut Careless { more }, Endianness::Big), Err(fault));
        assert_eq!(read_bare_string(&mut Careless { more }, Endianness::Big), Err(fault));
        assert_eq!(emit_next_header(&mut Careless { more }, Endianness::Big), Err(fault));
    }
    assert_eq!(take_some(&mut Careless { more: true }, 4), Err(fault));
    assert_eq!(read_bare_string(&mut CarelessBody, Endianness::Big), Err(fault));
}

#[test]
fn a_source_is_taken_at_its_word_within_the_sizes() {
    let mut src = MemorySource::with_chunk(vec![1, 2, 3, 4, 5], 2);
    assert_eq!(take_some(&mut src, 4), Ok(vec![1u8, 2]));
    assert_eq!(take_exact(&mut src, 3), Ok(vec![3u8, 4, 5]));
    assert_eq!(take_some(&mut src, 4), Ok(vec![]));
    assert_eq!(take_exact(&mut src, 1), Err(Error::IoError(IoFault::UnexpectedEof)));
}
