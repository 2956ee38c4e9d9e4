//! Byte sinks and byte sources: where values are written to and read from.
//!
//! A sink or a source may carry a model that says exactly which bytes it has accepted or
//! has yet to yield. The buffers of this module carry one, and of them every read and
//! write is determined. A sink or a source without a model, such as a file or a socket
//! behind an adapter, owes nothing: whatever it hands over, the functions that read from
//! it and write to it end in a value or in an error.

use crate::error::IoFault;
use vstd::prelude::*;

verus! {

/// Something that accepts bytes.
pub trait ByteSink {
    /// The bytes accepted so far, where the sink keeps account of them.
    open spec fn written(&self) -> Option<Seq<u8>> {
        None
    }

    /// Hands all of `bytes` to the sink. A sink that keeps account never fails.
    fn write_all(&mut self, bytes: &[u8]) -> (r: Result<(), IoFault>)
        ensures
            old(self).written() is None ==> final(self).written() is None,
            old(self).written() matches Some(w) ==> r is Ok && final(self).written() == Some(
                w + bytes@,
            ),
    ;
}

/// A growable buffer is a sink that keeps everything and never fails.
impl ByteSink for Vec<u8> {
    open spec fn written(&self) -> Option<Seq<u8>> {
        Some(self@)
    }

    fn write_all(&mut self, bytes: &[u8]) -> (r: Result<(), IoFault>) {
        self.extend_from_slice(bytes);
        Ok(())
    }
}

/// Something that yields bytes, possibly fewer at a time than it was asked for.
///
/// Only a source with a model is bound by the contracts below. The readers of this
/// library hold every source to the sizes that they asked for, and take a source that
/// hands over anything else to have failed.
pub trait ByteSource {
    /// The bytes that the source has yet to yield before it ends, where that is known.
    open spec fn pending(&self) -> Option<Seq<u8>> {
        None
    }

    /// The number of requests that the source has served, where it keeps count.
    open spec fn reads(&self) -> nat {
        0
    }

    /// Yields some of the next bytes, at most `max` of them. A source whose bytes are
    /// known never fails, and yields nothing only when it is asked for nothing or has
    /// come to its end.
    fn read(&mut self, max: usize) -> (r: Result<Vec<u8>, IoFault>)
        ensures
            old(self).pending() is None ==> final(self).pending() is None,
            old(self).pending() matches Some(s) ==> {
                &&& r matches Ok(chunk)
                &&& chunk@.len() <= max
                &&& chunk@.len() <= s.len()
                &&& chunk@ == s.take(chunk@.len() as int)
                &&& (chunk@.len() == 0 ==> max == 0 || s.len() == 0)
                &&& final(self).pending() == Some(s.skip(chunk@.len() as int))
                &&& final(self).reads() == old(self).reads() + 1
            },
    ;

    /// Yields exactly the next `n` bytes, or fails. A source whose bytes are known
    /// fails only for want of bytes, and then with `UnexpectedEof`.
    fn read_exact(&mut self, n: usize) -> (r: Result<Vec<u8>, IoFault>)
        ensures
            old(self).pending() is None ==> final(self).pending() is None,
            old(self).pending() matches Some(s) ==> {
                &&& final(self).reads() == old(self).reads() + 1
                &&& if n <= s.len() {
                    &&& r matches Ok(bytes)
                    &&& bytes@ == s.take(n as int)
                    &&& final(self).pending() == Some(s.skip(n as int))
                } else {
                    &&& r == Err::<Vec<u8>, IoFault>(IoFault::UnexpectedEof)
                    &&& final(self).pending() is Some
                }
            },
    ;
}

/// A source that yields the bytes of a buffer held in memory, at most a fixed number of
/// them at each request.
pub struct MemorySource {
    data: Vec<u8>,
    pos: usize,
    chunk: usize,
    served: Ghost<nat>,
}

impl MemorySource {
    #[verifier::type_invariant]
    spec fn well_formed(&self) -> bool {
        self.pos <= self.data@.len() && self.chunk >= 1
    }

    /// The bytes not yet yielded.
    pub closed spec fn rest(&self) -> Seq<u8> {
        self.data@.skip(self.pos as int)
    }

    /// The largest number of bytes yielded at one request.
    pub closed spec fn chunk_limit(&self) -> nat {
        self.chunk as nat
    }

    /// A source that yields `data` and hands over as many bytes as are asked for.
    pub fn new(data: Vec<u8>) -> (r: MemorySource)
        ensures
            r.rest() == data@,
            r.reads() == 0,
            r.chunk_limit() == usize::MAX,
    {
        MemorySource { data, pos: 0, chunk: usize::MAX, served: Ghost(0) }
    }

    /// A source that yields `data` in pieces of at most `chunk` bytes, or of one byte
    /// where `chunk` is zero.
    pub fn with_chunk(data: Vec<u8>, chunk: usize) -> (r: MemorySource)
        ensures
            r.rest() == data@,
            r.reads() == 0,
            r.chunk_limit() == if chunk == 0 { 1 } else { chunk as nat },
    {
        let chunk: usize = if chunk == 0 { 1 } else { chunk };
        MemorySource { data, pos: 0, chunk, served: Ghost(0) }
    }

    /// The number of bytes not yet yielded.
    pub fn remaining(&self) -> (r: usize)
        ensures
            r == self.rest().len(),
    {
        proof {
            use_type_invariant(self);
        }
        self.data.len() - self.pos
    }

    /// Hands over the next `n` bytes and counts the request.
    fn take_next(&mut self, n: usize) -> (r: Vec<u8>)
        requires
            n <= old(self).rest().len(),
        ensures
            r@ == old(self).rest().take(n as int),
            final(self).rest() == old(self).rest().skip(n as int),
            final(self).chunk_limit() == old(self).chunk_limit(),
            final(self).reads() == old(self).reads() + 1,
    {
        proof {
            use_type_invariant(&*self);
            assert(self.pos + n <= self.data.len());
        }
        let end: usize = self.pos + n;
        let r = vstd::slice::slice_to_vec(
            vstd::slice::slice_subrange(self.data.as_slice(), self.pos, end),
        );
        self.pos = end;
        self.served = Ghost((self.served@ + 1) as nat);
        r
    }
}

impl ByteSource for MemorySource {
    open spec fn pending(&self) -> Option<Seq<u8>> {
        Some(self.rest())
    }

    closed spec fn reads(&self) -> nat {
        self.served@
    }

    /// Yields as many of the next bytes as were asked for, as the chunk limit allows and
    /// as are left, whichever is least.
    fn read(&mut self, max: usize) -> (r: Result<Vec<u8>, IoFault>)
        ensures
            r matches Ok(chunk) && chunk@.len() == vstd::math::min(
                max as int,
                vstd::math::min(old(self).chunk_limit() as int, old(self).rest().len() as int),
            ),
            final(self).chunk_limit() == old(self).chunk_limit(),
    {
        proof {
            use_type_invariant(&*self);
        }
        let left: usize = self.data.len() - self.pos;
        let mut n: usize = if max < left { max } else { left };
        if self.chunk < n {
            n = self.chunk;
        }
        Ok(self.take_next(n))
    }

    /// Yields the next `n` bytes at once, whatever the chunk limit. Where fewer are left
    /// it fails and keeps them.
    fn read_exact(&mut self, n: usize) -> (r: Result<Vec<u8>, IoFault>)
        ensures
            final(self).chunk_limit() == old(self).chunk_limit(),
            r is Err ==> final(self).rest() == old(self).rest(),
    {
        proof {
            use_type_invariant(&*self);
        }
        if n <= self.data.len() - self.pos {
            Ok(self.take_next(n))
        } else {
            self.served = Ghost((self.served@ + 1) as nat);
            Err(IoFault::UnexpectedEof)
        }
    }
}

} // verus!
