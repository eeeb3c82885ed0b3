//! Stream capabilities: the read/write interface over a byte-addressable
//! resource, a memory-backed stream, and the no-op sentinel stream.

use vstd::prelude::*;
use vstd::string::StrSliceExecFns;
use vstd::utf8::encode_utf8;

verus! {

/// The bytes a read of `length` bytes starting at `start` yields from a
/// resource with content `content`: the in-range part of the requested
/// window, possibly shorter than `length` (empty at or past the end).
pub open spec fn read_window(content: Seq<u8>, start: int, length: int) -> Seq<u8>
    recommends
        start >= 0,
        length >= 0,
{
    let lo = if start > content.len() {
        content.len() as int
    } else {
        start
    };
    let hi = if start + length > content.len() {
        content.len() as int
    } else {
        start + length
    };
    content.subrange(lo, hi)
}

/// A readable resource serving RRQ transfers. Reading never disturbs the
/// content, so re-reading the same window (to resend an unacknowledged
/// block) yields the same bytes.
pub trait TftpReadStream: Sized {
    /// The full content of the resource.
    spec fn read_content(&self) -> Seq<u8>;

    /// Read up to `length` bytes starting at offset `start`; fewer bytes
    /// (including zero) come back at end-of-resource.
    fn get_block(&mut self, start: usize, length: usize) -> (r: Result<Vec<u8>, ()>)
        ensures
            *final(self) == *old(self),
            r is Ok,
            r matches Ok(bytes) ==> bytes@ == read_window(
                old(self).read_content(),
                start as int,
                length as int,
            ),
    ;
}

/// A writable resource serving WRQ transfers: a strictly sequential
/// append-only sink.
pub trait TftpWriteStream: Sized {
    /// The bytes accumulated in the sink so far.
    spec fn write_content(&self) -> Seq<u8>;

    /// Whether this sink stores what is appended; the sentinel stream
    /// accepts and discards instead.
    spec fn keeps_data(&self) -> bool;

    /// Append `bytes` at the current write cursor.
    fn add_block(&mut self, bytes: Box<Vec<u8>>) -> (r: Result<(), ()>)
        ensures
            r is Ok,
            final(self).keeps_data() == old(self).keeps_data(),
            final(self).write_content() == (if old(self).keeps_data() {
                old(self).write_content() + bytes@
            } else {
                old(self).write_content()
            }),
    ;
}

/// The sentinel stream installed before any transfer is negotiated:
/// reads yield nothing, writes succeed and discard.
pub struct NullStream;

impl TftpReadStream for NullStream {
    open spec fn read_content(&self) -> Seq<u8> {
        Seq::empty()
    }

    fn get_block(&mut self, start: usize, length: usize) -> (r: Result<Vec<u8>, ()>) {
        let empty: Vec<u8> = Vec::new();
        proof {
            assert(empty@ =~= read_window(self.read_content(), start as int, length as int));
        }
        Ok(empty)
    }
}

impl TftpWriteStream for NullStream {
    open spec fn write_content(&self) -> Seq<u8> {
        Seq::empty()
    }

    open spec fn keeps_data(&self) -> bool {
        false
    }

    fn add_block(&mut self, bytes: Box<Vec<u8>>) -> (r: Result<(), ()>) {
        Ok(())
    }
}

/// A memory-backed stream over a byte buffer; it serves reads from the
/// buffer and appends writes to it.
pub struct StringStream {
    pub bytes: Vec<u8>,
}

impl StringStream {
    /// A stream whose content is the UTF-8 encoding of `input`.
    pub fn new(input: String) -> (stream: StringStream)
        ensures
            stream.bytes@ == encode_utf8(input@),
    {
        StringStream { bytes: input.as_str().as_bytes_vec() }
    }

    /// A stream over the given bytes.
    pub fn from_bytes(bytes: Vec<u8>) -> (stream: StringStream)
        ensures
            stream.bytes == bytes,
    {
        StringStream { bytes }
    }
}

impl TftpReadStream for StringStream {
    open spec fn read_content(&self) -> Seq<u8> {
        self.bytes@
    }

    fn get_block(&mut self, start: usize, length: usize) -> (r: Result<Vec<u8>, ()>) {
        let len = self.bytes.len();
        let lo = if start > len {
            len
        } else {
            start
        };
        let hi = if length > len - lo {
            len
        } else {
            lo + length
        };
        let mut out: Vec<u8> = Vec::new();
        let mut i = lo;
        while i < hi
            invariant
                lo <= i <= hi <= self.bytes@.len(),
                out@ == self.bytes@.subrange(lo as int, i as int),
            decreases hi - i,
        {
            out.push(self.bytes[i]);
            i = i + 1;
            proof {
                assert(out@ =~= self.bytes@.subrange(lo as int, i as int));
            }
        }
        proof {
            assert(out@ =~= read_window(self.read_content(), start as int, length as int));
        }
        Ok(out)
    }
}

impl TftpWriteStream for StringStream {
    open spec fn write_content(&self) -> Seq<u8> {
        self.bytes@
    }

    open spec fn keeps_data(&self) -> bool {
        true
    }

    fn add_block(&mut self, bytes: Box<Vec<u8>>) -> (r: Result<(), ()>) {
        self.bytes.extend_from_slice(bytes.as_slice());
        proof {
            assert(self.bytes@ =~= old(self).bytes@ + bytes@);
        }
        Ok(())
    }
}

/// The readable stream a peer owns: the sentinel until an RRQ attaches a
/// resolved resource.
pub enum ReadStream {
    Null(NullStream),
    Memory(StringStream),
}

impl TftpReadStream for ReadStream {
    open spec fn read_content(&self) -> Seq<u8> {
        match self {
            ReadStream::Null(stream) => stream.read_content(),
            ReadStream::Memory(stream) => stream.read_content(),
        }
    }

    fn get_block(&mut self, start: usize, length: usize) -> (r: Result<Vec<u8>, ()>) {
        match self {
            ReadStream::Null(stream) => stream.get_block(start, length),
            ReadStream::Memory(stream) => stream.get_block(start, length),
        }
    }
}

/// The writable stream a peer owns: the sentinel until a WRQ attaches a
/// resolved sink.
pub enum WriteStream {
    Null(NullStream),
    Memory(StringStream),
}

impl TftpWriteStream for WriteStream {
    open spec fn write_content(&self) -> Seq<u8> {
        match self {
            WriteStream::Null(stream) => stream.write_content(),
            WriteStream::Memory(stream) => stream.write_content(),
        }
    }

    open spec fn keeps_data(&self) -> bool {
        match self {
            WriteStream::Null(stream) => stream.keeps_data(),
            WriteStream::Memory(stream) => stream.keeps_data(),
        }
    }

    fn add_block(&mut self, bytes: Box<Vec<u8>>) -> (r: Result<(), ()>) {
        match self {
            WriteStream::Null(stream) => stream.add_block(bytes),
            WriteStream::Memory(stream) => stream.add_block(bytes),
        }
    }
}

} // verus!
