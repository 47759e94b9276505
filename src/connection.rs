//! The per-connection request reader: it accumulates what the peer sends,
//! grows its buffer only when nearly full, and cuts complete request heads
//! off the front.

use vstd::prelude::*;
use crate::buffer::{bytes_of, capacity_of, head_status_of, held_bytes, parse_head, HeadStatus};

verus! {

/// One decoded request: the bytes of its head, exactly as they arrived.
pub struct Request {
    frame: bytes::BytesMut,
}

impl View for Request {
    type V = Seq<u8>;

    closed spec fn view(&self) -> Seq<u8> {
        bytes_of(self.frame)
    }
}

impl Request {
    /// The bytes of the request head.
    pub fn frame(&self) -> (r: &[u8])
        ensures
            r@ == self@,
    {
        held_bytes(&self.frame)
    }
}

/// The outcome of one decode attempt.
pub enum Decoded {
    /// A complete request was cut off the front of the buffer.
    Request(Request),
    /// More bytes are needed before a request is complete.
    Incomplete,
    /// The bytes cannot be a request: the connection is to be abandoned.
    Invalid,
}

/// The bytes pending after `data` has been read into a buffer holding `pending`.
pub open spec fn fed(pending: Seq<u8>, data: Seq<u8>) -> Seq<u8> {
    pending + data
}

/// The bytes pending after each chunk has been read in turn.
pub open spec fn feed_all(pending: Seq<u8>, chunks: Seq<Seq<u8>>) -> Seq<u8>
    decreases chunks.len(),
{
    if chunks.len() == 0 {
        pending
    } else {
        fed(feed_all(pending, chunks.drop_last()), chunks.last())
    }
}

/// The chunks joined end to end.
pub open spec fn flatten(chunks: Seq<Seq<u8>>) -> Seq<u8>
    decreases chunks.len(),
{
    if chunks.len() == 0 {
        Seq::<u8>::empty()
    } else {
        flatten(chunks.drop_last()) + chunks.last()
    }
}

/// Reading a request in many small pieces leaves the reader holding the
/// same bytes as reading it all at once, so the decoder reports the same
/// outcome: no request needs its bytes to arrive in a single read.
pub proof fn lemma_chunked_reads_match_one_read(pending: Seq<u8>, chunks: Seq<Seq<u8>>)
    ensures
        feed_all(pending, chunks) == fed(pending, flatten(chunks)),
        head_status_of(feed_all(pending, chunks)) == head_status_of(fed(pending, flatten(chunks))),
    decreases chunks.len(),
{
    if chunks.len() > 0 {
        lemma_chunked_reads_match_one_read(pending, chunks.drop_last());
        assert(fed(pending, flatten(chunks)) =~= fed(
            fed(pending, flatten(chunks.drop_last())),
            chunks.last(),
        ));
    } else {
        assert(fed(pending, flatten(chunks)) =~= pending);
    }
}

/// The read side of one connection: the bytes received and not yet decoded.
pub struct RequestReader {
    buf: bytes::BytesMut,
    low_water: usize,
    grow_by: usize,
}

impl RequestReader {
    /// The bytes received and not yet decoded.
    pub closed spec fn pending(&self) -> Seq<u8> {
        bytes_of(self.buf)
    }

    /// Room left in the buffer before it must reallocate.
    pub closed spec fn spare(&self) -> int {
        capacity_of(self.buf) - bytes_of(self.buf).len()
    }

    pub closed spec fn low_water_mark(&self) -> nat {
        self.low_water as nat
    }

    pub closed spec fn growth(&self) -> nat {
        self.grow_by as nat
    }

    /// A reader with an empty buffer of `capacity` bytes, which grows by
    /// `grow_by` whenever fewer than `low_water` bytes of room are left.
    pub fn new(capacity: usize, low_water: usize, grow_by: usize) -> (r: RequestReader)
        ensures
            r.pending() == Seq::<u8>::empty(),
            r.spare() >= capacity,
            r.low_water_mark() == low_water,
            r.growth() == grow_by,
    {
        RequestReader { buf: bytes::BytesMut::with_capacity(capacity), low_water, grow_by }
    }

    /// The reader of a connection served one request at a time.
    pub fn sequential() -> (r: RequestReader)
        ensures
            r.pending() == Seq::<u8>::empty(),
            r.spare() >= 512,
            r.low_water_mark() == 256,
            r.growth() == 512,
    {
        RequestReader::new(512, 256, 512)
    }

    /// The reader of a pipelined connection.
    pub fn pipelined() -> (r: RequestReader)
        ensures
            r.pending() == Seq::<u8>::empty(),
            r.spare() >= 4096,
            r.low_water_mark() == 1024,
            r.growth() == 4096,
    {
        RequestReader::new(4096, 1024, 4096)
    }

    /// The number of bytes received and not yet decoded.
    pub fn pending_len(&self) -> (r: usize)
        ensures
            r == self.pending().len(),
    {
        self.buf.len()
    }

    /// Room left in the buffer before it must reallocate.
    pub fn spare_capacity(&self) -> (r: usize)
        ensures
            r == self.spare(),
    {
        self.buf.capacity() - self.buf.len()
    }

    /// Tries to decode one request from the front of the pending bytes.
    /// A complete head is cut off and returned; on an incomplete one the
    /// bytes stay, and the buffer grows first if little room is left.
    pub fn decode(&mut self) -> (r: Decoded)
        ensures
            final(self).low_water_mark() == old(self).low_water_mark(),
            final(self).growth() == old(self).growth(),
            match head_status_of(old(self).pending()) {
                HeadStatus::Complete(n) => {
                    &&& n <= old(self).pending().len()
                    &&& r matches Decoded::Request(req)
                    &&& req@ == old(self).pending().take(n as int)
                    &&& req@ + final(self).pending() == old(self).pending()
                    &&& final(self).pending() == old(self).pending().skip(n as int)
                },
                HeadStatus::Partial => {
                    &&& r is Incomplete
                    &&& final(self).pending() == old(self).pending()
                    &&& old(self).spare() >= old(self).low_water_mark() ==> final(self).spare()
                        == old(self).spare()
                    &&& (old(self).spare() < old(self).low_water_mark()
                        && old(self).pending().len() + old(self).growth() <= usize::MAX)
                        ==> final(self).spare() >= old(self).growth()
                },
                HeadStatus::Invalid => {
                    &&& r is Invalid
                    &&& final(self).pending() == old(self).pending()
                    &&& final(self).spare() == old(self).spare()
                },
            },
    {
        let status = parse_head(held_bytes(&self.buf));
        match status {
            HeadStatus::Complete(n) => {
                let frame = self.buf.split_to(n);
                Decoded::Request(Request { frame })
            },
            HeadStatus::Partial => {
                let len = self.buf.len();
                let cap = self.buf.capacity();
                if cap - len < self.low_water && len <= usize::MAX - self.grow_by {
                    self.buf.reserve(self.grow_by);
                }
                Decoded::Incomplete
            },
            HeadStatus::Invalid => Decoded::Invalid,
        }
    }

    /// Takes in the bytes of one read. An empty read means the peer closed
    /// the connection: the result is then `false` and nothing changes.
    pub fn feed(&mut self, data: &[u8]) -> (open: bool)
        requires
            old(self).pending().len() + data@.len() <= usize::MAX,
        ensures
            open == (data@.len() > 0),
            final(self).pending() == fed(old(self).pending(), data@),
            final(self).low_water_mark() == old(self).low_water_mark(),
            final(self).growth() == old(self).growth(),
    {
        if data.len() == 0 {
            assert(fed(old(self).pending(), data@) =~= old(self).pending());
            false
        } else {
            self.buf.extend_from_slice(data);
            true
        }
    }
}

} // verus!
