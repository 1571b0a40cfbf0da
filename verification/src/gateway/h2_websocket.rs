//! A WebSocket over the two bodies of an HTTP/2 request: what is read comes in frames of the
//! request's body, and what is written goes out in frames of the response's.

use bytes::{Bytes, BytesMut};

use vstd::prelude::*;

verus! {

/// How many frames of a response's body may wait to be sent.
pub const RESPONSE_BODY_CHANNEL_CAPACITY: usize = 4;

#[verifier::external_type_specification]
#[verifier::external_body]
pub struct ExBytes(Bytes);

#[verifier::external_type_specification]
#[verifier::external_body]
pub struct ExBytesMut(BytesMut);

/// What a `Bytes` holds.
pub uninterp spec fn bytes_of(bytes: Bytes) -> Seq<u8>;

/// What a `BytesMut` holds.
pub uninterp spec fn bytes_mut_of(bytes: BytesMut) -> Seq<u8>;

/// `Bytes::new`: no bytes.
#[verifier::external_body]
fn empty_bytes() -> (r: Bytes)
    ensures
        bytes_of(r) == Seq::<u8>::empty(),
{
    Bytes::new()
}

/// `Buf::remaining` of a `Bytes`: how many bytes it holds.
#[verifier::external_body]
fn remaining(bytes: &Bytes) -> (r: usize)
    ensures
        r == bytes_of(*bytes).len(),
{
    bytes::Buf::remaining(bytes)
}

/// `Bytes::split_to`: takes the first `n` bytes off, and leaves the rest.
#[verifier::external_body]
fn split_to(bytes: &mut Bytes, n: usize) -> (r: Bytes)
    requires
        n <= bytes_of(*old(bytes)).len(),
    ensures
        bytes_of(r) == bytes_of(*old(bytes)).take(n as int),
        bytes_of(*final(bytes)) == bytes_of(*old(bytes)).skip(n as int),
{
    bytes.split_to(n)
}

/// `Bytes::copy_from_slice`: a copy of the slice.
#[verifier::external_body]
fn copy_from_slice(slice: &[u8]) -> (r: Bytes)
    ensures
        bytes_of(r) == slice@,
{
    Bytes::copy_from_slice(slice)
}

/// `BytesMut::with_capacity`: no bytes, and room for `n`. A vector cannot have more room than
/// `isize::MAX` bytes.
#[verifier::external_body]
fn with_capacity(n: usize) -> (r: BytesMut)
    requires
        n <= isize::MAX,
    ensures
        bytes_mut_of(r) == Seq::<u8>::empty(),
{
    BytesMut::with_capacity(n)
}

/// `BytesMut::extend_from_slice`: appends the slice. The result stays within `isize::MAX` bytes.
#[verifier::external_body]
fn extend_from_slice(bytes: &mut BytesMut, slice: &[u8])
    requires
        bytes_mut_of(*old(bytes)).len() + slice@.len() <= isize::MAX,
    ensures
        bytes_mut_of(*final(bytes)) == bytes_mut_of(*old(bytes)) + slice@,
{
    bytes.extend_from_slice(slice)
}

/// `BytesMut::freeze`: the same bytes, from now on unchanged.
#[verifier::external_body]
fn freeze(bytes: BytesMut) -> (r: Bytes)
    ensures
        bytes_of(r) == bytes_mut_of(bytes),
{
    bytes.freeze()
}

/// What came of the request's body.
pub enum BodyEvent {
    /// A frame of data.
    Data(Bytes),
    /// A frame without data, such as trailers: it carries no bytes of the WebSocket.
    NoData,
    /// The body is over.
    End,
}

/// What a reader can do.
pub enum ReadStep {
    /// Nothing is asked for, or the body is over.
    Nothing,
    /// These bytes are next.
    Deliver(Bytes),
    /// A frame of the body is needed.
    NeedFrame,
}

/// The reading half: bytes of the request's body that have not been read yet.
pub struct ExtendedConnectReader {
    buffered: Bytes,
    over: bool,
}

impl View for ExtendedConnectReader {
    type V = (Seq<u8>, bool);

    /// The bytes that wait to be read, and whether the body is over.
    closed spec fn view(&self) -> (Seq<u8>, bool) {
        (bytes_of(self.buffered), self.over)
    }
}

impl ExtendedConnectReader {
    pub fn new() -> (r: ExtendedConnectReader)
        ensures
            r@ == (Seq::<u8>::empty(), false),
    {
        ExtendedConnectReader { buffered: empty_bytes(), over: false }
    }

    /// What to do for a destination that has room for `room` bytes: as many of the waiting bytes
    /// as fit are delivered, in order.
    pub fn poll(&mut self, room: usize) -> (r: ReadStep)
        ensures
            ({
                let (waiting, over) = old(self)@;
                if room == 0 {
                    r is Nothing && final(self)@ == old(self)@
                } else if waiting.len() > 0 {
                    let n = if waiting.len() < room {
                        waiting.len() as int
                    } else {
                        room as int
                    };
                    &&& r matches ReadStep::Deliver(bytes) && bytes_of(bytes) == waiting.take(n)
                    &&& final(self)@ == (waiting.skip(n), over)
                } else {
                    &&& final(self)@ == old(self)@
                    &&& if over {
                        r is Nothing
                    } else {
                        r is NeedFrame
                    }
                }
            }),
            r is NeedFrame ==> old(self)@.0.len() == 0 && !old(self)@.1 && room > 0,
            r matches ReadStep::Deliver(bytes) ==> {
                &&& 0 < bytes_of(bytes).len() <= room
                &&& bytes_of(bytes) + final(self)@.0 == old(self)@.0
            },
            !(r is Deliver) ==> final(self)@.0 == old(self)@.0,
    {
        if room == 0 {
            return ReadStep::Nothing;
        }
        let waiting: usize = remaining(&self.buffered);
        if waiting > 0 {
            let n: usize = if waiting < room {
                waiting
            } else {
                room
            };
            return ReadStep::Deliver(split_to(&mut self.buffered, n));
        }
        if self.over {
            ReadStep::Nothing
        } else {
            ReadStep::NeedFrame
        }
    }

    /// Takes the frame that a reader without waiting bytes needed.
    pub fn on_body(&mut self, event: BodyEvent)
        requires
            old(self)@.0.len() == 0,
        ensures
            match event {
                BodyEvent::Data(bytes) => final(self)@ == (bytes_of(bytes), old(self)@.1),
                BodyEvent::NoData => final(self)@ == old(self)@,
                BodyEvent::End => final(self)@ == (old(self)@.0, true),
            },
    {
        match event {
            BodyEvent::Data(bytes) => {
                self.buffered = bytes;
            },
            BodyEvent::NoData => {},
            BodyEvent::End => {
                self.over = true;
            },
        }
    }

    /// Whether no bytes wait to be read.
    pub fn is_drained(&self) -> (r: bool)
        ensures
            r == (self@.0.len() == 0),
    {
        remaining(&self.buffered) == 0
    }
}

/// What is delivered and what still waits make up what was waiting: no byte is lost, added or
/// moved.
pub proof fn law_reading_keeps_bytes(waiting: Seq<u8>, n: int)
    requires
        0 <= n <= waiting.len(),
    ensures
        waiting.take(n) + waiting.skip(n) == waiting,
{
    assert(waiting.take(n) + waiting.skip(n) =~= waiting);
}

/// What is sent for one buffer: nothing for an empty one.
pub fn single_frame(buffer: &[u8]) -> (r: Option<Bytes>)
    ensures
        match r {
            Some(bytes) => buffer@.len() > 0 && bytes_of(bytes) == buffer@,
            None => buffer@.len() == 0,
        },
{
    if buffer.len() == 0 {
        return None;
    }
    Some(copy_from_slice(buffer))
}

/// The bytes of the first `n` buffers, one after the other.
pub open spec fn joined(buffers: Seq<&[u8]>, n: int) -> Seq<u8>
    decreases n,
{
    if n <= 0 {
        Seq::empty()
    } else {
        joined(buffers, n - 1) + buffers[n - 1]@
    }
}

proof fn lemma_joined_grows(buffers: Seq<&[u8]>, n: int, m: int)
    requires
        0 <= n <= m,
    ensures
        joined(buffers, n).len() <= joined(buffers, m).len(),
    decreases m - n,
{
    if n < m {
        lemma_joined_grows(buffers, n, m - 1);
    }
}

/// How many bytes several buffers hold together, where a frame can hold that many.
pub fn total_length(buffers: &[&[u8]]) -> (r: Option<usize>)
    ensures
        match r {
            Some(n) => n == joined(buffers@, buffers@.len() as int).len() && n <= isize::MAX,
            None => joined(buffers@, buffers@.len() as int).len() > isize::MAX,
        },
{
    let limit: usize = isize::MAX as usize;
    let mut total: usize = 0;
    let mut i: usize = 0;
    while i < buffers.len()
        invariant
            i <= buffers@.len(),
            limit == isize::MAX,
            total == joined(buffers@, i as int).len(),
            total <= limit,
        decreases buffers@.len() - i,
    {
        let n: usize = buffers[i].len();
        if n > limit - total {
            proof {
                lemma_joined_grows(buffers@, i + 1, buffers@.len() as int);
            }
            return None;
        }
        total += n;
        i += 1;
    }
    Some(total)
}

/// What is sent for several buffers: one frame with all their bytes, or nothing where there are
/// none.
pub fn gathered_frame(buffers: &[&[u8]]) -> (r: Option<Bytes>)
    requires
        joined(buffers@, buffers@.len() as int).len() <= isize::MAX,
    ensures
        ({
            let all = joined(buffers@, buffers@.len() as int);
            match r {
                Some(bytes) => all.len() > 0 && bytes_of(bytes) == all,
                None => all.len() == 0,
            }
        }),
{
    let total: usize = match total_length(buffers) {
        Some(total) => total,
        None => 0,
    };
    if total == 0 {
        return None;
    }
    let mut bytes = with_capacity(total);
    let mut i: usize = 0;
    while i < buffers.len()
        invariant
            i <= buffers@.len(),
            bytes_mut_of(bytes) == joined(buffers@, i as int),
            joined(buffers@, buffers@.len() as int).len() <= isize::MAX,
        decreases buffers@.len() - i,
    {
        proof {
            lemma_joined_grows(buffers@, i + 1, buffers@.len() as int);
        }
        extend_from_slice(&mut bytes, buffers[i]);
        i += 1;
    }
    Some(freeze(bytes))
}

/// A gathered frame holds every buffer whole, in its place behind those before it, and nothing
/// else.
pub proof fn law_gathered_bytes_keep_their_order(buffers: Seq<&[u8]>, n: int, i: int)
    requires
        0 <= i < n <= buffers.len(),
    ensures
        joined(buffers, i).len() + buffers[i]@.len() <= joined(buffers, n).len(),
        joined(buffers, n).subrange(
            joined(buffers, i).len() as int,
            (joined(buffers, i).len() + buffers[i]@.len()) as int,
        ) == buffers[i]@,
        joined(buffers, 0).len() == 0,
        joined(buffers, i + 1).len() == joined(buffers, i).len() + buffers[i]@.len(),
    decreases n,
{
    let start = joined(buffers, i).len() as int;
    let end = start + buffers[i]@.len();
    if i == n - 1 {
        assert(joined(buffers, n).subrange(start, end) =~= buffers[i]@);
    } else {
        law_gathered_bytes_keep_their_order(buffers, n - 1, i);
        assert(joined(buffers, n).subrange(start, end) =~= joined(buffers, n - 1).subrange(
            start,
            end,
        ));
    }
}

} // verus!
