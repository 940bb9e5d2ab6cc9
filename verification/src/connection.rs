//! The wire format of the broker connection, without the socket.
//!
//! A message on the wire is its length in four bytes, big-endian, and then
//! that many bytes of body. [`CTraderConnection`] turns a message body into
//! the bytes to write, and turns the bytes that were read, in whatever chunks
//! they came, back into message bodies. The caller owns the socket.

use bytes::{Buf, BufMut, BytesMut};
use vstd::prelude::*;

verus! {

// ------------------------------------------------------------ byte buffer

/// The growable byte buffer of the `bytes` crate.
#[verifier::external_type_specification]
#[verifier::external_body]
pub struct ExBytesMut(bytes::BytesMut);

/// The bytes that a buffer holds, first to last.
pub uninterp spec fn buffered(buf: BytesMut) -> Seq<u8>;

/// The four bytes of a number, most significant first.
pub open spec fn be_bytes(n: u32) -> Seq<u8> {
    seq![
        (n / 0x100_0000) as u8,
        (n / 0x1_0000 % 0x100) as u8,
        (n / 0x100 % 0x100) as u8,
        (n % 0x100) as u8,
    ]
}

/// The number whose four bytes, most significant first, start the sequence.
pub open spec fn be_value(s: Seq<u8>) -> int {
    s[0] * 0x100_0000 + s[1] * 0x1_0000 + s[2] * 0x100 + s[3]
}

/// `BytesMut::with_capacity` makes a buffer that holds nothing. It panics
/// where the capacity exceeds what an allocation can have.
#[verifier::external_body]
fn buf_with_capacity(capacity: usize) -> (buf: BytesMut)
    requires
        capacity <= isize::MAX,
    ensures
        buffered(buf) == Seq::<u8>::empty(),
{
    BytesMut::with_capacity(capacity)
}

/// `BufMut::put_u32` on a `BytesMut` appends the number in big-endian order.
/// Memory is taken to suffice where the buffer has to grow.
#[verifier::external_body]
fn buf_put_u32(buf: &mut BytesMut, n: u32)
    requires
        buffered(*old(buf)).len() + 4 <= isize::MAX,
    ensures
        buffered(*final(buf)) == buffered(*old(buf)) + be_bytes(n),
{
    buf.put_u32(n)
}

/// `BufMut::put_slice` on a `BytesMut` appends the bytes. Memory is taken to
/// suffice where the buffer has to grow.
#[verifier::external_body]
fn buf_put_slice(buf: &mut BytesMut, bytes: &[u8])
    requires
        buffered(*old(buf)).len() + bytes@.len() <= isize::MAX,
    ensures
        buffered(*final(buf)) == buffered(*old(buf)) + bytes@,
{
    buf.put_slice(bytes)
}

/// `BytesMut::len` is the number of bytes that the buffer holds.
#[verifier::external_body]
fn buf_len(buf: &BytesMut) -> (n: usize)
    ensures
        n == buffered(*buf).len(),
{
    buf.len()
}

/// `Buf::get_u32` on the first four bytes of a `BytesMut` reads them as a
/// big-endian number. The buffer itself is left as it is.
#[verifier::external_body]
fn buf_first_u32(buf: &BytesMut) -> (n: u32)
    requires
        buffered(*buf).len() >= 4,
    ensures
        n == be_value(buffered(*buf)),
{
    (&buf[..4]).get_u32()
}

/// The `Deref` of a `BytesMut` to a slice gives the bytes that it holds; this
/// copies the first `n` of them.
#[verifier::external_body]
fn buf_copy(buf: &BytesMut, n: usize) -> (bytes: Vec<u8>)
    requires
        n <= buffered(*buf).len(),
    ensures
        bytes@ == buffered(*buf).take(n as int),
{
    buf[..n].to_vec()
}

/// `Buf::advance` on a `BytesMut` drops bytes from the front. It panics where
/// the buffer holds fewer.
#[verifier::external_body]
fn buf_advance(buf: &mut BytesMut, n: usize)
    requires
        n <= buffered(*old(buf)).len(),
    ensures
        buffered(*final(buf)) == buffered(*old(buf)).skip(n as int),
{
    buf.advance(n)
}

// -------------------------------------------------------------- the model

/// The bytes of a message on the wire. The length field holds the low 32 bits
/// of the length.
pub open spec fn frame(body: Seq<u8>) -> Seq<u8> {
    be_bytes((body.len() % 0x1_0000_0000) as u32) + body
}

/// Where a read stands: what it came to, and what is left in the buffer.
pub struct ReadState {
    pub step: ReadStep,
    pub rest: Seq<u8>,
}

pub enum ReadStep {
    /// More bytes are needed. `pending` is the length of the body that is
    /// being read, once its length field has been taken off the buffer.
    NeedBytes { pending: Option<usize> },
    /// The body of a message.
    Body { body: Seq<u8> },
}

/// Reads the body of `len` bytes, or waits for it.
pub open spec fn read_body(buf: Seq<u8>, len: usize) -> ReadState {
    if buf.len() >= len {
        ReadState { step: ReadStep::Body { body: buf.take(len as int) }, rest: buf.skip(len as int) }
    } else {
        ReadState { step: ReadStep::NeedBytes { pending: Some(len) }, rest: buf }
    }
}

/// Reads the next message from the buffer, or as much of it as is there.
pub open spec fn read_message(buf: Seq<u8>, pending: Option<usize>) -> ReadState {
    match pending {
        Some(len) => read_body(buf, len),
        None => if buf.len() >= 4 {
            read_body(buf.skip(4), be_value(buf) as usize)
        } else {
            ReadState { step: ReadStep::NeedBytes { pending: None }, rest: buf }
        },
    }
}

// ---------------------------------------------------------- the connection

/// The protocol half of a broker connection: the bytes that were read from
/// the socket and not yet handed out.
pub struct CTraderConnection {
    read_buf: BytesMut,
}

/// What a read came to.
#[derive(Debug)]
pub enum RecvStep {
    /// More bytes are needed: read from the socket, hand them to
    /// [`CTraderConnection::fill_buf`], and go on with `pending`.
    NeedBytes { pending: Option<usize> },
    /// The body of the next message.
    Body(Vec<u8>),
}

impl RecvStep {
    pub open spec fn view(&self) -> ReadStep {
        match self {
            RecvStep::NeedBytes { pending } => ReadStep::NeedBytes { pending: *pending },
            RecvStep::Body(body) => ReadStep::Body { body: body@ },
        }
    }
}

/// The server closed the connection.
#[derive(Debug, Clone, Copy, PartialEq, Eq, Structural)]
pub struct ConnectionClosed;

impl CTraderConnection {
    /// The bytes that were read and not yet handed out.
    pub closed spec fn view(&self) -> Seq<u8> {
        buffered(self.read_buf)
    }

    /// A connection on which nothing was read yet.
    pub fn new() -> (conn: Self)
        ensures
            conn@ == Seq::<u8>::empty(),
    {
        CTraderConnection { read_buf: buf_with_capacity(4096) }
    }

    /// The bytes to write to the socket for a message.
    pub fn send(message: &[u8]) -> (bytes: Vec<u8>)
        requires
            message@.len() + 4 <= isize::MAX,
        ensures
            bytes@ == frame(message@),
    {
        let n = message.len();
        let len: u32 = (n as u64 % 0x1_0000_0000) as u32;
        let mut out = buf_with_capacity(4 + n);
        buf_put_u32(&mut out, len);
        buf_put_slice(&mut out, message);
        let total = buf_len(&out);
        let bytes = buf_copy(&out, total);
        assert(bytes@ =~= frame(message@));
        bytes
    }

    /// Reads the next message out of the bytes at hand. `pending` is `None`
    /// at the start of a message; when more bytes are needed, the step says
    /// with which `pending` to go on.
    pub fn recv_raw(&mut self, pending: Option<usize>) -> (step: RecvStep)
        ensures
            step@ == read_message(old(self)@, pending).step,
            final(self)@ == read_message(old(self)@, pending).rest,
    {
        let msg_len: usize = match pending {
            Some(len) => len,
            None => {
                if buf_len(&self.read_buf) < 4 {
                    return RecvStep::NeedBytes { pending: None };
                }
                let len = buf_first_u32(&self.read_buf) as usize;
                buf_advance(&mut self.read_buf, 4);
                len
            },
        };
        if buf_len(&self.read_buf) < msg_len {
            return RecvStep::NeedBytes { pending: Some(msg_len) };
        }
        let body = buf_copy(&self.read_buf, msg_len);
        buf_advance(&mut self.read_buf, msg_len);
        RecvStep::Body(body)
    }

    /// Takes in the bytes of one read from the socket. A read of no bytes
    /// means that the server closed the connection.
    pub fn fill_buf(&mut self, chunk: &[u8]) -> (r: Result<(), ConnectionClosed>)
        requires
            old(self)@.len() + chunk@.len() <= isize::MAX,
        ensures
            r is Err <==> chunk@.len() == 0,
            final(self)@ == old(self)@ + chunk@,
    {
        if chunk.len() == 0 {
            assert(self@ + chunk@ =~= self@);
            return Err(ConnectionClosed);
        }
        buf_put_slice(&mut self.read_buf, chunk);
        Ok(())
    }

    /// The number of bytes at hand.
    pub fn buffered_len(&self) -> (n: usize)
        ensures
            n == self@.len(),
    {
        buf_len(&self.read_buf)
    }
}

// --------------------------------------------------------------------- laws

proof fn lemma_be_round_trip(n: u32, rest: Seq<u8>)
    ensures
        be_value(be_bytes(n) + rest) == n,
{
    let s = be_bytes(n) + rest;
    assert(s[0] == (n / 0x100_0000) as u8);
    assert(s[1] == (n / 0x1_0000 % 0x100) as u8);
    assert(s[2] == (n / 0x100 % 0x100) as u8);
    assert(s[3] == (n % 0x100) as u8);
}

proof fn lemma_read_after_head(head: Seq<u8>, body: Seq<u8>, rest: Seq<u8>)
    requires
        head.len() == 4,
        body.len() <= u32::MAX,
        be_value(head + (body + rest)) == body.len(),
    ensures
        read_message(head + body + rest, None) == (ReadState {
            step: ReadStep::Body { body },
            rest,
        }),
{
    let buf = head + body + rest;
    assert(buf =~= head + (body + rest));
    assert(buf.skip(4) =~= body + rest);
    assert((body + rest).take(body.len() as int) =~= body);
    assert((body + rest).skip(body.len() as int) =~= rest);
}

/// Reading gives back what was written: from the frame of a message, followed
/// by anything, the message is read and what followed is left.
pub proof fn law_read_back(body: Seq<u8>, rest: Seq<u8>)
    requires
        body.len() <= u32::MAX,
    ensures
        read_message(frame(body) + rest, None) == (ReadState {
            step: ReadStep::Body { body },
            rest,
        }),
{
    let n = body.len() as u32;
    assert(body.len() % 0x1_0000_0000 == body.len());
    lemma_be_round_trip(n, body + rest);
    lemma_read_after_head(be_bytes(n), body, rest);
}

/// It does not matter in which chunks the bytes come: a read that had to wait
/// goes on, once more bytes are there, as if they had been there from the
/// start.
pub proof fn law_chunks_do_not_matter(buf: Seq<u8>, pending: Option<usize>, more: Seq<u8>)
    ensures
        match read_message(buf, pending).step {
            ReadStep::NeedBytes { pending: next } => read_message(
                read_message(buf, pending).rest + more,
                next,
            ) == read_message(buf + more, pending),
            ReadStep::Body { .. } => read_message(buf + more, pending) == (ReadState {
                step: read_message(buf, pending).step,
                rest: read_message(buf, pending).rest + more,
            }),
        },
{
    if pending is None && buf.len() >= 4 {
        assert((buf + more).skip(4) =~= buf.skip(4) + more);
        let len = be_value(buf) as usize;
        assert(be_value(buf + more) == be_value(buf));
        if buf.skip(4).len() >= len {
            assert((buf.skip(4) + more).take(len as int) =~= buf.skip(4).take(len as int));
            assert((buf.skip(4) + more).skip(len as int) =~= buf.skip(4).skip(len as int) + more);
        }
    }
    if let Some(len) = pending {
        if buf.len() >= len {
            assert((buf + more).take(len as int) =~= buf.take(len as int));
            assert((buf + more).skip(len as int) =~= buf.skip(len as int) + more);
        }
    }
}

/// The frames of the messages, one after the other.
pub open spec fn frames(bodies: Seq<Seq<u8>>) -> Seq<u8>
    decreases bodies.len(),
{
    if bodies.len() == 0 {
        Seq::empty()
    } else {
        frame(bodies[0]) + frames(bodies.drop_first())
    }
}

/// Bytes that came in chunks, as a whole.
pub open spec fn joined(chunks: Seq<Seq<u8>>) -> Seq<u8>
    decreases chunks.len(),
{
    if chunks.len() == 0 {
        Seq::empty()
    } else {
        chunks[0] + joined(chunks.drop_first())
    }
}

/// What came of reading for as long as there were messages: the messages, and
/// where the next read stands.
pub struct Received {
    pub bodies: Seq<Seq<u8>>,
    pub rest: Seq<u8>,
    pub pending: Option<usize>,
}

impl Received {
    /// The same after one message more at the front.
    pub open spec fn after(self, body: Seq<u8>) -> Received {
        Received { bodies: seq![body] + self.bodies, ..self }
    }
}

/// Reads messages out of the buffer until more bytes are needed.
#[verifier::opaque]
pub open spec fn drain(buf: Seq<u8>, pending: Option<usize>) -> Received
    decreases buf.len(), (if pending is Some { 1int } else { 0int }),
{
    let state = read_message(buf, pending);
    match state.step {
        ReadStep::Body { body } => drain(state.rest, None).after(body),
        ReadStep::NeedBytes { pending: next } => Received {
            bodies: Seq::empty(),
            rest: state.rest,
            pending: next,
        },
    }
}

/// Reads messages as the chunks come in: what is there, then, after each
/// chunk, what has become complete.
pub open spec fn receive(
    buf: Seq<u8>,
    pending: Option<usize>,
    chunks: Seq<Seq<u8>>,
) -> Received
    decreases chunks.len(),
{
    let now = drain(buf, pending);
    if chunks.len() == 0 {
        now
    } else {
        let later = receive(now.rest + chunks[0], now.pending, chunks.drop_first());
        Received { bodies: now.bodies + later.bodies, ..later }
    }
}

proof fn lemma_drain_more(buf: Seq<u8>, pending: Option<usize>, more: Seq<u8>)
    ensures
        ({
            let now = drain(buf, pending);
            let later = drain(now.rest + more, now.pending);
            drain(buf + more, pending) == Received { bodies: now.bodies + later.bodies, ..later }
        }),
    decreases buf.len(), (if pending is Some { 1int } else { 0int }),
{
    reveal(drain);
    let state = read_message(buf, pending);
    let now = drain(buf, pending);
    let later = drain(now.rest + more, now.pending);
    law_chunks_do_not_matter(buf, pending, more);
    match state.step {
        ReadStep::Body { body } => {
            lemma_drain_more(state.rest, None, more);
            let inner = drain(state.rest, None);
            assert(now.bodies == seq![body] + inner.bodies);
            assert(seq![body] + (inner.bodies + later.bodies) =~= now.bodies + later.bodies);
        },
        ReadStep::NeedBytes { .. } => {
            assert(drain(buf + more, pending) == later);
            assert(Seq::<Seq<u8>>::empty() + later.bodies =~= later.bodies);
        },
    }
}

proof fn lemma_receive_as_a_whole(buf: Seq<u8>, pending: Option<usize>, chunks: Seq<Seq<u8>>)
    ensures
        receive(buf, pending, chunks) == drain(buf + joined(chunks), pending),
    decreases chunks.len(),
{
    if chunks.len() == 0 {
        assert(buf + joined(chunks) =~= buf);
    } else {
        let now = drain(buf, pending);
        let tail = chunks.drop_first();
        lemma_receive_as_a_whole(now.rest + chunks[0], now.pending, tail);
        lemma_drain_more(buf, pending, joined(chunks));
        assert(now.rest + chunks[0] + joined(tail) =~= now.rest + joined(chunks));
    }
}

proof fn lemma_drain_frame(body: Seq<u8>, rest: Seq<u8>)
    requires
        body.len() <= u32::MAX,
    ensures
        drain(frame(body) + rest, None) == drain(rest, None).after(body),
{
    reveal(drain);
    law_read_back(body, rest);
}

proof fn lemma_drain_nothing()
    ensures
        drain(Seq::empty(), None) == (Received {
            bodies: Seq::empty(),
            rest: Seq::empty(),
            pending: None,
        }),
{
    reveal(drain);
}

proof fn lemma_drain_frames(bodies: Seq<Seq<u8>>)
    requires
        forall|i: int| 0 <= i < bodies.len() ==> (#[trigger] bodies[i]).len() <= u32::MAX,
    ensures
        drain(frames(bodies), None) == (Received { bodies, rest: Seq::empty(), pending: None }),
    decreases bodies.len(),
{
    if bodies.len() == 0 {
        lemma_drain_nothing();
        assert(bodies =~= Seq::empty());
    } else {
        let tail = bodies.drop_first();
        assert forall|i: int| 0 <= i < tail.len() implies (#[trigger] tail[i]).len()
            <= u32::MAX by {
            assert(tail[i] == bodies[i + 1]);
        }
        lemma_drain_frames(tail);
        lemma_drain_frame(bodies[0], frames(tail));
        assert(seq![bodies[0]] + tail =~= bodies);
    }
}

/// A stream of messages is read back as it was written, wherever it is cut
/// into chunks: the same messages, in the same order, and nothing left over.
/// The read that follows waits for bytes, at the start of a message.
pub proof fn law_stream_read_back(bodies: Seq<Seq<u8>>, chunks: Seq<Seq<u8>>)
    requires
        forall|i: int| 0 <= i < bodies.len() ==> (#[trigger] bodies[i]).len() <= u32::MAX,
        joined(chunks) == frames(bodies),
    ensures
        receive(Seq::empty(), None, chunks) == (Received {
            bodies,
            rest: Seq::empty(),
            pending: None,
        }),
        read_message(Seq::empty(), None).step == (ReadStep::NeedBytes { pending: None }),
{
    lemma_receive_as_a_whole(Seq::empty(), None, chunks);
    assert(Seq::<u8>::empty() + joined(chunks) =~= frames(bodies));
    lemma_drain_frames(bodies);
}

// -------------------------------------------------------------- whole calls

/// What a list of byte strings reads as.
pub open spec fn byte_views(list: Seq<Vec<u8>>) -> Seq<Seq<u8>> {
    Seq::new(list.len(), |i: int| list[i]@)
}

/// What came of reading one message, the reads from the socket included.
pub struct Call {
    pub result: Result<Seq<u8>, ConnectionClosed>,
    /// The bytes at hand afterwards.
    pub rest: Seq<u8>,
    /// The reads that are still to come.
    pub reads: Seq<Seq<u8>>,
}

/// Reads from the socket until a message is complete. A read of no bytes, or
/// one beyond the last, finds the connection closed.
pub open spec fn call(buf: Seq<u8>, pending: Option<usize>, reads: Seq<Seq<u8>>) -> Call
    decreases reads.len(),
{
    let state = read_message(buf, pending);
    match state.step {
        ReadStep::Body { body } => Call { result: Ok(body), rest: state.rest, reads },
        ReadStep::NeedBytes { pending: next } => if reads.len() == 0 {
            Call { result: Err(ConnectionClosed), rest: state.rest, reads }
        } else if reads[0].len() == 0 {
            Call { result: Err(ConnectionClosed), rest: state.rest, reads: reads.drop_first() }
        } else {
            call(state.rest + reads[0], next, reads.drop_first())
        },
    }
}

/// The results of `n` calls, one after the other.
pub open spec fn calls(n: nat, buf: Seq<u8>, reads: Seq<Seq<u8>>) -> Seq<
    Result<Seq<u8>, ConnectionClosed>,
>
    decreases n,
{
    if n == 0 {
        Seq::empty()
    } else {
        let first = call(buf, None, reads);
        seq![first.result] + calls((n - 1) as nat, first.rest, first.reads)
    }
}

/// Whether each read brings bytes.
pub open spec fn all_bring_bytes(reads: Seq<Seq<u8>>) -> bool {
    forall|i: int| 0 <= i < reads.len() ==> (#[trigger] reads[i]).len() > 0
}

impl CTraderConnection {
    /// Reads the next message, where the reads from the socket bring `reads`,
    /// from the place `from` on. The second part of the result is the place of
    /// the read that comes next.
    pub fn recv_from(&mut self, reads: &Vec<Vec<u8>>, from: usize) -> (r: (
        Result<Vec<u8>, ConnectionClosed>,
        usize,
    ))
        requires
            from <= reads@.len(),
            old(self)@.len() + joined(byte_views(reads@).skip(from as int)).len() <= isize::MAX,
        ensures
            ({
                let one = call(old(self)@, None, byte_views(reads@).skip(from as int));
                &&& match r.0 {
                    Ok(body) => one.result == Ok::<Seq<u8>, ConnectionClosed>(body@),
                    Err(e) => one.result == Err::<Seq<u8>, ConnectionClosed>(e),
                }
                &&& final(self)@ == one.rest
                &&& from <= r.1 <= reads@.len()
                &&& byte_views(reads@).skip(r.1 as int) == one.reads
            }),
    {
        let ghost all = byte_views(reads@);
        let ghost one = call(self@, None, all.skip(from as int));
        let mut at: usize = from;
        let mut pending: Option<usize> = None;
        loop
            invariant
                all == byte_views(reads@),
                from <= at <= reads@.len(),
                one == call(old(self)@, None, all.skip(from as int)),
                one == call(self@, pending, all.skip(at as int)),
                self@.len() + joined(all.skip(at as int)).len() <= isize::MAX,
            decreases reads@.len() - at,
        {
            match self.recv_raw(pending) {
                RecvStep::Body(body) => {
                    return (Ok(body), at);
                },
                RecvStep::NeedBytes { pending: next } => {
                    if at == reads.len() {
                        return (Err(ConnectionClosed), at);
                    }
                    assert(all.skip(at as int)[0] == reads@[at as int]@);
                    assert(all.skip(at as int).drop_first() =~= all.skip(at + 1));
                    let filled = self.fill_buf(reads[at].as_slice());
                    at = at + 1;
                    if filled.is_err() {
                        assert(self@ =~= one.rest);
                        return (Err(ConnectionClosed), at);
                    }
                    pending = next;
                },
            }
        }
    }
}

proof fn lemma_call(buf: Seq<u8>, pending: Option<usize>, reads: Seq<Seq<u8>>)
    requires
        all_bring_bytes(reads),
    ensures
        ({
            let one = call(buf, pending, reads);
            let whole = read_message(buf + joined(reads), pending);
            match whole.step {
                ReadStep::Body { body } => one.result == Ok::<Seq<u8>, ConnectionClosed>(body)
                    && one.rest + joined(one.reads) == whole.rest && all_bring_bytes(one.reads),
                ReadStep::NeedBytes { .. } => one.result is Err,
            }
        }),
    decreases reads.len(),
{
    let state = read_message(buf, pending);
    law_chunks_do_not_matter(buf, pending, joined(reads));
    match state.step {
        ReadStep::Body { .. } => {},
        ReadStep::NeedBytes { pending: next } => {
            if reads.len() == 0 {
                assert(buf + joined(reads) =~= buf);
            } else {
                let tail = reads.drop_first();
                assert(reads[0].len() > 0);
                assert forall|i: int| 0 <= i < tail.len() implies (#[trigger] tail[i]).len()
                    > 0 by {
                    assert(tail[i] == reads[i + 1]);
                }
                lemma_call(state.rest + reads[0], next, tail);
                assert(state.rest + reads[0] + joined(tail) =~= state.rest + joined(reads));
            }
        },
    }
}

proof fn lemma_calls(buf: Seq<u8>, reads: Seq<Seq<u8>>, bodies: Seq<Seq<u8>>)
    requires
        all_bring_bytes(reads),
        forall|i: int| 0 <= i < bodies.len() ==> (#[trigger] bodies[i]).len() <= u32::MAX,
        buf + joined(reads) == frames(bodies),
    ensures
        calls(bodies.len() + 1, buf, reads) == sent_then_closed(bodies),
    decreases bodies.len(),
{
    let one = call(buf, None, reads);
    let after = calls(bodies.len(), one.rest, one.reads);
    lemma_call(buf, None, reads);
    if bodies.len() == 0 {
        assert(calls(1, buf, reads) == seq![one.result] + after);
        assert(after =~= Seq::empty());
        assert(calls(1, buf, reads) =~= sent_then_closed(bodies));
    } else {
        let tail = bodies.drop_first();
        law_read_back(bodies[0], frames(tail));
        assert forall|i: int| 0 <= i < tail.len() implies (#[trigger] tail[i]).len()
            <= u32::MAX by {
            assert(tail[i] == bodies[i + 1]);
        }
        lemma_calls(one.rest, one.reads, tail);
        assert(calls(bodies.len() + 1, buf, reads) == seq![one.result] + after);
        assert(seq![one.result] + sent_then_closed(tail) =~= sent_then_closed(bodies));
    }
}

/// The results of reading the messages and then finding the connection closed.
pub open spec fn sent_then_closed(bodies: Seq<Seq<u8>>) -> Seq<
    Result<Seq<u8>, ConnectionClosed>,
> {
    Seq::new(
        bodies.len() + 1,
        |i: int|
            if i < bodies.len() {
                Ok(bodies[i])
            } else {
                Err(ConnectionClosed)
            },
    )
}

/// Where a stream of messages is all that the socket brings, in whatever
/// reads, each call gives the next message, and the call after the last
/// message fails.
pub proof fn law_calls_give_the_messages(bodies: Seq<Seq<u8>>, reads: Seq<Seq<u8>>)
    requires
        forall|i: int| 0 <= i < bodies.len() ==> (#[trigger] bodies[i]).len() <= u32::MAX,
        all_bring_bytes(reads),
        joined(reads) == frames(bodies),
    ensures
        calls(bodies.len() + 1, Seq::empty(), reads) == sent_then_closed(bodies),
{
    assert(Seq::<u8>::empty() + joined(reads) =~= frames(bodies));
    lemma_calls(Seq::empty(), reads, bodies);
}

/// A message on the wire is its length, in four bytes with the most
/// significant first, and then the message.
pub proof fn law_form_of_a_frame(body: Seq<u8>)
    requires
        body.len() <= u32::MAX,
    ensures
        frame(body).len() == 4 + body.len(),
        frame(body)[0] * 0x100_0000 + frame(body)[1] * 0x1_0000 + frame(body)[2] * 0x100 + frame(
            body,
        )[3] == body.len(),
        frame(body).skip(4) == body,
{
    lemma_be_round_trip(body.len() as u32, body);
    assert(body.len() % 0x1_0000_0000 == body.len());
    assert(frame(body).skip(4) =~= body);
}

} // verus!
