//! The message framer: length-delimited frames over a secure channel.
//!
//! The engine consumes a channel only through this layer. Beside the real
//! byte work the framer keeps a ghost trace of every wire action it has
//! taken; the ordering guarantees of the protocol — one response frame
//! before any payload byte — are stated over that trace.

use vstd::prelude::*;
use vstd::slice::*;
use crate::codec::{dec_u64, enc_bytes};
use crate::BLE_BUFFER_SIZE;

verus! {

/// An encrypted, integrity-protected bidirectional byte stream over either
/// transport, with explicit close. Implementations come from the embedding
/// application (a TCP socket or an L2CAP channel behind the cryptographic
/// layer); the engine assumes nothing about what they return, so every
/// contract of this crate holds whatever a channel does.
pub trait SecureChannel: Sized {
    /// Hands back the next received bytes, or an empty vector once the
    /// stream is exhausted. The engine copes with chunks of any size.
    fn read_chunk(&mut self, max: usize) -> Vec<u8>;

    /// Tries to send `data`; reports how many leading bytes were taken.
    /// The engine copes with any report.
    fn write_chunk(&mut self, data: &Vec<u8>) -> usize;

    /// Closes the stream; further reads and writes are dead letters.
    fn close(&mut self);
}

/// One action the framer took on the wire, as recorded in its trace.
pub enum WireOp {
    /// A frame with this payload was handed to the channel.
    SentFrame(Seq<u8>),
    /// A complete frame with this payload was read off the channel.
    RecvFrame(Seq<u8>),
    /// These raw payload bytes were handed to the channel.
    SentPayload(Seq<u8>),
    /// These raw payload bytes were read off the channel.
    RecvPayload(Seq<u8>),
}

/// The payload bytes a trace has read, in order.
pub open spec fn recv_payload_bytes(tr: Seq<WireOp>) -> Seq<u8>
    decreases tr.len(),
{
    if tr.len() == 0 {
        Seq::empty()
    } else {
        recv_payload_bytes(tr.drop_last()) + (match tr.last() {
            WireOp::RecvPayload(b) => b,
            _ => Seq::<u8>::empty(),
        })
    }
}

/// The payload bytes a trace has sent, in order.
pub open spec fn sent_payload_bytes(tr: Seq<WireOp>) -> Seq<u8>
    decreases tr.len(),
{
    if tr.len() == 0 {
        Seq::empty()
    } else {
        sent_payload_bytes(tr.drop_last()) + (match tr.last() {
            WireOp::SentPayload(b) => b,
            _ => Seq::<u8>::empty(),
        })
    }
}

/// How many payload reads a trace holds.
pub open spec fn recv_op_count(tr: Seq<WireOp>) -> nat
    decreases tr.len(),
{
    if tr.len() == 0 {
        0
    } else {
        recv_op_count(tr.drop_last()) + (if tr.last() is RecvPayload {
            1nat
        } else {
            0nat
        })
    }
}

/// Appending one action raises the payload-read count exactly when the
/// action is a payload read.
pub proof fn lemma_recv_op_count_push(tr: Seq<WireOp>, op: WireOp)
    ensures
        recv_op_count(tr.push(op)) == recv_op_count(tr) + (if op is RecvPayload {
            1nat
        } else {
            0nat
        }),
{
    assert(tr.push(op).drop_last() =~= tr);
    assert(tr.push(op).last() == op);
}

/// A leading action that is no payload read leaves the payload-read count.
pub proof fn lemma_recv_op_count_cons(op: WireOp, tr: Seq<WireOp>)
    requires
        !(op is RecvPayload),
    ensures
        recv_op_count(seq![op] + tr) == recv_op_count(tr),
    decreases tr.len(),
{
    let whole = seq![op] + tr;
    if tr.len() == 0 {
        assert(whole.drop_last() =~= Seq::<WireOp>::empty());
        assert(whole.last() == op);
        assert(recv_op_count(Seq::<WireOp>::empty()) == 0);
        assert(recv_op_count(whole) == 0);
        assert(recv_op_count(tr) == 0);
    } else {
        assert(whole.drop_last() =~= seq![op] + tr.drop_last());
        assert(whole.last() == tr.last());
        lemma_recv_op_count_cons(op, tr.drop_last());
    }
}

/// A leading action that reads no payload adds no payload bytes.
pub proof fn lemma_recv_payload_bytes_cons(op: WireOp, tr: Seq<WireOp>)
    requires
        !(op is RecvPayload),
    ensures
        recv_payload_bytes(seq![op] + tr) == recv_payload_bytes(tr),
    decreases tr.len(),
{
    let whole = seq![op] + tr;
    if tr.len() == 0 {
        assert(whole.drop_last() =~= Seq::<WireOp>::empty());
        assert(whole.last() == op);
        assert(recv_payload_bytes(Seq::<WireOp>::empty()) == Seq::<u8>::empty());
        assert(recv_payload_bytes(whole) =~= Seq::<u8>::empty());
        assert(recv_payload_bytes(tr) =~= Seq::<u8>::empty());
    } else {
        assert(whole.drop_last() =~= seq![op] + tr.drop_last());
        assert(whole.last() == tr.last());
        lemma_recv_payload_bytes_cons(op, tr.drop_last());
    }
}

/// Every payload read in the trace hands over at most `bound` bytes.
pub open spec fn reads_bounded(tr: Seq<WireOp>, bound: int) -> bool {
    forall|i: int|
        0 <= i < tr.len() ==> ((#[trigger] tr[i]) matches WireOp::RecvPayload(b) ==> b.len()
            <= bound)
}

/// Every action in the trace is a payload read.
pub open spec fn all_recv_payload(tr: Seq<WireOp>) -> bool {
    forall|i: int| 0 <= i < tr.len() ==> (#[trigger] tr[i]) is RecvPayload
}

/// Length-delimited message codec over a secure channel. Each frame is the
/// payload length as eight little-endian bytes, then the payload.
pub struct MessageFramer<C: SecureChannel> {
    channel: C,
    buffered: Vec<u8>,
    trace: Ghost<Seq<WireOp>>,
}

impl<C: SecureChannel> MessageFramer<C> {
    /// Everything this framer has done on the wire, oldest first.
    pub closed spec fn wire_trace(&self) -> Seq<WireOp> {
        self.trace@
    }

    /// Wraps a channel; nothing has happened on the wire yet.
    pub fn new(channel: C) -> (r: MessageFramer<C>)
        ensures
            r.wire_trace() == Seq::<WireOp>::empty(),
    {
        MessageFramer { channel, buffered: Vec::new(), trace: Ghost(Seq::empty()) }
    }

    /// Hands one frame carrying `payload` to the channel. Reports whether
    /// the channel took all of it; the attempt is recorded either way.
    #[verifier::loop_isolation(false)]
    pub fn send_frame(&mut self, payload: &Vec<u8>) -> (ok: bool)
        ensures
            final(self).wire_trace() == old(self).wire_trace() + seq![WireOp::SentFrame(payload@)],
    {
        let ghost t0 = self.trace@;
        let mut frame: Vec<u8> = Vec::new();
        enc_bytes(&mut frame, payload);
        self.trace = Ghost(t0 + seq![WireOp::SentFrame(payload@)]);
        let mut offset: usize = 0;
        while offset < frame.len()
            invariant
                self.trace@ == t0 + seq![WireOp::SentFrame(payload@)],
                offset <= frame.len(),
            decreases frame.len() - offset,
        {
            let remaining = slice_to_vec(slice_subrange(frame.as_slice(), offset, frame.len()));
            let w = self.channel.write_chunk(&remaining);
            if w == 0 {
                return false;
            }
            let took = if w < remaining.len() {
                w
            } else {
                remaining.len()
            };
            offset = offset + took;
        }
        true
    }

    /// Reads one complete frame off the channel and yields its payload;
    /// yields nothing if the stream ends first.
    #[verifier::loop_isolation(false)]
    pub fn recv_frame(&mut self) -> (r: Option<Vec<u8>>)
        ensures
            r matches Some(p) ==> final(self).wire_trace() == old(self).wire_trace() + seq![
                WireOp::RecvFrame(p@),
            ],
            r is None ==> final(self).wire_trace() == old(self).wire_trace(),
    {
        let ghost t0 = self.trace@;
        while self.buffered.len() < 8
            invariant
                self.trace@ == t0,
            decreases (if self.buffered.len() < 8 { 8 - self.buffered.len() } else { 0int }),
        {
            let mut chunk = self.channel.read_chunk(BLE_BUFFER_SIZE);
            if chunk.len() == 0 {
                return None;
            }
            self.buffered.append(&mut chunk);
        }
        let n: u64 = match dec_u64(&self.buffered, 0) {
            Some((n, _)) => n,
            None => {
                return None;
            },
        };
        if n > (usize::MAX as u64) - 8 {
            return None;
        }
        let needed: usize = 8 + (n as usize);
        while self.buffered.len() < needed
            invariant
                self.trace@ == t0,
                needed >= 8,
            decreases (if self.buffered.len() < needed { needed - self.buffered.len() } else { 0int }),
        {
            let mut chunk = self.channel.read_chunk(BLE_BUFFER_SIZE);
            if chunk.len() == 0 {
                return None;
            }
            self.buffered.append(&mut chunk);
        }
        let payload = slice_to_vec(slice_subrange(self.buffered.as_slice(), 8, needed));
        let rest = slice_to_vec(
            slice_subrange(self.buffered.as_slice(), needed, self.buffered.len()),
        );
        self.buffered = rest;
        self.trace = Ghost(t0 + seq![WireOp::RecvFrame(payload@)]);
        Some(payload)
    }

    /// Reads up to `max` raw payload bytes; an empty result means the
    /// stream ended.
    pub fn read_payload(&mut self, max: usize) -> (r: Vec<u8>)
        requires
            max >= 1,
        ensures
            r.len() <= max,
            r.len() > 0 ==> final(self).wire_trace() == old(self).wire_trace() + seq![
                WireOp::RecvPayload(r@),
            ],
            r.len() == 0 ==> final(self).wire_trace() == old(self).wire_trace(),
    {
        let ghost t0 = self.trace@;
        let r: Vec<u8> = if self.buffered.len() > 0 {
            let take = if max < self.buffered.len() {
                max
            } else {
                self.buffered.len()
            };
            let head = slice_to_vec(slice_subrange(self.buffered.as_slice(), 0, take));
            let rest = slice_to_vec(
                slice_subrange(self.buffered.as_slice(), take, self.buffered.len()),
            );
            self.buffered = rest;
            head
        } else {
            let chunk = self.channel.read_chunk(max);
            if chunk.len() <= max {
                chunk
            } else {
                let head = slice_to_vec(slice_subrange(chunk.as_slice(), 0, max));
                let mut rest = slice_to_vec(slice_subrange(chunk.as_slice(), max, chunk.len()));
                self.buffered.append(&mut rest);
                head
            }
        };
        if r.len() > 0 {
            self.trace = Ghost(t0 + seq![WireOp::RecvPayload(r@)]);
        }
        r
    }

    /// Hands raw payload bytes to the channel; reports how many leading
    /// bytes it took.
    pub fn write_payload(&mut self, data: &Vec<u8>) -> (written: usize)
        ensures
            written <= data.len(),
            written > 0 ==> final(self).wire_trace() == old(self).wire_trace() + seq![
                WireOp::SentPayload(data@.take(written as int)),
            ],
            written == 0 ==> final(self).wire_trace() == old(self).wire_trace(),
    {
        let ghost t0 = self.trace@;
        let w = self.channel.write_chunk(data);
        let written = if w < data.len() {
            w
        } else {
            data.len()
        };
        if written > 0 {
            self.trace = Ghost(t0 + seq![WireOp::SentPayload(data@.take(written as int))]);
        }
        written
    }

    /// Closes the underlying channel.
    pub fn close(&mut self)
        ensures
            final(self).wire_trace() == old(self).wire_trace(),
    {
        self.channel.close();
    }
}

} // verus!
