//! The receiver side of one inbound connection: negotiation and transfer
//! state machine.
//!
//! A `ConnectionRequest` owns the parsed transfer request and the secure
//! channel it arrived on. The application answers it with `decline` or
//! `accept`; `accept` streams the payload in bounded chunks, reports
//! monotone progress, observes cancellation at every chunk boundary, and —
//! for a bundle — extracts the archive under the storage root. The order of
//! wire actions and the shape of the reported progress are stated over the
//! framer's wire trace and the recorded event log.

use vstd::prelude::*;
use vstd::pervasive::unreached;
use crate::codec::{encode_response, spec_enc_response};
use crate::framing::{
    MessageFramer, SecureChannel, WireOp, recv_payload_bytes, all_recv_payload, recv_op_count,
    lemma_recv_op_count_push, lemma_recv_op_count_cons, reads_bounded,
};
use crate::messages::{
    TransferRequest, TransferRequestResponse, Intent, FileTransferIntent, ClipboardTransferIntent,
    IntentV, TransferRequestV, FileTransferIntentV,
};
use crate::device::Device;
use crate::bundler::{
    unpack, ExtractedEntry, ExtractedEntryV, extracted_view, spec_unpack, spec_realized,
    spec_joined,
};
use crate::nearby::ConnectionIntentType;
use crate::BLE_BUFFER_SIZE;

verus! {

/// What portion of the announced payload has moved: `transferred` of
/// `total` bytes, `transferred` clamped to `total`.
#[derive(Clone, Copy, Debug, PartialEq, Eq, Structural)]
pub struct TransferProgress {
    pub transferred: u64,
    pub total: u64,
}

/// The receiver-side progress states, reported monotonically forward only:
/// Unknown, then Handshake, a non-decreasing run of Receiving, for a bundle
/// one Extracting, and one terminal Finished or Cancelled.
#[derive(Clone, Copy, Debug, PartialEq, Eq, Structural)]
pub enum ReceiveProgressState {
    Unknown,
    Handshake,
    Receiving { progress: TransferProgress },
    Extracting,
    Cancelled,
    Finished,
}

/// The application's progress observer. It runs synchronously on the
/// receiving worker and is consulted for cooperative cancellation at every
/// chunk boundary.
pub trait ReceiveProgressDelegate {
    /// Called once per reported state change.
    fn progress_changed(&mut self, progress: ReceiveProgressState);

    /// Consulted at each chunk boundary; answering true stops the receipt
    /// at that boundary.
    fn cancel_requested(&self) -> bool;
}

/// The bytes counter a Receiving report carries; zero for other states.
pub open spec fn progress_bytes(e: ReceiveProgressState) -> u64 {
    match e {
        ReceiveProgressState::Receiving { progress } => progress.transferred,
        _ => 0,
    }
}

/// How many Receiving reports an event log holds.
pub open spec fn receiving_count(evs: Seq<ReceiveProgressState>) -> nat
    decreases evs.len(),
{
    if evs.len() == 0 {
        0
    } else {
        receiving_count(evs.drop_last()) + (if evs.last() is Receiving {
            1nat
        } else {
            0nat
        })
    }
}

/// Appending one report raises the Receiving count exactly when the report
/// is a Receiving.
pub proof fn lemma_receiving_count_push(evs: Seq<ReceiveProgressState>, e: ReceiveProgressState)
    ensures
        receiving_count(evs.push(e)) == receiving_count(evs) + (if e is Receiving {
            1nat
        } else {
            0nat
        }),
{
    assert(evs.push(e).drop_last() =~= evs);
    assert(evs.push(e).last() == e);
}

/// A leading report that is no Receiving leaves the Receiving count.
pub proof fn lemma_receiving_count_cons(e: ReceiveProgressState, evs: Seq<ReceiveProgressState>)
    requires
        !(e is Receiving),
    ensures
        receiving_count(seq![e] + evs) == receiving_count(evs),
    decreases evs.len(),
{
    let whole = seq![e] + evs;
    if evs.len() == 0 {
        assert(whole.drop_last() =~= Seq::<ReceiveProgressState>::empty());
        assert(whole.last() == e);
        assert(receiving_count(Seq::<ReceiveProgressState>::empty()) == 0);
        assert(receiving_count(whole) == 0);
        assert(receiving_count(evs) == 0);
    } else {
        assert(whole.drop_last() =~= seq![e] + evs.drop_last());
        assert(whole.last() == evs.last());
        lemma_receiving_count_cons(e, evs.drop_last());
    }
}

/// The Receiving reports carry exactly the running byte counts of the
/// payload reads, clamped to the announced size: there is one report per
/// read, and the last report equals the clamped length of everything read,
/// recursively down to the first chunk.
pub open spec fn reports_are_read_totals(
    run: Seq<ReceiveProgressState>,
    tr: Seq<WireOp>,
    total: u64,
) -> bool
    decreases run.len(),
{
    if run.len() == 0 {
        tr.len() == 0
    } else {
        &&& tr.len() == run.len()
        &&& (run.last() matches ReceiveProgressState::Receiving { progress } && progress.total
            == total && progress.transferred as int == (if recv_payload_bytes(tr).len() <= total
            as int {
            recv_payload_bytes(tr).len() as int
        } else {
            total as int
        }))
        &&& reports_are_read_totals(run.drop_last(), tr.drop_last(), total)
    }
}

/// A run of Receiving reports: every element reports the announced total,
/// stays within it, and the counters never decrease.
pub open spec fn receiving_run_ok(run: Seq<ReceiveProgressState>, total: u64) -> bool {
    &&& (forall|i: int|
        0 <= i < run.len() ==> ((#[trigger] run[i]) matches ReceiveProgressState::Receiving {
            progress,
        } && progress.total == total && progress.transferred <= total))
    &&& (forall|i: int, j: int|
        0 <= i <= j < run.len() ==> progress_bytes(run[i]) <= progress_bytes(run[j]))
}

/// The event shape of one receipt, the leading Handshake not included,
/// with the Receiving run of length `k` made explicit.
pub open spec fn receipt_events_ok_at(
    evs: Seq<ReceiveProgressState>,
    total: u64,
    multi: bool,
    success: bool,
    k: int,
) -> bool {
    &&& 0 <= k < evs.len()
    &&& receiving_run_ok(evs.subrange(0, k), total)
    &&& (k + 1 == evs.len() || (k + 2 == evs.len() && multi && evs[k]
        is Extracting))
    &&& (success <==> evs.last() is Finished)
    &&& (!success ==> evs.last() is Cancelled)
    &&& (success && multi ==> k + 2 == evs.len())
    &&& (success && total > 0 ==> k >= 1 && progress_bytes(evs[k - 1]) == total)
}

/// The event shape of one receipt: a non-decreasing Receiving run bounded
/// by the announced size, then — only for a bundle — one Extracting, then
/// the terminal state; Finished exactly on success, and a successful
/// receipt of anything non-empty reports the full size before finishing.
pub open spec fn receipt_events_ok(
    evs: Seq<ReceiveProgressState>,
    total: u64,
    multi: bool,
    success: bool,
) -> bool {
    exists|k: int| receipt_events_ok_at(evs, total, multi, success, k)
}

/// The file-transfer intent a well-formed request carries.
pub open spec fn file_intent_of(r: TransferRequestV) -> FileTransferIntentV {
    match r.intent {
        Some(IntentV::FileTransfer(f)) => f,
        _ => arbitrary(),
    }
}

/// Law: on an accepted or declined connection the receiver hands exactly
/// one frame — the response — to the wire, and it does so before any
/// payload byte is read. The premises are exactly what `accept` ensures of
/// its wire-trace extension.
pub proof fn lemma_one_response_before_payload(tr: Seq<WireOp>)
    requires
        tr.len() >= 1,
        tr[0] is SentFrame,
        all_recv_payload(tr.skip(1)),
    ensures
        forall|i: int| 0 < i < tr.len() ==> !((#[trigger] tr[i]) is SentFrame),
        forall|i: int| 0 <= i < tr.len() && (#[trigger] tr[i]) is RecvPayload ==> i > 0,
{
    assert forall|i: int| 0 < i < tr.len() implies !((#[trigger] tr[i]) is SentFrame) by {
        assert(tr.skip(1)[i - 1] == tr[i]);
        assert(tr.skip(1)[i - 1] is RecvPayload);
    }
}

/// Law: a successful single-file receipt reports Handshake, then a
/// non-decreasing Receiving run bounded by the announced size and reaching
/// it, then Finished — and never Extracting. The premises are exactly what
/// `accept` ensures of its event extension when it succeeds on a
/// single-file intent.
pub proof fn lemma_single_file_success_trace(evs: Seq<ReceiveProgressState>, total: u64)
    requires
        evs.len() >= 2,
        evs[0] is Handshake,
        receipt_events_ok(evs.skip(1), total, false, true),
    ensures
        evs.last() is Finished,
        forall|i: int| 0 <= i < evs.len() ==> !((#[trigger] evs[i]) is Extracting),
        forall|i: int|
            1 <= i < evs.len() - 1 ==> ((#[trigger] evs[i])
                matches ReceiveProgressState::Receiving { progress } && progress.total == total
                && progress.transferred <= total),
        forall|i: int, j: int|
            1 <= i <= j < evs.len() - 1 ==> progress_bytes(evs[i]) <= progress_bytes(evs[j]),
        total > 0 ==> evs.len() >= 3 && progress_bytes(evs[evs.len() - 2]) == total,
{
    let inner = evs.skip(1);
    let k = choose|k: int| receipt_events_ok_at(inner, total, false, true, k);
    assert(receipt_events_ok_at(inner, total, false, true, k));
    assert(k + 1 == inner.len());
    assert(inner.last() == evs.last());
    assert forall|i: int| 0 <= i < evs.len() implies !((#[trigger] evs[i]) is Extracting) by {
        if 1 <= i < evs.len() - 1 {
            assert(inner[i - 1] == evs[i]);
            assert(inner.subrange(0, k)[i - 1] == inner[i - 1]);
        }
    }
    assert forall|i: int|
        1 <= i < evs.len() - 1 implies ((#[trigger] evs[i])
        matches ReceiveProgressState::Receiving { progress } && progress.total == total
        && progress.transferred <= total) by {
        assert(inner.subrange(0, k)[i - 1] == evs[i]);
    }
    assert forall|i: int, j: int|
        1 <= i <= j < evs.len() - 1 implies progress_bytes(evs[i]) <= progress_bytes(evs[j]) by {
        assert(inner.subrange(0, k)[i - 1] == evs[i]);
        assert(inner.subrange(0, k)[j - 1] == evs[j]);
    }
    if total > 0 {
        assert(inner[k - 1] == evs[k]);
    }
}

/// Law: a successful bundle receipt reports Handshake, a non-decreasing
/// Receiving run reaching the announced size, one Extracting, then
/// Finished. The premises are exactly what `accept` ensures of its event
/// extension when it succeeds on a multi-file intent.
pub proof fn lemma_multi_file_success_trace(evs: Seq<ReceiveProgressState>, total: u64)
    requires
        evs.len() >= 2,
        evs[0] is Handshake,
        receipt_events_ok(evs.skip(1), total, true, true),
    ensures
        evs.last() is Finished,
        evs[evs.len() - 2] is Extracting,
        forall|i: int|
            1 <= i < evs.len() - 2 ==> ((#[trigger] evs[i])
                matches ReceiveProgressState::Receiving { progress } && progress.total == total
                && progress.transferred <= total),
        forall|i: int, j: int|
            1 <= i <= j < evs.len() - 2 ==> progress_bytes(evs[i]) <= progress_bytes(evs[j]),
        total > 0 ==> evs.len() >= 4 && progress_bytes(evs[evs.len() - 3]) == total,
{
    let inner = evs.skip(1);
    let k = choose|k: int| receipt_events_ok_at(inner, total, true, true, k);
    assert(receipt_events_ok_at(inner, total, true, true, k));
    assert(k + 2 == inner.len());
    assert(inner.last() == evs.last());
    assert(inner[k] == evs[evs.len() - 2]);
    assert forall|i: int|
        1 <= i < evs.len() - 2 implies ((#[trigger] evs[i])
        matches ReceiveProgressState::Receiving { progress } && progress.total == total
        && progress.transferred <= total) by {
        assert(inner.subrange(0, k)[i - 1] == evs[i]);
    }
    assert forall|i: int, j: int|
        1 <= i <= j < evs.len() - 2 implies progress_bytes(evs[i]) <= progress_bytes(evs[j]) by {
        assert(inner.subrange(0, k)[i - 1] == evs[i]);
        assert(inner.subrange(0, k)[j - 1] == evs[j]);
    }
    if total > 0 {
        assert(inner[k - 1] == evs[k]);
    }
}

/// Law: a receipt that does not succeed — cancelled, starved, or failing
/// extraction — ends in a terminal Cancelled and never reports Finished;
/// that it leaves nothing realized is stated by `accept` itself.
pub proof fn lemma_unsuccessful_receipt_trace(
    evs: Seq<ReceiveProgressState>,
    total: u64,
    multi: bool,
)
    requires
        evs.len() >= 2,
        evs[0] is Handshake,
        receipt_events_ok(evs.skip(1), total, multi, false),
    ensures
        evs.last() is Cancelled,
        !(evs.last() is Finished),
{
    let inner = evs.skip(1);
    let k = choose|k: int| receipt_events_ok_at(inner, total, multi, false, k);
    assert(receipt_events_ok_at(inner, total, multi, false, k));
    assert(inner.last() == evs.last());
}

/// Receiver-side negotiation and transfer state machine for one inbound
/// connection.
pub struct ConnectionRequest<C: SecureChannel, R: ReceiveProgressDelegate> {
    /// The request read off the channel, immutable thereafter.
    pub transfer_request: TransferRequest,
    /// The secure channel the request arrived on, exclusively held.
    pub connection: MessageFramer<C>,
    /// The root under which received files land.
    pub file_storage: String,
    /// The cooperative cancellation flag, observed at chunk boundaries.
    pub should_cancel: bool,
    /// The application's progress observer, if any.
    pub progress_delegate: Option<R>,
    /// Every progress state reported so far, oldest first.
    pub events: Vec<ReceiveProgressState>,
    /// The files realized by a successful receipt.
    pub received_files: Vec<ExtractedEntry>,
    /// Whether the one response of this connection has been framed.
    pub response_sent: bool,
}

impl<C: SecureChannel, R: ReceiveProgressDelegate> ConnectionRequest<C, R> {
    /// Takes ownership of a parsed request and its channel.
    pub fn new(transfer_request: TransferRequest, connection: MessageFramer<C>, file_storage: String) -> (r:
        Self)
        ensures
            r.transfer_request == transfer_request,
            r.connection == connection,
            r.file_storage == file_storage,
            !r.should_cancel,
            r.progress_delegate is None,
            r.events@ == Seq::<ReceiveProgressState>::empty(),
            r.received_files@ == Seq::<ExtractedEntry>::empty(),
            !r.response_sent,
    {
        ConnectionRequest {
            transfer_request,
            connection,
            file_storage,
            should_cancel: false,
            progress_delegate: None,
            events: Vec::new(),
            received_files: Vec::new(),
            response_sent: false,
        }
    }

    /// Registers the progress observer; nothing else changes.
    pub fn set_progress_delegate(&mut self, delegate: R)
        ensures
            final(self).progress_delegate == Some(delegate),
            final(self).transfer_request == old(self).transfer_request,
            final(self).connection == old(self).connection,
            final(self).file_storage == old(self).file_storage,
            final(self).should_cancel == old(self).should_cancel,
            final(self).events == old(self).events,
            final(self).received_files == old(self).received_files,
            final(self).response_sent == old(self).response_sent,
    {
        self.progress_delegate = Some(delegate);
    }

    /// The sender named in the request.
    pub fn get_sender(&self) -> (r: Device)
        requires
            self.transfer_request@.wf(),
        ensures
            Some(r) == self.transfer_request.device,
    {
        match &self.transfer_request.device {
            Some(d) => d.duplicate(),
            None => unreached(),
        }
    }

    /// The intent named in the request.
    pub fn get_intent(&self) -> (r: Intent)
        requires
            self.transfer_request@.wf(),
        ensures
            Some(r) == self.transfer_request.intent,
    {
        match &self.transfer_request.intent {
            Some(i) => i.duplicate(),
            None => unreached(),
        }
    }

    /// The kind of connection shown to the application; every intent of the
    /// current protocol is presented as a file transfer.
    pub fn get_intent_type(&self) -> (r: ConnectionIntentType)
        requires
            self.transfer_request@.wf(),
        ensures
            r is FileTransfer,
    {
        match &self.transfer_request.intent {
            Some(Intent::FileTransfer(_)) => ConnectionIntentType::FileTransfer,
            Some(Intent::Clipboard(_)) => ConnectionIntentType::FileTransfer,
            None => unreached(),
        }
    }

    /// The file-transfer intent, when the request carries one.
    pub fn get_file_transfer_intent(&self) -> (r: Option<FileTransferIntent>)
        requires
            self.transfer_request@.wf(),
        ensures
            (self.transfer_request.intent matches Some(Intent::FileTransfer(f)) ==> r == Some(f)),
            (self.transfer_request.intent matches Some(Intent::Clipboard(_)) ==> r is None),
    {
        match &self.transfer_request.intent {
            Some(Intent::FileTransfer(f)) => Some(f.duplicate()),
            Some(Intent::Clipboard(_)) => None,
            None => unreached(),
        }
    }

    /// The clipboard intent, when the request carries one.
    pub fn get_clipboard_intent(&self) -> (r: Option<ClipboardTransferIntent>)
        requires
            self.transfer_request@.wf(),
        ensures
            (self.transfer_request.intent matches Some(Intent::Clipboard(c)) ==> r == Some(c)),
            (self.transfer_request.intent matches Some(Intent::FileTransfer(_)) ==> r is None),
    {
        match &self.transfer_request.intent {
            Some(Intent::FileTransfer(_)) => None,
            Some(Intent::Clipboard(c)) => Some(c.duplicate()),
            None => unreached(),
        }
    }

    /// Requests cooperative cancellation: an in-progress receipt stops at
    /// the next chunk boundary; nothing else changes.
    pub fn cancel(&mut self)
        ensures
            final(self).should_cancel,
            final(self).transfer_request == old(self).transfer_request,
            final(self).connection == old(self).connection,
            final(self).file_storage == old(self).file_storage,
            final(self).progress_delegate == old(self).progress_delegate,
            final(self).events == old(self).events,
            final(self).received_files == old(self).received_files,
            final(self).response_sent == old(self).response_sent,
    {
        self.should_cancel = true;
    }

    /// Reports a state change to the observer and records it.
    fn update_progress(&mut self, state: ReceiveProgressState)
        ensures
            final(self).events@ == old(self).events@.push(state),
            final(self).progress_delegate is Some <==> old(self).progress_delegate is Some,
            final(self).transfer_request == old(self).transfer_request,
            final(self).connection == old(self).connection,
            final(self).file_storage == old(self).file_storage,
            final(self).should_cancel == old(self).should_cancel,
            final(self).received_files == old(self).received_files,
            final(self).response_sent == old(self).response_sent,
    {
        match &mut self.progress_delegate {
            Some(d) => d.progress_changed(state),
            None => {},
        }
        self.events.push(state);
    }

    /// Whether the receipt should stop at this chunk boundary.
    fn cancel_now(&self) -> (r: bool)
        ensures
            self.should_cancel ==> r,
    {
        if self.should_cancel {
            true
        } else {
            match &self.progress_delegate {
                Some(d) => d.cancel_requested(),
                None => false,
            }
        }
    }

    /// Answers the request with a refusal and closes the channel. Reports
    /// no progress and realizes no file; repeating it frames nothing more.
    pub fn decline(&mut self)
        ensures
            final(self).events == old(self).events,
            final(self).received_files == old(self).received_files,
            final(self).response_sent,
            !old(self).response_sent ==> final(self).connection.wire_trace() == old(
                self,
            ).connection.wire_trace() + seq![
                WireOp::SentFrame(
                    spec_enc_response(TransferRequestResponse { accepted: false }),
                ),
            ],
            old(self).response_sent ==> final(self).connection.wire_trace() == old(
                self,
            ).connection.wire_trace(),
    {
        if !self.response_sent {
            let payload = encode_response(&TransferRequestResponse { accepted: false });
            let _ok = self.connection.send_frame(&payload);
            self.response_sent = true;
        }
        self.connection.close();
    }

    /// Receives the announced payload in bounded chunks and realizes the
    /// files. Everything `accept` guarantees about the transfer phase is
    /// stated here; `accept` adds the handshake and the response frame.
    #[verifier::loop_isolation(false)]
    fn handle_file(&mut self, file_transfer: FileTransferIntent) -> (r: Option<Vec<String>>)
        requires
            file_transfer@.wf(),
            old(self).received_files@.len() == 0,
        ensures
            final(self).transfer_request == old(self).transfer_request,
            final(self).file_storage == old(self).file_storage,
            final(self).response_sent == old(self).response_sent,
            final(self).should_cancel == old(self).should_cancel,
            final(self).progress_delegate is Some <==> old(self).progress_delegate is Some,
            final(self).events@.len() > old(self).events@.len(),
            final(self).events@.take(old(self).events@.len() as int) == old(self).events@,
            final(self).connection.wire_trace().len() >= old(self).connection.wire_trace().len(),
            final(self).connection.wire_trace().take(old(self).connection.wire_trace().len() as int)
                == old(self).connection.wire_trace(),
            all_recv_payload(
                final(self).connection.wire_trace().skip(
                    old(self).connection.wire_trace().len() as int,
                ),
            ),
            receipt_events_ok(
                final(self).events@.skip(old(self).events@.len() as int),
                file_transfer.file_size,
                file_transfer.file_count > 1,
                r is Some,
            ),
            receiving_count(final(self).events@.skip(old(self).events@.len() as int))
                == recv_op_count(
                final(self).connection.wire_trace().skip(
                    old(self).connection.wire_trace().len() as int,
                ),
            ),
            ({
                let evs = final(self).events@.skip(old(self).events@.len() as int);
                let tr = final(self).connection.wire_trace().skip(
                    old(self).connection.wire_trace().len() as int,
                );
                exists|k: int|
                    receipt_events_ok_at(
                        evs,
                        file_transfer.file_size,
                        file_transfer.file_count > 1,
                        r is Some,
                        k,
                    ) && #[trigger] reports_are_read_totals(
                        evs.subrange(0, k),
                        tr,
                        file_transfer.file_size,
                    )
            }),
            reads_bounded(
                final(self).connection.wire_trace().skip(
                    old(self).connection.wire_trace().len() as int,
                ),
                BLE_BUFFER_SIZE as int,
            ),
            recv_payload_bytes(
                final(self).connection.wire_trace().skip(
                    old(self).connection.wire_trace().len() as int,
                ),
            ).len() < file_transfer.file_size + BLE_BUFFER_SIZE,
            r is None ==> final(self).received_files@.len() == 0,
            old(self).should_cancel && file_transfer.file_size > 0 ==> r is None,
            file_transfer.file_size == 0 && file_transfer.file_count == 1 ==> r is Some,
            file_transfer.file_size == 0 && file_transfer.file_count > 1 ==> r is None,
            ({
                let buf = recv_payload_bytes(
                    final(self).connection.wire_trace().skip(
                        old(self).connection.wire_trace().len() as int,
                    ),
                );
                &&& (file_transfer.file_count == 1 && buf.len() >= file_transfer.file_size ==> r
                    is Some)
                &&& (file_transfer.file_count > 1 && buf.len() >= file_transfer.file_size ==> (r
                    is Some <==> spec_unpack(
                    buf.take(file_transfer.file_size as int),
                    old(self).file_storage@,
                ) is Ok))
            }),
            r is Some ==> recv_payload_bytes(
                final(self).connection.wire_trace().skip(
                    old(self).connection.wire_trace().len() as int,
                ),
            ).len() >= file_transfer.file_size,
            r matches Some(paths) ==> (file_transfer.file_count == 1 ==> ({
                let buf = recv_payload_bytes(
                    final(self).connection.wire_trace().skip(
                        old(self).connection.wire_trace().len() as int,
                    ),
                );
                let name = file_transfer@.file_name.unwrap();
                let landing = spec_realized(old(self).file_storage@, seq![name]);
                &&& extracted_view(final(self).received_files@) == seq![
                    ExtractedEntryV {
                        path: landing,
                        is_dir: false,
                        data: buf.take(file_transfer.file_size as int),
                    },
                ]
                &&& paths@.len() == 1
                &&& paths@[0]@ == landing
            })),
            r matches Some(paths) ==> (file_transfer.file_count > 1 ==> ({
                let buf = recv_payload_bytes(
                    final(self).connection.wire_trace().skip(
                        old(self).connection.wire_trace().len() as int,
                    ),
                );
                &&& spec_unpack(
                    buf.take(file_transfer.file_size as int),
                    old(self).file_storage@,
                ) == Ok::<Seq<ExtractedEntryV>, crate::errors::ArchiveError>(
                    extracted_view(final(self).received_files@),
                )
                &&& paths@.len() == final(self).received_files@.len()
                &&& (forall|i: int|
                    0 <= i < paths@.len() ==> paths@[i]@ == #[trigger] (final(self).received_files@[i].path@))
            })),
    {
        let total = file_transfer.file_size;
        let ghost t0 = self.connection.wire_trace();
        let ghost e0 = self.events@;
        let mut buffer: Vec<u8> = Vec::new();
        let mut received: u64 = 0;
        let mut cancelled: bool = false;
        let mut eof: bool = false;
        proof {
            assert(self.connection.wire_trace().skip(t0.len() as int) =~= Seq::<WireOp>::empty());
            assert(self.events@.skip(e0.len() as int) =~= Seq::<ReceiveProgressState>::empty());
        }
        while received < total && !cancelled && !eof
            invariant
                received as int == (if buffer@.len() <= total as int {
                    buffer@.len() as int
                } else {
                    total as int
                }),
                t0.len() <= self.connection.wire_trace().len(),
                self.connection.wire_trace().take(t0.len() as int) == t0,
                all_recv_payload(self.connection.wire_trace().skip(t0.len() as int)),
                buffer@ == recv_payload_bytes(self.connection.wire_trace().skip(t0.len() as int)),
                e0.len() <= self.events@.len(),
                self.events@.take(e0.len() as int) == e0,
                receiving_run_ok(self.events@.skip(e0.len() as int), total),
                receiving_count(self.events@.skip(e0.len() as int)) == recv_op_count(
                    self.connection.wire_trace().skip(t0.len() as int),
                ),
                reports_are_read_totals(
                    self.events@.skip(e0.len() as int),
                    self.connection.wire_trace().skip(t0.len() as int),
                    total,
                ),
                reads_bounded(
                    self.connection.wire_trace().skip(t0.len() as int),
                    BLE_BUFFER_SIZE as int,
                ),
                buffer@.len() < total as int + BLE_BUFFER_SIZE as int,
                self.events@.len() > e0.len() ==> progress_bytes(self.events@.last()) == received,
                self.events@.len() == e0.len() ==> received == 0,
                self.should_cancel == old(self).should_cancel,
                (self.progress_delegate is Some <==> old(self).progress_delegate is Some),
                old(self).should_cancel ==> received == 0,
                self.transfer_request == old(self).transfer_request,
                self.file_storage == old(self).file_storage,
                self.received_files == old(self).received_files,
                self.response_sent == old(self).response_sent,
            decreases (if cancelled || eof {
                0int
            } else {
                1int
            }), total - received,
        {
            if self.cancel_now() {
                cancelled = true;
            } else {
                let ghost t_pre = self.connection.wire_trace();
                let mut chunk = self.connection.read_payload(BLE_BUFFER_SIZE);
                if chunk.len() == 0 {
                    eof = true;
                } else {
                    let ghost cv = chunk@;
                    proof {
                        let suffix_pre = t_pre.skip(t0.len() as int);
                        let suffix_now = self.connection.wire_trace().skip(t0.len() as int);
                        assert(suffix_now =~= suffix_pre.push(WireOp::RecvPayload(cv)));
                        assert(suffix_now.drop_last() =~= suffix_pre);
                        assert(recv_payload_bytes(suffix_now) == recv_payload_bytes(suffix_pre)
                            + cv);
                        lemma_recv_op_count_push(suffix_pre, WireOp::RecvPayload(cv));
                        assert(self.connection.wire_trace().take(t0.len() as int) =~= t0);
                        assert(buffer@.len() < total as int);
                    }
                    let ghost run_pre = self.events@.skip(e0.len() as int);
                    let ghost received_pre = received;
                    buffer.append(&mut chunk);
                    received = if (buffer.len() as u64) < total {
                        buffer.len() as u64
                    } else {
                        total
                    };
                    self.update_progress(
                        ReceiveProgressState::Receiving {
                            progress: TransferProgress { transferred: received, total },
                        },
                    );
                    proof {
                        let run_now = self.events@.skip(e0.len() as int);
                        assert(run_now =~= run_pre.push(
                            ReceiveProgressState::Receiving {
                                progress: TransferProgress { transferred: received, total },
                            },
                        ));
                        lemma_receiving_count_push(
                            run_pre,
                            ReceiveProgressState::Receiving {
                                progress: TransferProgress { transferred: received, total },
                            },
                        );
                        assert(received_pre <= received);
                        assert forall|i: int, j: int|
                            0 <= i <= j < run_now.len() implies progress_bytes(run_now[i])
                            <= progress_bytes(run_now[j]) by {
                            if j < run_now.len() - 1 {
                                assert(progress_bytes(run_pre[i]) <= progress_bytes(run_pre[j]));
                            } else if i < run_now.len() - 1 {
                                assert(progress_bytes(run_pre[i]) <= progress_bytes(
                                    run_pre[run_pre.len() - 1],
                                ));
                            }
                        }
                        assert(self.events@.take(e0.len() as int) =~= e0);
                        let suffix_pre = t_pre.skip(t0.len() as int);
                        let suffix_now = self.connection.wire_trace().skip(t0.len() as int);
                        assert(suffix_now =~= suffix_pre.push(WireOp::RecvPayload(cv)));
                        assert(suffix_now.drop_last() =~= suffix_pre);
                        assert(suffix_now.last() == WireOp::RecvPayload(cv));
                        assert(run_now.drop_last() =~= run_pre);
                        assert(run_now.last() == ReceiveProgressState::Receiving {
                            progress: TransferProgress { transferred: received, total },
                        });
                        assert(recv_payload_bytes(suffix_now) == buffer@);
                        assert(reports_are_read_totals(run_now, suffix_now, total));
                        assert forall|i: int|
                            0 <= i < suffix_now.len() implies ((#[trigger] suffix_now[i])
                            matches WireOp::RecvPayload(b) ==> b.len() <= BLE_BUFFER_SIZE
                                as int) by {
                            if i < suffix_now.len() - 1 {
                                assert(suffix_now[i] == suffix_pre[i]);
                            } else {
                                assert(cv.len() <= BLE_BUFFER_SIZE as int);
                            }
                        }
                    }
                }
            }
        }
        self.connection.close();
        proof {
            assert(recv_payload_bytes(self.connection.wire_trace().skip(t0.len() as int)).len()
                < total as int + BLE_BUFFER_SIZE as int);
        }
        let ghost run = self.events@.skip(e0.len() as int);
        if received < total {
            // Short receipt: drop the partial payload and report the
            // cancellation; nothing lands on the storage root.
            self.update_progress(ReceiveProgressState::Cancelled);
            proof {
                assert(recv_payload_bytes(self.connection.wire_trace().skip(t0.len() as int))
                    == buffer@);
                assert(buffer@.len() < total as int);
                let evs = self.events@.skip(e0.len() as int);
                assert(evs =~= run.push(ReceiveProgressState::Cancelled));
                assert(evs.subrange(0, run.len() as int) =~= run);
                lemma_receiving_count_push(run, ReceiveProgressState::Cancelled);
                assert(receipt_events_ok_at(
                    evs,
                    total,
                    file_transfer.file_count > 1,
                    false,
                    run.len() as int,
                ) && reports_are_read_totals(
                    evs.subrange(0, run.len() as int),
                    self.connection.wire_trace().skip(t0.len() as int),
                    total,
                ));
                assert(self.events@.take(e0.len() as int) =~= e0);
            }
            return None;
        }
        assert(total <= buffer.len());
        buffer.truncate(total as usize);
        assert(buffer@ == recv_payload_bytes(self.connection.wire_trace().skip(t0.len() as int)).take(
            total as int,
        ));
        if file_transfer.file_count == 1 {
            let name = match &file_transfer.file_name {
                Some(n) => n.clone(),
                None => unreached(),
            };
            let mut path = self.file_storage.clone();
            path.append("/");
            path.append(name.as_str());
            proof {
                reveal_strlit("/");
                assert(("/")@ =~= seq!['/']);
                assert(spec_joined(seq![name@]) == seq![name@][0]);
                assert(path@ == spec_realized(self.file_storage@, seq![name@]));
            }
            let landing = path.clone();
            self.received_files.push(ExtractedEntry { path, is_dir: false, data: buffer });
            self.update_progress(ReceiveProgressState::Finished);
            proof {
                let evs = self.events@.skip(e0.len() as int);
                assert(evs =~= run.push(ReceiveProgressState::Finished));
                assert(evs.subrange(0, run.len() as int) =~= run);
                lemma_receiving_count_push(run, ReceiveProgressState::Finished);
                if total > 0 {
                    assert(run.len() >= 1 && progress_bytes(run.last()) == total);
                }
                assert(receipt_events_ok_at(evs, total, false, true, run.len() as int)
                    && reports_are_read_totals(
                    evs.subrange(0, run.len() as int),
                    self.connection.wire_trace().skip(t0.len() as int),
                    total,
                ));
                assert(self.events@.take(e0.len() as int) =~= e0);
                assert(extracted_view(self.received_files@) =~= seq![
                    ExtractedEntryV {
                        path: landing@,
                        is_dir: false,
                        data: recv_payload_bytes(
                            self.connection.wire_trace().skip(t0.len() as int),
                        ).take(total as int),
                    },
                ]);
            }
            let mut out: Vec<String> = Vec::new();
            out.push(landing);
            Some(out)
        } else {
            self.update_progress(ReceiveProgressState::Extracting);
            let ghost run2 = self.events@.skip(e0.len() as int);
            match unpack(&buffer, &self.file_storage) {
                Ok(files) => {
                    proof {
                        if file_transfer.file_size == 0 {
                            assert(buffer@ =~= Seq::<u8>::empty());
                        }
                        assert(crate::bundler::spec_dec_archive(buffer@) is Some);
                        let es = crate::bundler::spec_dec_archive(buffer@).unwrap();
                        assert(crate::bundler::all_entries_safe(es));
                        assert(spec_unpack(buffer@, self.file_storage@) == Ok::<
                            Seq<ExtractedEntryV>,
                            crate::errors::ArchiveError,
                        >(extracted_view(files@)));
                    }
                    let mut out: Vec<String> = Vec::new();
                    let mut i: usize = 0;
                    while i < files.len()
                        invariant
                            i <= files.len(),
                            out@.len() == i,
                            forall|a: int|
                                0 <= a < i ==> out@[a]@ == #[trigger] files@[a].path@,
                        decreases files.len() - i,
                    {
                        out.push(files[i].path.clone());
                        i = i + 1;
                    }
                    self.received_files = files;
                    self.update_progress(ReceiveProgressState::Finished);
                    proof {
                        let evs = self.events@.skip(e0.len() as int);
                        assert(evs =~= run.push(ReceiveProgressState::Extracting).push(
                            ReceiveProgressState::Finished,
                        ));
                        assert(evs.subrange(0, run.len() as int) =~= run);
                        lemma_receiving_count_push(run, ReceiveProgressState::Extracting);
                        lemma_receiving_count_push(
                            run.push(ReceiveProgressState::Extracting),
                            ReceiveProgressState::Finished,
                        );
                        if total > 0 {
                            assert(run.len() >= 1 && progress_bytes(run.last()) == total);
                        }
                        assert(receipt_events_ok_at(evs, total, true, true, run.len() as int)
                            && reports_are_read_totals(
                            evs.subrange(0, run.len() as int),
                            self.connection.wire_trace().skip(t0.len() as int),
                            total,
                        ));
                        assert(self.events@.take(e0.len() as int) =~= e0);
                    }
                    Some(out)
                },
                Err(_) => {
                    proof {
                        match crate::bundler::spec_dec_archive(buffer@) {
                            None => {},
                            Some(es) => {
                                if crate::bundler::all_entries_safe(es) {
                                    assert(false);
                                }
                            },
                        }
                        assert(!(spec_unpack(buffer@, self.file_storage@) is Ok));
                    }
                    self.update_progress(ReceiveProgressState::Cancelled);
                    proof {
                        let evs = self.events@.skip(e0.len() as int);
                        assert(evs =~= run.push(ReceiveProgressState::Extracting).push(
                            ReceiveProgressState::Cancelled,
                        ));
                        assert(evs.subrange(0, run.len() as int) =~= run);
                        lemma_receiving_count_push(run, ReceiveProgressState::Extracting);
                        lemma_receiving_count_push(
                            run.push(ReceiveProgressState::Extracting),
                            ReceiveProgressState::Cancelled,
                        );
                        assert(receipt_events_ok_at(evs, total, true, false, run.len() as int)
                            && reports_are_read_totals(
                            evs.subrange(0, run.len() as int),
                            self.connection.wire_trace().skip(t0.len() as int),
                            total,
                        ));
                        assert(self.events@.take(e0.len() as int) =~= e0);
                    }
                    None
                },
            }
        }
    }

    /// Answers the request with an acceptance and runs the transfer:
    /// Handshake, then exactly one acceptance frame before any payload byte
    /// is read, then the receipt. Yields the realized paths on success and
    /// nothing on a cancelled, starved or unextractable transfer — which
    /// then leaves no realized file behind.
    pub fn accept(&mut self) -> (r: Option<Vec<String>>)
        requires
            old(self).transfer_request@.wf(),
            old(self).transfer_request@.intent matches Some(i) && i is FileTransfer,
            !old(self).response_sent,
            old(self).received_files@.len() == 0,
        ensures
            final(self).response_sent,
            final(self).transfer_request == old(self).transfer_request,
            final(self).file_storage == old(self).file_storage,
            final(self).should_cancel == old(self).should_cancel,
            final(self).progress_delegate is Some <==> old(self).progress_delegate is Some,
            ({
                let tr = final(self).connection.wire_trace().skip(
                    old(self).connection.wire_trace().len() as int,
                );
                &&& tr.len() >= 1
                &&& tr[0] == WireOp::SentFrame(
                    spec_enc_response(TransferRequestResponse { accepted: true }),
                )
                &&& all_recv_payload(tr.skip(1))
            }),
            ({
                let evs = final(self).events@.skip(old(self).events@.len() as int);
                &&& evs.len() >= 2
                &&& evs[0] is Handshake
                &&& receipt_events_ok(
                    evs.skip(1),
                    file_intent_of(old(self).transfer_request@).file_size,
                    file_intent_of(old(self).transfer_request@).file_count > 1,
                    r is Some,
                )
            }),
            // one Receiving report per payload read, and the reads are
            // bounded chunks by the framer's contract
            receiving_count(final(self).events@.skip(old(self).events@.len() as int))
                == recv_op_count(
                final(self).connection.wire_trace().skip(
                    old(self).connection.wire_trace().len() as int,
                ),
            ),
            ({
                let evs = final(self).events@.skip(old(self).events@.len() as int);
                let tr = final(self).connection.wire_trace().skip(
                    old(self).connection.wire_trace().len() as int,
                );
                exists|k: int|
                    receipt_events_ok_at(
                        evs.skip(1),
                        file_intent_of(old(self).transfer_request@).file_size,
                        file_intent_of(old(self).transfer_request@).file_count > 1,
                        r is Some,
                        k,
                    ) && #[trigger] reports_are_read_totals(
                        evs.skip(1).subrange(0, k),
                        tr.skip(1),
                        file_intent_of(old(self).transfer_request@).file_size,
                    )
            }),
            reads_bounded(
                final(self).connection.wire_trace().skip(
                    old(self).connection.wire_trace().len() as int,
                ),
                BLE_BUFFER_SIZE as int,
            ),
            recv_payload_bytes(
                final(self).connection.wire_trace().skip(
                    old(self).connection.wire_trace().len() as int,
                ),
            ).len() < file_intent_of(old(self).transfer_request@).file_size + BLE_BUFFER_SIZE,
            r is None ==> final(self).received_files@.len() == 0,
            old(self).should_cancel && file_intent_of(old(self).transfer_request@).file_size > 0
                ==> r is None,
            (file_intent_of(old(self).transfer_request@).file_size == 0 && file_intent_of(
                old(self).transfer_request@,
            ).file_count == 1) ==> r is Some,
            (file_intent_of(old(self).transfer_request@).file_size == 0 && file_intent_of(
                old(self).transfer_request@,
            ).file_count > 1) ==> r is None,
            ({
                let f = file_intent_of(old(self).transfer_request@);
                let buf = recv_payload_bytes(
                    final(self).connection.wire_trace().skip(
                        old(self).connection.wire_trace().len() as int,
                    ),
                );
                &&& (f.file_count == 1 && buf.len() >= f.file_size ==> r is Some)
                &&& (f.file_count > 1 && buf.len() >= f.file_size ==> (r is Some <==> spec_unpack(
                    buf.take(f.file_size as int),
                    old(self).file_storage@,
                ) is Ok))
            }),
            r matches Some(paths) ==> (file_intent_of(old(self).transfer_request@).file_count
                == 1 ==> ({
                let f = file_intent_of(old(self).transfer_request@);
                let buf = recv_payload_bytes(
                    final(self).connection.wire_trace().skip(
                        old(self).connection.wire_trace().len() as int,
                    ),
                );
                let landing = spec_realized(old(self).file_storage@, seq![f.file_name.unwrap()]);
                &&& extracted_view(final(self).received_files@) == seq![
                    ExtractedEntryV {
                        path: landing,
                        is_dir: false,
                        data: buf.take(f.file_size as int),
                    },
                ]
                &&& paths@.len() == 1
                &&& paths@[0]@ == landing
            })),
            r matches Some(paths) ==> (file_intent_of(old(self).transfer_request@).file_count
                > 1 ==> ({
                let f = file_intent_of(old(self).transfer_request@);
                let buf = recv_payload_bytes(
                    final(self).connection.wire_trace().skip(
                        old(self).connection.wire_trace().len() as int,
                    ),
                );
                &&& spec_unpack(buf.take(f.file_size as int), old(self).file_storage@) == Ok::<
                    Seq<ExtractedEntryV>,
                    crate::errors::ArchiveError,
                >(extracted_view(final(self).received_files@))
                &&& paths@.len() == final(self).received_files@.len()
                &&& (forall|i: int|
                    0 <= i < paths@.len() ==> paths@[i]@ == #[trigger] (final(self).received_files@[i].path@))
            })),
    {
        let ghost t0 = self.connection.wire_trace();
        let ghost e0 = self.events@;
        self.update_progress(ReceiveProgressState::Handshake);
        let payload = encode_response(&TransferRequestResponse { accepted: true });
        let _ok = self.connection.send_frame(&payload);
        self.response_sent = true;
        let ft = match &self.transfer_request.intent {
            Some(Intent::FileTransfer(f)) => f.duplicate(),
            _ => unreached(),
        };
        assert(ft@ == file_intent_of(old(self).transfer_request@));
        let ghost t1 = self.connection.wire_trace();
        let ghost e1 = self.events@;
        let r = self.handle_file(ft);
        proof {
            let w = self.connection.wire_trace();
            let tr = w.skip(t0.len() as int);
            let tr_inner = w.skip(t1.len() as int);
            assert(w.take(t1.len() as int) =~= t1);
            assert(w.take(t1.len() as int)[t0.len() as int] == w[t0.len() as int]);
            assert(t1[t0.len() as int] == WireOp::SentFrame(
                spec_enc_response(TransferRequestResponse { accepted: true }),
            ));
            assert(tr =~= seq![
                WireOp::SentFrame(spec_enc_response(TransferRequestResponse { accepted: true })),
            ] + tr_inner);
            assert(tr.skip(1) =~= tr_inner);
            crate::framing::lemma_recv_payload_bytes_cons(
                WireOp::SentFrame(spec_enc_response(TransferRequestResponse { accepted: true })),
                tr_inner,
            );
            assert(recv_payload_bytes(tr) == recv_payload_bytes(tr_inner));
            let evs = self.events@.skip(e0.len() as int);
            let evs_inner = self.events@.skip(e1.len() as int);
            assert(self.events@.take(e1.len() as int) =~= e1);
            assert(self.events@.take(e1.len() as int)[e0.len() as int]
                == self.events@[e0.len() as int]);
            assert(e1[e0.len() as int] == ReceiveProgressState::Handshake);
            assert(evs =~= seq![ReceiveProgressState::Handshake] + evs_inner);
            assert(evs.skip(1) =~= evs_inner);
            lemma_receiving_count_cons(ReceiveProgressState::Handshake, evs_inner);
            lemma_recv_op_count_cons(
                WireOp::SentFrame(spec_enc_response(TransferRequestResponse { accepted: true })),
                tr_inner,
            );
        }
        r
    }
}

} // verus!
