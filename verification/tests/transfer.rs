use std::cell::RefCell;
use std::rc::Rc;

use intershare_sdk::bundler::{pack, FsNode};
use intershare_sdk::connection_request::{
    ConnectionRequest, ReceiveProgressDelegate, ReceiveProgressState,
};
use intershare_sdk::device::Device;
use intershare_sdk::framing::{MessageFramer, SecureChannel};
use intershare_sdk::messages::{FileTransferIntent, Intent, TransferRequest};
use intershare_sdk::nearby::ConnectionIntentType;

#[derive(Clone, Debug, PartialEq)]
enum WireEvent {
    Wrote(Vec<u8>),
    ReadChunk(usize),
    Closed,
}

struct ScriptedChannel {
    input: Vec<u8>,
    pos: usize,
    chunk: usize,
    log: Rc<RefCell<Vec<WireEvent>>>,
}

impl ScriptedChannel {
    fn new(input: Vec<u8>, chunk: usize) -> (Self, Rc<RefCell<Vec<WireEvent>>>) {
        let log = Rc::new(RefCell::new(Vec::new()));
        (ScriptedChannel { input, pos: 0, chunk, log: log.clone() }, log)
    }
}

impl SecureChannel for ScriptedChannel {
    fn read_chunk(&mut self, max: usize) -> Vec<u8> {
        let remaining = self.input.len() - self.pos;
        let n = remaining.min(self.chunk).min(max);
        let out = self.input[self.pos..self.pos + n].to_vec();
        self.pos += n;
        self.log.borrow_mut().push(WireEvent::ReadChunk(out.len()));
        out
    }

    fn write_chunk(&mut self, data: &Vec<u8>) -> usize {
        self.log.borrow_mut().push(WireEvent::Wrote(data.clone()));
        data.len()
    }

    fn close(&mut self) {
        self.log.borrow_mut().push(WireEvent::Closed);
    }
}

struct Quiet;

impl ReceiveProgressDelegate for Quiet {
    fn progress_changed(&mut self, _progress: ReceiveProgressState) {}

    fn cancel_requested(&self) -> bool {
        false
    }
}

struct CancelAfter {
    seen: u64,
    threshold: u64,
}

impl ReceiveProgressDelegate for CancelAfter {
    fn progress_changed(&mut self, progress: ReceiveProgressState) {
        if let ReceiveProgressState::Receiving { progress } = progress {
            self.seen = progress.transferred;
        }
    }

    fn cancel_requested(&self) -> bool {
        self.seen >= self.threshold
    }
}

fn file_request(name: Option<&str>, size: u64, count: u64) -> TransferRequest {
    TransferRequest {
        device: Some(Device {
            id: "sender-1".to_string(),
            name: "Sender".to_string(),
            device_type: 0,
        }),
        intent: Some(Intent::FileTransfer(FileTransferIntent {
            file_name: name.map(|n| n.to_string()),
            file_size: size,
            file_count: count,
        })),
    }
}

fn request<C: SecureChannel, R: ReceiveProgressDelegate>(
    channel: C,
    req: TransferRequest,
) -> ConnectionRequest<C, R> {
    ConnectionRequest::new(req, MessageFramer::new(channel), "/downloads".to_string())
}

#[test]
fn single_file_receipt_reaches_full_progress() {
    // Offer 1 file of 1000 bytes named a.txt, stream it in chunks below the
    // buffer size, and accept.
    let payload: Vec<u8> = (0..1000u32).map(|i| (i % 251) as u8).collect();
    let (channel, _log) = ScriptedChannel::new(payload.clone(), 128);
    let mut cr: ConnectionRequest<ScriptedChannel, Quiet> =
        request(channel, file_request(Some("a.txt"), 1000, 1));
    let result = cr.accept();
    assert_eq!(result, Some(vec!["/downloads/a.txt".to_string()]));
    // the receipt ends complete: the final report has progress 1.0
    assert_eq!(cr.events.first(), Some(&ReceiveProgressState::Handshake));
    assert_eq!(cr.events.last(), Some(&ReceiveProgressState::Finished));
    let mut last_fraction = 0.0f64;
    let mut previous = 0u64;
    for e in &cr.events {
        assert!(!matches!(e, ReceiveProgressState::Extracting), "single file never extracts");
        if let ReceiveProgressState::Receiving { progress } = e {
            assert!(progress.transferred >= previous, "progress never decreases");
            previous = progress.transferred;
            last_fraction = progress.transferred as f64 / progress.total as f64;
        }
    }
    assert_eq!(last_fraction, 1.0);
    // each report carries exactly the bytes received so far: one per
    // 128-byte chunk, the final one clamped at the announced size
    let reported: Vec<u64> = cr
        .events
        .iter()
        .filter_map(|e| match e {
            ReceiveProgressState::Receiving { progress } => Some(progress.transferred),
            _ => None,
        })
        .collect();
    assert_eq!(reported, vec![128, 256, 384, 512, 640, 768, 896, 1000]);
    // the single file landed under the storage root, bytes intact
    assert_eq!(cr.received_files.len(), 1);
    assert_eq!(cr.received_files[0].path, "/downloads/a.txt");
    assert_eq!(cr.received_files[0].data, payload);
}

#[test]
fn response_frame_precedes_every_payload_byte() {
    let payload: Vec<u8> = vec![42u8; 64];
    let (channel, log) = ScriptedChannel::new(payload, 16);
    let mut cr: ConnectionRequest<ScriptedChannel, Quiet> =
        request(channel, file_request(Some("p.bin"), 64, 1));
    let _ = cr.accept();
    let ops = log.borrow();
    // exactly one frame goes out — the acceptance — and it goes out first
    assert_eq!(ops[0], WireEvent::Wrote(vec![1, 0, 0, 0, 0, 0, 0, 0, 1]));
    for op in ops.iter().skip(1) {
        assert!(!matches!(op, WireEvent::Wrote(_)), "nothing is framed after the response");
    }
}

#[test]
fn bundle_receipt_extracts_under_the_root() {
    let inputs = vec![
        FsNode::File { name: "x.txt".to_string(), data: b"xx".to_vec() },
        FsNode::File { name: "y.txt".to_string(), data: b"yyy".to_vec() },
        FsNode::File { name: "z.txt".to_string(), data: b"z".to_vec() },
    ];
    let archive = pack(&inputs);
    let size = archive.len() as u64;
    let (channel, _log) = ScriptedChannel::new(archive, 100);
    let mut cr: ConnectionRequest<ScriptedChannel, Quiet> =
        request(channel, file_request(None, size, 3));
    let result = cr.accept();
    assert_eq!(
        result,
        Some(vec![
            "/downloads/x.txt".to_string(),
            "/downloads/y.txt".to_string(),
            "/downloads/z.txt".to_string(),
        ])
    );
    // Handshake, Receiving run, Extracting, Finished — in that order
    let n = cr.events.len();
    assert!(n >= 4);
    assert_eq!(cr.events[0], ReceiveProgressState::Handshake);
    assert_eq!(cr.events[n - 2], ReceiveProgressState::Extracting);
    assert_eq!(cr.events[n - 1], ReceiveProgressState::Finished);
    for e in &cr.events[1..n - 2] {
        assert!(matches!(e, ReceiveProgressState::Receiving { .. }));
    }
    assert_eq!(cr.received_files[1].data, b"yyy".to_vec());
}

#[test]
fn cancellation_mid_stream_leaves_nothing() {
    // Offer a bundle of 5000 bytes and request cancellation once 2000 bytes
    // arrived: the receipt ends Cancelled, yields nothing, and no received
    // artifact is kept.
    let payload: Vec<u8> = vec![7u8; 5000];
    let (channel, _log) = ScriptedChannel::new(payload, 500);
    let mut cr: ConnectionRequest<ScriptedChannel, CancelAfter> =
        request(channel, file_request(None, 5000, 3));
    cr.set_progress_delegate(CancelAfter { seen: 0, threshold: 2000 });
    let result = cr.accept();
    assert_eq!(result, None);
    assert_eq!(cr.events.last(), Some(&ReceiveProgressState::Cancelled));
    assert!(cr.events.iter().all(|e| !matches!(e, ReceiveProgressState::Extracting)));
    assert!(cr.received_files.is_empty());
}

#[test]
fn cancel_before_receipt_is_terminal() {
    let payload: Vec<u8> = vec![1u8; 100];
    let (channel, _log) = ScriptedChannel::new(payload, 10);
    let mut cr: ConnectionRequest<ScriptedChannel, Quiet> =
        request(channel, file_request(Some("never.txt"), 100, 1));
    cr.cancel();
    let result = cr.accept();
    assert_eq!(result, None);
    assert_eq!(cr.events.last(), Some(&ReceiveProgressState::Cancelled));
    assert!(cr.received_files.is_empty());
}

#[test]
fn starved_stream_is_cancelled() {
    // the sender promised 1000 bytes but the stream ends after 300
    let payload: Vec<u8> = vec![9u8; 300];
    let (channel, _log) = ScriptedChannel::new(payload, 128);
    let mut cr: ConnectionRequest<ScriptedChannel, Quiet> =
        request(channel, file_request(Some("short.txt"), 1000, 1));
    assert_eq!(cr.accept(), None);
    assert_eq!(cr.events.last(), Some(&ReceiveProgressState::Cancelled));
    assert!(cr.received_files.is_empty());
}

#[test]
fn unextractable_bundle_is_cancelled() {
    // a complete receipt whose bytes are no archive: Extracting, then
    // Cancelled, nothing realized
    let payload: Vec<u8> = vec![0xAAu8; 100];
    let (channel, _log) = ScriptedChannel::new(payload, 50);
    let mut cr: ConnectionRequest<ScriptedChannel, Quiet> =
        request(channel, file_request(None, 100, 2));
    assert_eq!(cr.accept(), None);
    let n = cr.events.len();
    assert_eq!(cr.events[n - 2], ReceiveProgressState::Extracting);
    assert_eq!(cr.events[n - 1], ReceiveProgressState::Cancelled);
    assert!(cr.received_files.is_empty());
}

#[test]
fn decline_reports_no_progress_and_one_refusal_frame() {
    let (channel, log) = ScriptedChannel::new(vec![5u8; 50], 10);
    let mut cr: ConnectionRequest<ScriptedChannel, Quiet> =
        request(channel, file_request(Some("no.txt"), 50, 1));
    cr.decline();
    assert!(cr.events.is_empty(), "declining reports no progress state");
    assert!(cr.received_files.is_empty());
    let ops = log.borrow();
    assert_eq!(
        *ops,
        vec![WireEvent::Wrote(vec![1, 0, 0, 0, 0, 0, 0, 0, 0]), WireEvent::Closed]
    );
}

#[test]
fn request_accessors_read_the_parsed_request() {
    let (channel, _log) = ScriptedChannel::new(vec![], 10);
    let cr: ConnectionRequest<ScriptedChannel, Quiet> =
        request(channel, file_request(Some("a.txt"), 10, 1));
    let sender = cr.get_sender();
    assert_eq!(sender.id, "sender-1");
    assert_eq!(sender.name, "Sender");
    assert!(matches!(cr.get_intent_type(), ConnectionIntentType::FileTransfer));
    let intent = cr.get_file_transfer_intent().expect("a file intent is present");
    assert_eq!(intent.file_name.as_deref(), Some("a.txt"));
    assert_eq!(intent.file_size, 10);
    assert_eq!(intent.file_count, 1);
    assert!(cr.get_clipboard_intent().is_none());
    assert!(matches!(cr.get_intent(), Intent::FileTransfer(_)));
}

#[test]
fn empty_single_file_finishes_at_once() {
    // an announced size of zero completes without a single payload read
    let (channel, log) = ScriptedChannel::new(vec![], 16);
    let mut cr: ConnectionRequest<ScriptedChannel, Quiet> =
        request(channel, file_request(Some("empty.txt"), 0, 1));
    let result = cr.accept();
    assert_eq!(result, Some(vec!["/downloads/empty.txt".to_string()]));
    assert_eq!(cr.events.last(), Some(&ReceiveProgressState::Finished));
    assert!(cr.events.iter().all(|e| !matches!(e, ReceiveProgressState::Receiving { .. })));
    assert_eq!(cr.received_files[0].data, Vec::<u8>::new());
    // still exactly one response frame, before anything else
    assert_eq!(log.borrow()[0], WireEvent::Wrote(vec![1, 0, 0, 0, 0, 0, 0, 0, 1]));
}

#[test]
fn empty_bundle_cannot_extract() {
    // zero bytes are no archive: the bundle receipt ends Cancelled
    let (channel, _log) = ScriptedChannel::new(vec![], 16);
    let mut cr: ConnectionRequest<ScriptedChannel, Quiet> =
        request(channel, file_request(None, 0, 2));
    assert_eq!(cr.accept(), None);
    let n = cr.events.len();
    assert_eq!(cr.events[n - 2], ReceiveProgressState::Extracting);
    assert_eq!(cr.events[n - 1], ReceiveProgressState::Cancelled);
    assert!(cr.received_files.is_empty());
}
