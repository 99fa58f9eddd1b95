use std::cell::RefCell;
use std::rc::Rc;

use intershare_sdk::bundler::{pack, FsNode};
use intershare_sdk::connection_request::{ReceiveProgressDelegate, ReceiveProgressState};
use intershare_sdk::device::{Device, DeviceConnectionInfo, BluetoothLeConnectionInfo, TcpConnectionInfo};
use intershare_sdk::errors::ConnectErrors;
use intershare_sdk::framing::{MessageFramer, SecureChannel};
use intershare_sdk::nearby::{
    BleServerImplementationDelegate, ConnectStep, L2CapDelegate, NearbyConnectionDelegate,
    NearbyServer, SendProgress, SendProgressDelegate, SendProgressState,
};

struct PeerChannel {
    input: Vec<u8>,
    pos: usize,
    written: Rc<RefCell<Vec<u8>>>,
}

impl PeerChannel {
    fn new(input: Vec<u8>) -> (Self, Rc<RefCell<Vec<u8>>>) {
        let written = Rc::new(RefCell::new(Vec::new()));
        (PeerChannel { input, pos: 0, written: written.clone() }, written)
    }
}

impl SecureChannel for PeerChannel {
    fn read_chunk(&mut self, max: usize) -> Vec<u8> {
        let n = (self.input.len() - self.pos).min(max);
        let out = self.input[self.pos..self.pos + n].to_vec();
        self.pos += n;
        out
    }

    fn write_chunk(&mut self, data: &Vec<u8>) -> usize {
        self.written.borrow_mut().extend_from_slice(data);
        data.len()
    }

    fn close(&mut self) {}
}

struct MutePeer;

impl ReceiveProgressDelegate for MutePeer {
    fn progress_changed(&mut self, _progress: ReceiveProgressState) {}

    fn cancel_requested(&self) -> bool {
        false
    }
}

struct NoBle;

impl BleServerImplementationDelegate for NoBle {
    fn start_server(&mut self) {}

    fn stop_server(&mut self) {}
}

struct NoL2Cap;

impl L2CapDelegate for NoL2Cap {
    fn open_l2cap_connection(&mut self, _connection_id: String, _peripheral_uuid: String, _psm: u32) {}
}

struct DropSink;

impl NearbyConnectionDelegate for DropSink {
    type Channel = PeerChannel;

    type Progress = MutePeer;

    fn received_connection_request(
        &mut self,
        _request: intershare_sdk::connection_request::ConnectionRequest<PeerChannel, MutePeer>,
    ) {
    }
}

struct MuteSend;

impl SendProgressDelegate for MuteSend {
    fn progress_changed(&mut self, _progress: SendProgressState) {}
}

fn server() -> NearbyServer<NoBle, NoL2Cap, DropSink> {
    NearbyServer::new(
        Device { id: "me-1".to_string(), name: "Me".to_string(), device_type: 0 },
        "/downloads".to_string(),
        None,
    )
}

fn accepted_response_frame() -> Vec<u8> {
    vec![1, 0, 0, 0, 0, 0, 0, 0, 1]
}

fn declined_response_frame() -> Vec<u8> {
    vec![1, 0, 0, 0, 0, 0, 0, 0, 0]
}

#[test]
fn accepted_send_streams_the_whole_archive() {
    let files = vec![
        FsNode::File { name: "a.txt".to_string(), data: vec![1u8; 1500] },
        FsNode::File { name: "b.txt".to_string(), data: vec![2u8; 700] },
    ];
    let archive = pack(&files);
    let (channel, written) = PeerChannel::new(accepted_response_frame());
    let mut connection = MessageFramer::new(channel);
    let mut progress: SendProgress<MuteSend> = SendProgress::new(None);
    let r = server().send_files(&mut connection, &files, &mut progress);
    assert!(r.is_ok());
    // everything after the request frame is exactly the archive
    let bytes = written.borrow();
    assert!(bytes.len() > archive.len());
    assert_eq!(&bytes[bytes.len() - archive.len()..], archive.as_slice());
    // Compressing, Requesting, a monotone Transferring run from 0 to the
    // archive size, Finished
    let n = progress.events.len();
    assert!(matches!(progress.events[0], SendProgressState::Compressing));
    assert!(matches!(progress.events[1], SendProgressState::Requesting));
    assert!(matches!(progress.events[n - 1], SendProgressState::Finished));
    let mut previous = 0u64;
    let mut last = 0u64;
    for e in &progress.events[2..n - 1] {
        match e {
            SendProgressState::Transferring { progress } => {
                assert!(progress.transferred >= previous);
                assert_eq!(progress.total, archive.len() as u64);
                previous = progress.transferred;
                last = progress.transferred;
            },
            _ => panic!("only Transferring stands between Requesting and the terminal state"),
        }
    }
    assert_eq!(last, archive.len() as u64);
}

#[test]
fn declined_send_never_transfers() {
    let files = vec![FsNode::File { name: "a.txt".to_string(), data: vec![1u8; 10] }];
    let (channel, written) = PeerChannel::new(declined_response_frame());
    let mut connection = MessageFramer::new(channel);
    let mut progress: SendProgress<MuteSend> = SendProgress::new(None);
    let r = server().send_files(&mut connection, &files, &mut progress);
    assert!(matches!(r, Err(ConnectErrors::Declined)));
    assert_eq!(progress.events.len(), 3);
    assert!(matches!(progress.events[2], SendProgressState::Declined));
    assert!(progress.events.iter().all(
        |e| !matches!(e, SendProgressState::Transferring { .. }),
    ));
    // nothing but the request frame went out
    let bytes = written.borrow();
    let announced = u64::from_le_bytes(bytes[0..8].try_into().unwrap()) as usize;
    assert_eq!(bytes.len(), 8 + announced);
}

#[test]
fn missing_response_is_a_typed_error() {
    let files = vec![FsNode::File { name: "a.txt".to_string(), data: vec![3u8; 10] }];
    let (channel, _written) = PeerChannel::new(Vec::new());
    let mut connection = MessageFramer::new(channel);
    let mut progress: SendProgress<MuteSend> = SendProgress::new(None);
    let r = server().send_files(&mut connection, &files, &mut progress);
    assert!(matches!(r, Err(ConnectErrors::FailedToGetTransferRequestResponse { .. })));
    assert_eq!(progress.events.len(), 2);
}

#[test]
fn connect_plan_prefers_tcp_then_falls_back() {
    type Srv = NearbyServer<NoBle, NoL2Cap, DropSink>;
    // an unresolvable receiver fails at once
    let step = Srv::plan_connect_start(&None);
    assert!(matches!(
        step,
        ConnectStep::Fail { error: ConnectErrors::FailedToGetConnectionDetails }
    ));
    // a TCP leg is dialed first
    let both = DeviceConnectionInfo {
        device: Some(Device { id: "p".to_string(), name: "Peer".to_string(), device_type: 0 }),
        ble: Some(BluetoothLeConnectionInfo { uuid: "periph".to_string(), psm: 5 }),
        tcp: Some(TcpConnectionInfo { hostname: "10.0.0.9".to_string(), port: 42420 }),
    };
    match Srv::plan_connect_start(&Some(both)) {
        ConnectStep::TryTcp { hostname, port } => {
            assert_eq!(hostname, "10.0.0.9");
            assert_eq!(port, 42420);
        },
        _ => panic!("a published TCP leg is tried first"),
    }
    // without any leg, the BLE error is reported
    let bare = DeviceConnectionInfo {
        device: Some(Device { id: "p".to_string(), name: "Peer".to_string(), device_type: 0 }),
        ble: None,
        tcp: None,
    };
    assert!(matches!(
        Srv::plan_connect_start(&Some(bare)),
        ConnectStep::Fail { error: ConnectErrors::FailedToGetBleDetails }
    ));
    // after a TCP failure, BLE needs the platform capability
    let server = server();
    let with_ble = DeviceConnectionInfo {
        device: Some(Device { id: "p".to_string(), name: "Peer".to_string(), device_type: 0 }),
        ble: Some(BluetoothLeConnectionInfo { uuid: "periph".to_string(), psm: 5 }),
        tcp: Some(TcpConnectionInfo { hostname: "10.0.0.9".to_string(), port: 42420 }),
    };
    assert!(matches!(
        server.plan_connect_after_tcp_failure(&with_ble),
        ConnectStep::Fail { error: ConnectErrors::InternalBleHandlerNotAvailable }
    ));
    let mut server = server;
    server.add_l2_cap_client(NoL2Cap);
    match server.plan_connect_after_tcp_failure(&with_ble) {
        ConnectStep::TryBle { uuid, psm } => {
            assert_eq!(uuid, "periph");
            assert_eq!(psm, 5);
        },
        _ => panic!("with the capability registered, BLE is tried"),
    }
}
