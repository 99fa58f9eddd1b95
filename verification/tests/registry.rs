use std::cell::RefCell;
use std::rc::Rc;

use intershare_sdk::codec::{enc_bytes, encode_discovery_message, encode_transfer_request};
use intershare_sdk::connection_request::{
    ConnectionRequest, ReceiveProgressDelegate, ReceiveProgressState,
};
use intershare_sdk::device::{
    BluetoothLeConnectionInfo, Device, DeviceConnectionInfo, TcpConnectionInfo,
};
use intershare_sdk::discovery::{BleClient, Discovery, DiscoveryDelegate, InternalDiscovery};
use intershare_sdk::framing::SecureChannel;
use intershare_sdk::messages::{
    DeviceDiscoveryMessage, DiscoveryContent, FileTransferIntent, Intent, TransferRequest,
};
use intershare_sdk::nearby::{
    admit_incoming_connection, BleServerImplementationDelegate, L2CapDelegate,
    NearbyConnectionDelegate, NearbyServer,
};
use intershare_sdk::{get_ble_characteristic_uuid, get_ble_service_uuid};

struct InboundChannel {
    input: Vec<u8>,
    pos: usize,
}

impl SecureChannel for InboundChannel {
    fn read_chunk(&mut self, max: usize) -> Vec<u8> {
        let n = (self.input.len() - self.pos).min(max);
        let out = self.input[self.pos..self.pos + n].to_vec();
        self.pos += n;
        out
    }

    fn write_chunk(&mut self, data: &Vec<u8>) -> usize {
        data.len()
    }

    fn close(&mut self) {}
}

struct Silent;

impl ReceiveProgressDelegate for Silent {
    fn progress_changed(&mut self, _progress: ReceiveProgressState) {}

    fn cancel_requested(&self) -> bool {
        false
    }
}

struct AdvertiseFlag {
    running: Rc<RefCell<bool>>,
}

impl BleServerImplementationDelegate for AdvertiseFlag {
    fn start_server(&mut self) {
        *self.running.borrow_mut() = true;
    }

    fn stop_server(&mut self) {
        *self.running.borrow_mut() = false;
    }
}

struct OpenCalls {
    calls: Rc<RefCell<Vec<(String, String, u32)>>>,
}

impl L2CapDelegate for OpenCalls {
    fn open_l2cap_connection(&mut self, connection_id: String, peripheral_uuid: String, psm: u32) {
        self.calls.borrow_mut().push((connection_id, peripheral_uuid, psm));
    }
}

struct StoreRequest {
    slot: Rc<RefCell<Option<ConnectionRequest<InboundChannel, Silent>>>>,
}

impl NearbyConnectionDelegate for StoreRequest {
    type Channel = InboundChannel;

    type Progress = Silent;

    fn received_connection_request(
        &mut self,
        request: ConnectionRequest<InboundChannel, Silent>,
    ) {
        *self.slot.borrow_mut() = Some(request);
    }
}

struct ListChanges {
    added: Rc<RefCell<Vec<String>>>,
    removed: Rc<RefCell<Vec<String>>>,
}

impl DiscoveryDelegate for ListChanges {
    fn device_added(&mut self, value: Device) {
        self.added.borrow_mut().push(value.id);
    }

    fn device_removed(&mut self, device_id: String) {
        self.removed.borrow_mut().push(device_id);
    }
}

fn me() -> Device {
    Device { id: "me-9".to_string(), name: "This Box".to_string(), device_type: 0 }
}

fn server_with_slot() -> (
    NearbyServer<AdvertiseFlag, OpenCalls, StoreRequest>,
    Rc<RefCell<Option<ConnectionRequest<InboundChannel, Silent>>>>,
    Rc<RefCell<bool>>,
) {
    let slot = Rc::new(RefCell::new(None));
    let running = Rc::new(RefCell::new(false));
    let mut server = NearbyServer::new(
        me(),
        "/downloads".to_string(),
        Some(StoreRequest { slot: slot.clone() }),
    );
    server.add_bluetooth_implementation(AdvertiseFlag { running: running.clone() });
    (server, slot, running)
}

#[test]
fn start_publishes_the_listener_and_advertises() {
    let (mut server, _slot, running) = server_with_slot();
    assert!(server.get_advertisement_data().is_empty());
    server.start(Some(TcpConnectionInfo { hostname: "192.168.1.4".to_string(), port: 42420 }));
    assert!(server.variables.advertise);
    assert!(*running.borrow());
    // the broadcast payload names this device and the listener, and a
    // discovery registry digests it
    let payload = server.get_advertisement_data();
    assert!(!payload.is_empty());
    let mut registry: InternalDiscovery<ListChanges, BleClient> =
        InternalDiscovery::new(None).unwrap();
    registry.parse_discovery_message(payload, None);
    let devices = registry.get_devices();
    assert_eq!(devices.len(), 1);
    assert_eq!(devices[0].id, "me-9");
    assert_eq!(devices[0].name, "This Box");
    // stopping turns advertising off and empties the broadcast
    server.stop();
    assert!(!server.variables.advertise);
    assert!(!*running.borrow());
    assert!(server.get_advertisement_data().is_empty());
}

#[test]
fn failed_bind_leaves_advertising_off() {
    let (mut server, _slot, running) = server_with_slot();
    server.start(None);
    assert!(!server.variables.advertise);
    assert!(!*running.borrow());
    // a restart with a good bind comes up
    server.restart_server(Some(TcpConnectionInfo {
        hostname: "192.168.1.4".to_string(),
        port: 42420,
    }));
    assert!(server.variables.advertise);
}

#[test]
fn pending_ble_slot_is_single_use() {
    let (mut server, _slot, _running) = server_with_slot();
    let calls = Rc::new(RefCell::new(Vec::new()));
    // without the capability nothing is registered
    let ble = BluetoothLeConnectionInfo { uuid: "peer-uuid".to_string(), psm: 77 };
    assert!(server.request_ble_connection(&ble).is_none());
    server.add_l2_cap_client(OpenCalls { calls: calls.clone() });
    let id = server.request_ble_connection(&ble).expect("a slot is registered");
    assert_eq!(id.len(), 36);
    assert_eq!(*calls.borrow(), vec![(id.clone(), "peer-uuid".to_string(), 77)]);
    // nothing delivered yet
    assert!(server.take_ble_connection(&id).is_none());
    // an unknown identifier drops the channel silently
    server.handle_incoming_ble_connection(
        "not-registered".to_string(),
        InboundChannel { input: vec![], pos: 0 },
    );
    assert!(server.take_ble_connection(&id).is_none());
    // the registered identifier is fulfilled, once
    server.handle_incoming_ble_connection(id.clone(), InboundChannel { input: vec![1], pos: 0 });
    let channel = server.take_ble_connection(&id);
    assert!(channel.is_some());
    // the slot is retired: a second delivery and a second take both die out
    server.handle_incoming_ble_connection(id.clone(), InboundChannel { input: vec![2], pos: 0 });
    assert!(server.take_ble_connection(&id).is_none());
}

#[test]
fn inbound_connection_reaches_the_delegate_and_transfers() {
    let (mut server, slot, _running) = server_with_slot();
    let payload: Vec<u8> = (0..512u32).map(|i| (i % 128) as u8).collect();
    let request = TransferRequest {
        device: Some(Device { id: "peer-3".to_string(), name: "Peer".to_string(), device_type: 1 }),
        intent: Some(Intent::FileTransfer(FileTransferIntent {
            file_name: Some("photo.jpg".to_string()),
            file_size: 512,
            file_count: 1,
        })),
    };
    let mut wire: Vec<u8> = Vec::new();
    enc_bytes(&mut wire, &encode_transfer_request(&request));
    wire.extend_from_slice(&payload);
    server.handle_incoming_connection(InboundChannel { input: wire, pos: 0 });
    let mut cr = slot.borrow_mut().take().expect("the delegate received the request");
    assert_eq!(cr.get_sender().id, "peer-3");
    let result = cr.accept();
    assert_eq!(result, Some(vec!["/downloads/photo.jpg".to_string()]));
    assert_eq!(cr.received_files[0].data, payload);
}

#[test]
fn malformed_inbound_request_is_refused() {
    let (mut server, slot, _running) = server_with_slot();
    // a request without a sender is a protocol violation
    let request = TransferRequest {
        device: None,
        intent: Some(Intent::FileTransfer(FileTransferIntent {
            file_name: None,
            file_size: 9,
            file_count: 2,
        })),
    };
    let mut wire: Vec<u8> = Vec::new();
    enc_bytes(&mut wire, &encode_transfer_request(&request));
    server.handle_incoming_connection(InboundChannel { input: wire, pos: 0 });
    assert!(slot.borrow().is_none());
    // garbage framing is refused too
    server.handle_incoming_connection(InboundChannel { input: vec![3, 1, 4], pos: 0 });
    assert!(slot.borrow().is_none());
}

#[test]
fn registry_upserts_and_retires_devices() {
    let added = Rc::new(RefCell::new(Vec::new()));
    let removed = Rc::new(RefCell::new(Vec::new()));
    let mut registry: InternalDiscovery<ListChanges, BleClient> =
        InternalDiscovery::new(Some(ListChanges { added: added.clone(), removed: removed.clone() }))
            .unwrap();

    let announce = |id: &str, name: &str| {
        encode_discovery_message(&DeviceDiscoveryMessage {
            content: Some(DiscoveryContent::DeviceConnectionInfo(DeviceConnectionInfo {
                device: Some(Device {
                    id: id.to_string(),
                    name: name.to_string(),
                    device_type: 0,
                }),
                ble: None,
                tcp: None,
            })),
        })
    };
    registry.parse_discovery_message(announce("d-1", "One"), None);
    registry.parse_discovery_message(announce("d-2", "Two"), None);
    // a known identifier is replaced in place, not duplicated
    registry.parse_discovery_message(announce("d-1", "One renamed"), None);
    let devices = registry.get_devices();
    assert_eq!(devices.len(), 2);
    assert_eq!(devices[0].id, "d-1");
    assert_eq!(devices[0].name, "One renamed");
    assert_eq!(devices[1].id, "d-2");
    assert_eq!(*added.borrow(), vec!["d-1".to_string(), "d-2".to_string()]);
    // garbage leaves the registry untouched
    registry.parse_discovery_message(vec![250, 9], None);
    assert_eq!(registry.get_devices().len(), 2);
    // an offline announcement retires the entry
    let offline = encode_discovery_message(&DeviceDiscoveryMessage {
        content: Some(DiscoveryContent::OfflineDeviceId("d-1".to_string())),
    });
    registry.parse_discovery_message(offline, None);
    let devices = registry.get_devices();
    assert_eq!(devices.len(), 1);
    assert_eq!(devices[0].id, "d-2");
    assert_eq!(*removed.borrow(), vec!["d-1".to_string()]);
}

#[test]
fn desktop_discovery_wraps_the_registry() {
    let mut discovery: Discovery<ListChanges> = Discovery::new(None);
    assert!(discovery.get_devices().is_empty());
    discovery.start();
    assert!(discovery.internal_discovery.scanning);
    discovery.stop();
    assert!(!discovery.internal_discovery.scanning);
    let client = BleClient::new();
    assert!(!client.scanning);
}

#[test]
fn ble_identifiers_are_stable_uuids() {
    let service = get_ble_service_uuid();
    let characteristic = get_ble_characteristic_uuid();
    assert_eq!(service, "0fd264a7-9f49-4a14-9c4c-c9c36f834e05");
    assert_eq!(characteristic, "6a09b5cd-8e27-458f-8dcc-b5f31a63fecb");
    assert_ne!(service, characteristic);
}

#[test]
fn current_ip_query_leaves_the_server_alone() {
    let (server, _slot, _running) = server_with_slot();
    // machine-dependent: the sandbox may or may not expose a local address
    let _ip = server.get_current_ip();
    assert!(!server.variables.advertise);
    let wrapped = intershare_sdk::errors::ExternalIOError::from_reason("pipe broke".to_string());
    let intershare_sdk::errors::ExternalIOError::IOError { reason } = wrapped;
    assert_eq!(reason, "pipe broke");
}

#[test]
fn admission_refuses_what_does_not_parse() {
    // a well-formed framed request is admitted and bound to the root
    let request = TransferRequest {
        device: Some(Device { id: "peer-7".to_string(), name: "Peer".to_string(), device_type: 0 }),
        intent: Some(Intent::FileTransfer(FileTransferIntent {
            file_name: None,
            file_size: 40,
            file_count: 2,
        })),
    };
    let mut wire: Vec<u8> = Vec::new();
    enc_bytes(&mut wire, &encode_transfer_request(&request));
    let admitted = admit_incoming_connection::<InboundChannel, Silent>(
        InboundChannel { input: wire, pos: 0 },
        "/root-dir".to_string(),
    )
    .ok()
    .expect("a well-formed request is admitted");
    assert_eq!(admitted.file_storage, "/root-dir");
    assert_eq!(admitted.get_sender().id, "peer-7");
    // a starved stream and garbage bytes are both refused
    assert!(admit_incoming_connection::<InboundChannel, Silent>(
        InboundChannel { input: vec![], pos: 0 },
        "/root-dir".to_string(),
    )
    .is_err());
    assert!(admit_incoming_connection::<InboundChannel, Silent>(
        InboundChannel { input: vec![8, 8, 8, 8], pos: 0 },
        "/root-dir".to_string(),
    )
    .is_err());
}
