use intershare_sdk::codec::{
    dec_bool, dec_device, dec_string, dec_u64, decode_discovery_message, decode_response,
    decode_transfer_request, enc_device, enc_string, enc_u64, encode_discovery_message,
    encode_response, encode_transfer_request,
};
use intershare_sdk::device::{BluetoothLeConnectionInfo, Device, DeviceConnectionInfo, TcpConnectionInfo};
use intershare_sdk::messages::{
    DeviceDiscoveryMessage, DiscoveryContent, FileTransferIntent, Intent, TransferRequest,
    TransferRequestResponse,
};

#[test]
fn u64_little_endian_bytes_exact() {
    let mut out: Vec<u8> = Vec::new();
    enc_u64(&mut out, 0x0102030405060708);
    assert_eq!(out, vec![0x08, 0x07, 0x06, 0x05, 0x04, 0x03, 0x02, 0x01]);
    let (x, p) = dec_u64(&out, 0).unwrap();
    assert_eq!(x, 0x0102030405060708);
    assert_eq!(p, 8);
}

#[test]
fn string_encoding_is_length_prefixed_utf8() {
    let mut out: Vec<u8> = Vec::new();
    enc_string(&mut out, &"hi".to_string());
    assert_eq!(out, vec![2, 0, 0, 0, 0, 0, 0, 0, b'h', b'i']);
    let (s, p) = dec_string(&out, 0).unwrap();
    assert_eq!(s, "hi");
    assert_eq!(p, 10);
}

#[test]
fn non_ascii_string_round_trip() {
    let name = "Ünïcode häñdy 📱".to_string();
    let mut out: Vec<u8> = Vec::new();
    enc_string(&mut out, &name);
    let (s, _) = dec_string(&out, 0).unwrap();
    assert_eq!(s, name);
}

#[test]
fn device_round_trip_with_negative_type() {
    let d = Device { id: "id-1".to_string(), name: "Laptop".to_string(), device_type: -7 };
    let mut out: Vec<u8> = Vec::new();
    enc_device(&mut out, &d);
    let (back, p) = dec_device(&out, 0).unwrap();
    assert_eq!(back.id, "id-1");
    assert_eq!(back.name, "Laptop");
    assert_eq!(back.device_type, -7);
    assert_eq!(p, out.len());
}

#[test]
fn response_encoding_is_one_flag_byte() {
    let yes = encode_response(&TransferRequestResponse { accepted: true });
    let no = encode_response(&TransferRequestResponse { accepted: false });
    assert_eq!(yes, vec![1]);
    assert_eq!(no, vec![0]);
    assert!(decode_response(&yes).unwrap().accepted);
    assert!(!decode_response(&no).unwrap().accepted);
    // any byte but zero or one is refused
    assert!(decode_response(&vec![2u8]).is_none());
    // trailing bytes are refused
    assert!(decode_response(&vec![1u8, 0u8]).is_none());
}

#[test]
fn bool_decoder_is_strict() {
    assert_eq!(dec_bool(&vec![0u8], 0), Some((false, 1)));
    assert_eq!(dec_bool(&vec![1u8], 0), Some((true, 1)));
    assert_eq!(dec_bool(&vec![7u8], 0), None);
    assert_eq!(dec_bool(&vec![], 0), None);
}

#[test]
fn transfer_request_round_trip() {
    let request = TransferRequest {
        device: Some(Device {
            id: "B53CCB62".to_string(),
            name: "Rust Device 1".to_string(),
            device_type: 0,
        }),
        intent: Some(Intent::FileTransfer(FileTransferIntent {
            file_name: Some("a.txt".to_string()),
            file_size: 1000,
            file_count: 1,
        })),
    };
    let bytes = encode_transfer_request(&request);
    let back = decode_transfer_request(&bytes).expect("must decode its own encoding");
    let d = back.device.unwrap();
    assert_eq!(d.id, "B53CCB62");
    assert_eq!(d.name, "Rust Device 1");
    match back.intent.unwrap() {
        Intent::FileTransfer(f) => {
            assert_eq!(f.file_name.as_deref(), Some("a.txt"));
            assert_eq!(f.file_size, 1000);
            assert_eq!(f.file_count, 1);
        },
        Intent::Clipboard(_) => panic!("wrong intent decoded"),
    }
    // a truncated request is refused
    let short = bytes[..bytes.len() - 1].to_vec();
    assert!(decode_transfer_request(&short).is_none());
}

#[test]
fn discovery_message_round_trip() {
    let message = DeviceDiscoveryMessage {
        content: Some(DiscoveryContent::DeviceConnectionInfo(DeviceConnectionInfo {
            device: Some(Device {
                id: "37791916-4200-4cf6-b21e-8628e03bd4c5".to_string(),
                name: "Windows PC".to_string(),
                device_type: 0,
            }),
            ble: Some(BluetoothLeConnectionInfo { uuid: "peripheral-9".to_string(), psm: 0x99 }),
            tcp: Some(TcpConnectionInfo { hostname: "127.0.0.1".to_string(), port: 42420 }),
        })),
    };
    let bytes = encode_discovery_message(&message);
    let back = decode_discovery_message(&bytes).expect("must decode its own encoding");
    match back.content.unwrap() {
        DiscoveryContent::DeviceConnectionInfo(info) => {
            let d = info.device.unwrap();
            assert_eq!(d.id, "37791916-4200-4cf6-b21e-8628e03bd4c5");
            assert_eq!(d.name, "Windows PC");
            let b = info.ble.unwrap();
            assert_eq!(b.uuid, "peripheral-9");
            assert_eq!(b.psm, 0x99);
            let t = info.tcp.unwrap();
            assert_eq!(t.hostname, "127.0.0.1");
            assert_eq!(t.port, 42420);
        },
        DiscoveryContent::OfflineDeviceId(_) => panic!("wrong content decoded"),
    }
}

#[test]
fn offline_announcement_round_trip() {
    let message = DeviceDiscoveryMessage {
        content: Some(DiscoveryContent::OfflineDeviceId("gone-device".to_string())),
    };
    let bytes = encode_discovery_message(&message);
    match decode_discovery_message(&bytes).unwrap().content.unwrap() {
        DiscoveryContent::OfflineDeviceId(id) => assert_eq!(id, "gone-device"),
        DiscoveryContent::DeviceConnectionInfo(_) => panic!("wrong content decoded"),
    }
}
