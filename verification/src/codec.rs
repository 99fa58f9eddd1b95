//! Byte-level codec primitives for the engine's wire format.
//!
//! Every value that crosses a channel is encoded with the primitives of this
//! module: little-endian fixed-width integers, a single flag byte for
//! booleans and option tags, and length-prefixed byte strings. Each encoder
//! has a specification-level twin, each decoder is proved to agree with its
//! specification-level twin, and a round-trip lemma per primitive shows that
//! decoding an encoding yields the value encoded.

use vstd::prelude::*;
use vstd::bytes::*;
use vstd::slice::*;
use vstd::utf8::*;
use vstd::string::StrSliceExecFns;
use crate::device::{
    Device, DeviceV, TcpConnectionInfo, TcpConnectionInfoV, BluetoothLeConnectionInfo,
    BluetoothLeConnectionInfoV, DeviceConnectionInfo, DeviceConnectionInfoV,
};
use crate::messages::{
    DeviceDiscoveryMessage, DeviceDiscoveryMessageV, DiscoveryContent, DiscoveryContentV,
    FileTransferIntent, FileTransferIntentV, ClipboardTransferIntent, ClipboardTransferIntentV,
    Intent, IntentV, TransferRequest, TransferRequestV, TransferRequestResponse,
};

verus! {

// ---------------------------------------------------------------------------
// Specification-level encoders
// ---------------------------------------------------------------------------
/// Encoding of a `u64`: its eight bytes, least significant first.
pub open spec fn spec_enc_u64(x: u64) -> Seq<u8> {
    spec_u64_to_le_bytes(x)
}

/// Encoding of a `u32`: its four bytes, least significant first.
pub open spec fn spec_enc_u32(x: u32) -> Seq<u8> {
    spec_u32_to_le_bytes(x)
}

/// Encoding of a boolean: one byte, zero or one.
pub open spec fn spec_enc_bool(b: bool) -> Seq<u8> {
    seq![if b { 1u8 } else { 0u8 }]
}

/// Encoding of a byte string: its length, then its bytes.
pub open spec fn spec_enc_bytes(b: Seq<u8>) -> Seq<u8> {
    spec_enc_u64(b.len() as u64) + b
}

/// Encoding of a character string: the length-prefixed UTF-8 bytes.
pub open spec fn spec_enc_string(s: Seq<char>) -> Seq<u8> {
    spec_enc_bytes(encode_utf8(s))
}

/// A byte string short enough for its length prefix.
pub open spec fn bytes_fit(b: Seq<u8>) -> bool {
    b.len() <= u64::MAX
}

/// A character string short enough for its length prefix.
pub open spec fn string_fits(s: Seq<char>) -> bool {
    bytes_fit(encode_utf8(s))
}

// ---------------------------------------------------------------------------
// Specification-level decoders
// ---------------------------------------------------------------------------
/// Decodes a `u64` at `pos`; yields the value and the position after it.
pub open spec fn spec_dec_u64(data: Seq<u8>, pos: int) -> Option<(u64, int)> {
    if 0 <= pos && pos + 8 <= data.len() {
        Some((spec_u64_from_le_bytes(data.subrange(pos, pos + 8)), pos + 8))
    } else {
        None
    }
}

/// Decodes a `u32` at `pos`; yields the value and the position after it.
pub open spec fn spec_dec_u32(data: Seq<u8>, pos: int) -> Option<(u32, int)> {
    if 0 <= pos && pos + 4 <= data.len() {
        Some((spec_u32_from_le_bytes(data.subrange(pos, pos + 4)), pos + 4))
    } else {
        None
    }
}

/// Decodes a boolean at `pos`; any byte but zero or one is refused.
pub open spec fn spec_dec_bool(data: Seq<u8>, pos: int) -> Option<(bool, int)> {
    if 0 <= pos && pos + 1 <= data.len() {
        if data[pos] == 1u8 {
            Some((true, pos + 1))
        } else if data[pos] == 0u8 {
            Some((false, pos + 1))
        } else {
            None
        }
    } else {
        None
    }
}

/// Decodes a length-prefixed byte string at `pos`.
pub open spec fn spec_dec_bytes(data: Seq<u8>, pos: int) -> Option<(Seq<u8>, int)> {
    match spec_dec_u64(data, pos) {
        Some((n, p)) => if p + n <= data.len() {
            Some((data.subrange(p, p + n as int), p + n as int))
        } else {
            None
        },
        None => None,
    }
}

/// Decodes a length-prefixed UTF-8 string at `pos`.
pub open spec fn spec_dec_string(data: Seq<u8>, pos: int) -> Option<(Seq<char>, int)> {
    match spec_dec_bytes(data, pos) {
        Some((b, p)) => if valid_utf8(b) {
            Some((decode_utf8(b), p))
        } else {
            None
        },
        None => None,
    }
}

// ---------------------------------------------------------------------------
// Round-trip lemmas
// ---------------------------------------------------------------------------
/// Wherever an encoded `u64` sits in a byte stream, decoding there yields it.
pub proof fn lemma_dec_enc_u64(data: Seq<u8>, pos: int, x: u64)
    requires
        0 <= pos,
        pos + 8 <= data.len(),
        data.subrange(pos, pos + 8) == spec_enc_u64(x),
    ensures
        spec_dec_u64(data, pos) == Some((x, pos + 8)),
{
    lemma_auto_spec_u64_to_from_le_bytes();
}

/// Wherever an encoded `u32` sits in a byte stream, decoding there yields it.
pub proof fn lemma_dec_enc_u32(data: Seq<u8>, pos: int, x: u32)
    requires
        0 <= pos,
        pos + 4 <= data.len(),
        data.subrange(pos, pos + 4) == spec_enc_u32(x),
    ensures
        spec_dec_u32(data, pos) == Some((x, pos + 4)),
{
    lemma_auto_spec_u32_to_from_le_bytes();
    assert(spec_u32_to_le_bytes(x).len() == 4);
}

/// Wherever an encoded boolean sits in a byte stream, decoding there yields it.
pub proof fn lemma_dec_enc_bool(data: Seq<u8>, pos: int, b: bool)
    requires
        0 <= pos,
        pos + 1 <= data.len(),
        data.subrange(pos, pos + 1) == spec_enc_bool(b),
    ensures
        spec_dec_bool(data, pos) == Some((b, pos + 1)),
{
    assert(data[pos] == spec_enc_bool(b)[0]);
}

/// Wherever an encoded byte string sits in a byte stream, decoding there
/// yields it.
pub proof fn lemma_dec_enc_bytes(data: Seq<u8>, pos: int, b: Seq<u8>)
    requires
        0 <= pos,
        bytes_fit(b),
        pos + spec_enc_bytes(b).len() <= data.len(),
        data.subrange(pos, pos + spec_enc_bytes(b).len()) == spec_enc_bytes(b),
    ensures
        spec_dec_bytes(data, pos) == Some((b, pos + spec_enc_bytes(b).len())),
{
    lemma_auto_spec_u64_to_from_le_bytes();
    let whole = spec_enc_bytes(b);
    let end = pos + whole.len();
    assert(data.subrange(pos, pos + 8) =~= whole.subrange(0, 8));
    assert(whole.subrange(0, 8) =~= spec_enc_u64(b.len() as u64));
    lemma_dec_enc_u64(data, pos, b.len() as u64);
    assert(data.subrange(pos + 8, end) =~= whole.subrange(8, whole.len() as int));
    assert(whole.subrange(8, whole.len() as int) =~= b);
}

/// Wherever an encoded string sits in a byte stream, decoding there yields
/// its characters.
pub proof fn lemma_dec_enc_string(data: Seq<u8>, pos: int, s: Seq<char>)
    requires
        0 <= pos,
        string_fits(s),
        pos + spec_enc_string(s).len() <= data.len(),
        data.subrange(pos, pos + spec_enc_string(s).len()) == spec_enc_string(s),
    ensures
        spec_dec_string(data, pos) == Some((s, pos + spec_enc_string(s).len())),
{
    lemma_dec_enc_bytes(data, pos, encode_utf8(s));
    encode_utf8_valid_utf8(s);
    encode_utf8_decode_utf8(s);
}

// ---------------------------------------------------------------------------
// Executable encoders: each appends its encoding to `out`.
// ---------------------------------------------------------------------------
pub fn enc_u64(out: &mut Vec<u8>, x: u64)
    ensures
        final(out)@ == old(out)@ + spec_enc_u64(x),
{
    let mut b = u64_to_le_bytes(x);
    out.append(&mut b);
}

pub fn enc_u32(out: &mut Vec<u8>, x: u32)
    ensures
        final(out)@ == old(out)@ + spec_enc_u32(x),
{
    let mut b = u32_to_le_bytes(x);
    out.append(&mut b);
}

pub fn enc_bool(out: &mut Vec<u8>, b: bool)
    ensures
        final(out)@ == old(out)@ + spec_enc_bool(b),
{
    out.push(if b { 1u8 } else { 0u8 });
    assert(final(out)@ =~= old(out)@ + spec_enc_bool(b));
}

pub fn enc_bytes(out: &mut Vec<u8>, b: &Vec<u8>)
    ensures
        final(out)@ == old(out)@ + spec_enc_bytes(b@),
{
    enc_u64(out, b.len() as u64);
    let mut tail = slice_to_vec(b.as_slice());
    out.append(&mut tail);
    assert(final(out)@ =~= old(out)@ + spec_enc_bytes(b@));
}

pub fn enc_string(out: &mut Vec<u8>, s: &String)
    ensures
        final(out)@ == old(out)@ + spec_enc_string(s@),
{
    let b: Vec<u8> = s.as_str().as_bytes_vec();
    enc_bytes(out, &b);
}

// ---------------------------------------------------------------------------
// Executable decoders: each agrees with its specification-level twin.
// ---------------------------------------------------------------------------
pub fn dec_u64(data: &Vec<u8>, pos: usize) -> (r: Option<(u64, usize)>)
    ensures
        r is Some <==> spec_dec_u64(data@, pos as int) is Some,
        r matches Some(p) ==> spec_dec_u64(data@, pos as int) == Some((p.0, p.1 as int)),
        r matches Some(p) ==> pos < p.1 <= data.len(),
{
    if pos <= data.len() && data.len() - pos >= 8 {
        let x = u64_from_le_bytes(slice_subrange(data.as_slice(), pos, pos + 8));
        Some((x, pos + 8))
    } else {
        None
    }
}

pub fn dec_u32(data: &Vec<u8>, pos: usize) -> (r: Option<(u32, usize)>)
    ensures
        r is Some <==> spec_dec_u32(data@, pos as int) is Some,
        r matches Some(p) ==> spec_dec_u32(data@, pos as int) == Some((p.0, p.1 as int)),
        r matches Some(p) ==> pos < p.1 <= data.len(),
{
    if pos <= data.len() && data.len() - pos >= 4 {
        let x = u32_from_le_bytes(slice_subrange(data.as_slice(), pos, pos + 4));
        Some((x, pos + 4))
    } else {
        None
    }
}

pub fn dec_bool(data: &Vec<u8>, pos: usize) -> (r: Option<(bool, usize)>)
    ensures
        r is Some <==> spec_dec_bool(data@, pos as int) is Some,
        r matches Some(p) ==> spec_dec_bool(data@, pos as int) == Some((p.0, p.1 as int)),
        r matches Some(p) ==> pos < p.1 <= data.len(),
{
    if pos < data.len() {
        let byte = data[pos];
        if byte == 1u8 {
            Some((true, pos + 1))
        } else if byte == 0u8 {
            Some((false, pos + 1))
        } else {
            None
        }
    } else {
        None
    }
}

pub fn dec_bytes(data: &Vec<u8>, pos: usize) -> (r: Option<(Vec<u8>, usize)>)
    ensures
        r is Some <==> spec_dec_bytes(data@, pos as int) is Some,
        r matches Some(p) ==> spec_dec_bytes(data@, pos as int) == Some((p.0@, p.1 as int)),
        r matches Some(p) ==> pos < p.1 <= data.len(),
{
    match dec_u64(data, pos) {
        Some((n, p)) => {
            if n <= (data.len() - p) as u64 {
                let end = p + (n as usize);
                let body = slice_to_vec(slice_subrange(data.as_slice(), p, end));
                Some((body, end))
            } else {
                None
            }
        },
        None => None,
    }
}

/// Relies on `String::from_utf8`: it succeeds exactly on valid UTF-8 input
/// and yields the characters that the bytes encode.
#[verifier::external_body]
fn bytes_to_string(bytes: Vec<u8>) -> (r: Option<String>)
    ensures
        r is Some <==> valid_utf8(bytes@),
        r matches Some(s) ==> s@ == decode_utf8(bytes@),
{
    match String::from_utf8(bytes) {
        Ok(s) => Some(s),
        Err(_) => None,
    }
}

pub fn dec_string(data: &Vec<u8>, pos: usize) -> (r: Option<(String, usize)>)
    ensures
        r is Some <==> spec_dec_string(data@, pos as int) is Some,
        r matches Some(p) ==> spec_dec_string(data@, pos as int) == Some((p.0@, p.1 as int)),
        r matches Some(p) ==> pos < p.1 <= data.len(),
{
    match dec_bytes(data, pos) {
        Some((b, p)) => match bytes_to_string(b) {
            Some(s) => Some((s, p)),
            None => None,
        },
        None => None,
    }
}

// ---------------------------------------------------------------------------
// Signed / unsigned bridge for the device type tag
// ---------------------------------------------------------------------------
/// The bit image of an `i32` as a `u32`.
pub open spec fn spec_i32_bits(x: i32) -> u32 {
    if x >= 0 {
        x as u32
    } else {
        (x + 0x1_0000_0000) as u32
    }
}

/// The `i32` whose bit image a `u32` is.
pub open spec fn spec_bits_i32(y: u32) -> i32 {
    if y < 0x8000_0000 {
        y as i32
    } else {
        (y - 0x1_0000_0000) as i32
    }
}

/// The two bridges invert each other.
pub proof fn lemma_i32_bits_roundtrip(x: i32)
    ensures
        spec_bits_i32(spec_i32_bits(x)) == x,
{
}

/// Executable twin of `spec_i32_bits`.
pub fn i32_bits(x: i32) -> (r: u32)
    ensures
        r == spec_i32_bits(x),
{
    if x >= 0 {
        x as u32
    } else {
        ((x as i64) + 0x1_0000_0000i64) as u32
    }
}

/// Executable twin of `spec_bits_i32`.
pub fn bits_i32(y: u32) -> (r: i32)
    ensures
        r == spec_bits_i32(y),
{
    if y < 0x8000_0000 {
        y as i32
    } else {
        ((y as i64) - 0x1_0000_0000i64) as i32
    }
}

// ---------------------------------------------------------------------------
// Message encodings
// ---------------------------------------------------------------------------
/// Encoding of a device identity: id, name, type tag.
pub open spec fn spec_enc_device(d: DeviceV) -> Seq<u8> {
    spec_enc_string(d.id) + spec_enc_string(d.name) + spec_enc_u32(spec_i32_bits(d.device_type))
}

/// Encoding of a TCP leg: hostname, port.
pub open spec fn spec_enc_tcp(t: TcpConnectionInfoV) -> Seq<u8> {
    spec_enc_string(t.hostname) + spec_enc_u32(t.port)
}

/// Encoding of a BLE leg: peripheral identifier, protocol multiplexer.
pub open spec fn spec_enc_ble(b: BluetoothLeConnectionInfoV) -> Seq<u8> {
    spec_enc_string(b.uuid) + spec_enc_u32(b.psm)
}

/// Encoding of an optional device: a presence byte, then the device.
pub open spec fn spec_enc_opt_device(o: Option<DeviceV>) -> Seq<u8> {
    match o {
        None => seq![0u8],
        Some(d) => seq![1u8] + spec_enc_device(d),
    }
}

/// Encoding of an optional BLE leg.
pub open spec fn spec_enc_opt_ble(o: Option<BluetoothLeConnectionInfoV>) -> Seq<u8> {
    match o {
        None => seq![0u8],
        Some(b) => seq![1u8] + spec_enc_ble(b),
    }
}

/// Encoding of an optional TCP leg.
pub open spec fn spec_enc_opt_tcp(o: Option<TcpConnectionInfoV>) -> Seq<u8> {
    match o {
        None => seq![0u8],
        Some(t) => seq![1u8] + spec_enc_tcp(t),
    }
}

/// Encoding of a device's reachability info.
pub open spec fn spec_enc_conn_info(c: DeviceConnectionInfoV) -> Seq<u8> {
    spec_enc_opt_device(c.device) + spec_enc_opt_ble(c.ble) + spec_enc_opt_tcp(c.tcp)
}

/// Encoding of a discovery payload: a content tag, then the content.
pub open spec fn spec_enc_discovery(m: DeviceDiscoveryMessageV) -> Seq<u8> {
    match m.content {
        None => seq![0u8],
        Some(DiscoveryContentV::DeviceConnectionInfo(c)) => seq![1u8] + spec_enc_conn_info(c),
        Some(DiscoveryContentV::OfflineDeviceId(s)) => seq![2u8] + spec_enc_string(s),
    }
}

/// The discovery payload as broadcast: length-prefixed.
pub open spec fn spec_enc_discovery_ld(m: DeviceDiscoveryMessageV) -> Seq<u8> {
    spec_enc_bytes(spec_enc_discovery(m))
}

/// Short enough for every length prefix inside.
pub open spec fn device_fits(d: DeviceV) -> bool {
    string_fits(d.id) && string_fits(d.name)
}

pub open spec fn tcp_fits(t: TcpConnectionInfoV) -> bool {
    string_fits(t.hostname)
}

pub open spec fn ble_fits(b: BluetoothLeConnectionInfoV) -> bool {
    string_fits(b.uuid)
}

pub open spec fn conn_info_fits(c: DeviceConnectionInfoV) -> bool {
    &&& (c.device matches Some(d) ==> device_fits(d))
    &&& (c.ble matches Some(b) ==> ble_fits(b))
    &&& (c.tcp matches Some(t) ==> tcp_fits(t))
}

pub open spec fn discovery_fits(m: DeviceDiscoveryMessageV) -> bool {
    match m.content {
        None => true,
        Some(DiscoveryContentV::DeviceConnectionInfo(c)) => conn_info_fits(c)
            && bytes_fit(spec_enc_discovery(m)),
        Some(DiscoveryContentV::OfflineDeviceId(s)) => string_fits(s)
            && bytes_fit(spec_enc_discovery(m)),
    }
}

// ---------------------------------------------------------------------------
// Message decodings
// ---------------------------------------------------------------------------
pub open spec fn spec_dec_device(data: Seq<u8>, pos: int) -> Option<(DeviceV, int)> {
    match spec_dec_string(data, pos) {
        Some((id, p1)) => match spec_dec_string(data, p1) {
            Some((name, p2)) => match spec_dec_u32(data, p2) {
                Some((t, p3)) => Some((DeviceV { id, name, device_type: spec_bits_i32(t) }, p3)),
                None => None,
            },
            None => None,
        },
        None => None,
    }
}

pub open spec fn spec_dec_tcp(data: Seq<u8>, pos: int) -> Option<(TcpConnectionInfoV, int)> {
    match spec_dec_string(data, pos) {
        Some((hostname, p1)) => match spec_dec_u32(data, p1) {
            Some((port, p2)) => Some((TcpConnectionInfoV { hostname, port }, p2)),
            None => None,
        },
        None => None,
    }
}

pub open spec fn spec_dec_ble(data: Seq<u8>, pos: int) -> Option<
    (BluetoothLeConnectionInfoV, int),
> {
    match spec_dec_string(data, pos) {
        Some((uuid, p1)) => match spec_dec_u32(data, p1) {
            Some((psm, p2)) => Some((BluetoothLeConnectionInfoV { uuid, psm }, p2)),
            None => None,
        },
        None => None,
    }
}

pub open spec fn spec_dec_opt_device(data: Seq<u8>, pos: int) -> Option<(Option<DeviceV>, int)> {
    if 0 <= pos && pos + 1 <= data.len() {
        if data[pos] == 0u8 {
            Some((None, pos + 1))
        } else if data[pos] == 1u8 {
            match spec_dec_device(data, pos + 1) {
                Some((d, p)) => Some((Some(d), p)),
                None => None,
            }
        } else {
            None
        }
    } else {
        None
    }
}

pub open spec fn spec_dec_opt_ble(data: Seq<u8>, pos: int) -> Option<
    (Option<BluetoothLeConnectionInfoV>, int),
> {
    if 0 <= pos && pos + 1 <= data.len() {
        if data[pos] == 0u8 {
            Some((None, pos + 1))
        } else if data[pos] == 1u8 {
            match spec_dec_ble(data, pos + 1) {
                Some((b, p)) => Some((Some(b), p)),
                None => None,
            }
        } else {
            None
        }
    } else {
        None
    }
}

pub open spec fn spec_dec_opt_tcp(data: Seq<u8>, pos: int) -> Option<
    (Option<TcpConnectionInfoV>, int),
> {
    if 0 <= pos && pos + 1 <= data.len() {
        if data[pos] == 0u8 {
            Some((None, pos + 1))
        } else if data[pos] == 1u8 {
            match spec_dec_tcp(data, pos + 1) {
                Some((t, p)) => Some((Some(t), p)),
                None => None,
            }
        } else {
            None
        }
    } else {
        None
    }
}

pub open spec fn spec_dec_conn_info(data: Seq<u8>, pos: int) -> Option<
    (DeviceConnectionInfoV, int),
> {
    match spec_dec_opt_device(data, pos) {
        Some((device, p1)) => match spec_dec_opt_ble(data, p1) {
            Some((ble, p2)) => match spec_dec_opt_tcp(data, p2) {
                Some((tcp, p3)) => Some((DeviceConnectionInfoV { device, ble, tcp }, p3)),
                None => None,
            },
            None => None,
        },
        None => None,
    }
}

pub open spec fn spec_dec_discovery(data: Seq<u8>, pos: int) -> Option<
    (DeviceDiscoveryMessageV, int),
> {
    if 0 <= pos && pos + 1 <= data.len() {
        if data[pos] == 0u8 {
            Some((DeviceDiscoveryMessageV { content: None }, pos + 1))
        } else if data[pos] == 1u8 {
            match spec_dec_conn_info(data, pos + 1) {
                Some((c, p)) => Some(
                    (
                        DeviceDiscoveryMessageV {
                            content: Some(DiscoveryContentV::DeviceConnectionInfo(c)),
                        },
                        p,
                    ),
                ),
                None => None,
            }
        } else if data[pos] == 2u8 {
            match spec_dec_string(data, pos + 1) {
                Some((s, p)) => Some(
                    (
                        DeviceDiscoveryMessageV {
                            content: Some(DiscoveryContentV::OfflineDeviceId(s)),
                        },
                        p,
                    ),
                ),
                None => None,
            }
        } else {
            None
        }
    } else {
        None
    }
}

/// The broadcast form: a length prefix around the payload, which it must
/// fill exactly.
pub open spec fn spec_dec_discovery_ld(data: Seq<u8>) -> Option<DeviceDiscoveryMessageV> {
    match spec_dec_bytes(data, 0) {
        Some((inner, _p)) => match spec_dec_discovery(inner, 0) {
            Some((m, q)) => if q == inner.len() {
                Some(m)
            } else {
                None
            },
            None => None,
        },
        None => None,
    }
}

// ---------------------------------------------------------------------------
// Round-trip lemmas for messages
// ---------------------------------------------------------------------------
/// An encoding made of two parts that sits at `pos` puts each part at its
/// own place.
pub proof fn lemma_concat_split(data: Seq<u8>, pos: int, a: Seq<u8>, b: Seq<u8>)
    requires
        0 <= pos,
        pos + a.len() + b.len() <= data.len(),
        data.subrange(pos, pos + a.len() + b.len()) == a + b,
    ensures
        data.subrange(pos, pos + a.len()) == a,
        data.subrange(pos + a.len(), pos + a.len() + b.len()) == b,
{
    assert forall|i: int| 0 <= i < a.len() implies data[pos + i] == a[i] by {
        assert(data.subrange(pos, pos + a.len() + b.len())[i] == data[pos + i]);
        assert(data.subrange(pos, pos + a.len() + b.len())[i] == (a + b)[i]);
        assert((a + b)[i] == a[i]);
    }
    assert forall|i: int| 0 <= i < b.len() implies data[pos + a.len() + i] == b[i] by {
        assert(data.subrange(pos, pos + a.len() + b.len())[a.len() + i] == data[pos + a.len()
            + i]);
        assert(data.subrange(pos, pos + a.len() + b.len())[a.len() + i] == (a + b)[a.len() + i]);
        assert((a + b)[a.len() + i] == b[i]);
    }
    assert(data.subrange(pos, pos + a.len()) =~= a);
    assert(data.subrange(pos + a.len(), pos + a.len() + b.len()) =~= b);
}

/// Wherever an encoded device sits in a byte stream, decoding there yields it.
pub proof fn lemma_dec_enc_device(data: Seq<u8>, pos: int, d: DeviceV)
    requires
        0 <= pos,
        device_fits(d),
        pos + spec_enc_device(d).len() <= data.len(),
        data.subrange(pos, pos + spec_enc_device(d).len()) == spec_enc_device(d),
    ensures
        spec_dec_device(data, pos) == Some((d, pos + spec_enc_device(d).len())),
{
    let e1 = spec_enc_string(d.id);
    let e2 = spec_enc_string(d.name);
    let e3 = spec_enc_u32(spec_i32_bits(d.device_type));
    assert(spec_enc_device(d) =~= e1 + (e2 + e3));
    lemma_concat_split(data, pos, e1, e2 + e3);
    lemma_concat_split(data, pos + e1.len(), e2, e3);
    lemma_dec_enc_string(data, pos, d.id);
    lemma_dec_enc_string(data, pos + e1.len(), d.name);
    lemma_auto_spec_u32_to_from_le_bytes();
    assert(e3.len() == 4);
    lemma_dec_enc_u32(data, pos + e1.len() + e2.len(), spec_i32_bits(d.device_type));
    lemma_i32_bits_roundtrip(d.device_type);
}

/// Wherever an encoded TCP leg sits in a byte stream, decoding there yields it.
pub proof fn lemma_dec_enc_tcp(data: Seq<u8>, pos: int, t: TcpConnectionInfoV)
    requires
        0 <= pos,
        tcp_fits(t),
        pos + spec_enc_tcp(t).len() <= data.len(),
        data.subrange(pos, pos + spec_enc_tcp(t).len()) == spec_enc_tcp(t),
    ensures
        spec_dec_tcp(data, pos) == Some((t, pos + spec_enc_tcp(t).len())),
{
    let e1 = spec_enc_string(t.hostname);
    let e2 = spec_enc_u32(t.port);
    lemma_concat_split(data, pos, e1, e2);
    lemma_dec_enc_string(data, pos, t.hostname);
    lemma_auto_spec_u32_to_from_le_bytes();
    assert(e2.len() == 4);
    lemma_dec_enc_u32(data, pos + e1.len(), t.port);
}

/// Wherever an encoded BLE leg sits in a byte stream, decoding there yields it.
pub proof fn lemma_dec_enc_ble(data: Seq<u8>, pos: int, b: BluetoothLeConnectionInfoV)
    requires
        0 <= pos,
        ble_fits(b),
        pos + spec_enc_ble(b).len() <= data.len(),
        data.subrange(pos, pos + spec_enc_ble(b).len()) == spec_enc_ble(b),
    ensures
        spec_dec_ble(data, pos) == Some((b, pos + spec_enc_ble(b).len())),
{
    let e1 = spec_enc_string(b.uuid);
    let e2 = spec_enc_u32(b.psm);
    lemma_concat_split(data, pos, e1, e2);
    lemma_dec_enc_string(data, pos, b.uuid);
    lemma_auto_spec_u32_to_from_le_bytes();
    assert(e2.len() == 4);
    lemma_dec_enc_u32(data, pos + e1.len(), b.psm);
}

/// Round trip for an optional device.
pub proof fn lemma_dec_enc_opt_device(data: Seq<u8>, pos: int, o: Option<DeviceV>)
    requires
        0 <= pos,
        o matches Some(d) ==> device_fits(d),
        pos + spec_enc_opt_device(o).len() <= data.len(),
        data.subrange(pos, pos + spec_enc_opt_device(o).len()) == spec_enc_opt_device(o),
    ensures
        spec_dec_opt_device(data, pos) == Some((o, pos + spec_enc_opt_device(o).len())),
{
    let whole = spec_enc_opt_device(o);
    assert(data[pos] == whole[0]);
    match o {
        None => {},
        Some(d) => {
            lemma_concat_split(data, pos, seq![1u8], spec_enc_device(d));
            lemma_dec_enc_device(data, pos + 1, d);
        },
    }
}

/// Round trip for an optional BLE leg.
pub proof fn lemma_dec_enc_opt_ble(data: Seq<u8>, pos: int, o: Option<BluetoothLeConnectionInfoV>)
    requires
        0 <= pos,
        o matches Some(b) ==> ble_fits(b),
        pos + spec_enc_opt_ble(o).len() <= data.len(),
        data.subrange(pos, pos + spec_enc_opt_ble(o).len()) == spec_enc_opt_ble(o),
    ensures
        spec_dec_opt_ble(data, pos) == Some((o, pos + spec_enc_opt_ble(o).len())),
{
    let whole = spec_enc_opt_ble(o);
    assert(data[pos] == whole[0]);
    match o {
        None => {},
        Some(b) => {
            lemma_concat_split(data, pos, seq![1u8], spec_enc_ble(b));
            lemma_dec_enc_ble(data, pos + 1, b);
        },
    }
}

/// Round trip for an optional TCP leg.
pub proof fn lemma_dec_enc_opt_tcp(data: Seq<u8>, pos: int, o: Option<TcpConnectionInfoV>)
    requires
        0 <= pos,
        o matches Some(t) ==> tcp_fits(t),
        pos + spec_enc_opt_tcp(o).len() <= data.len(),
        data.subrange(pos, pos + spec_enc_opt_tcp(o).len()) == spec_enc_opt_tcp(o),
    ensures
        spec_dec_opt_tcp(data, pos) == Some((o, pos + spec_enc_opt_tcp(o).len())),
{
    let whole = spec_enc_opt_tcp(o);
    assert(data[pos] == whole[0]);
    match o {
        None => {},
        Some(t) => {
            lemma_concat_split(data, pos, seq![1u8], spec_enc_tcp(t));
            lemma_dec_enc_tcp(data, pos + 1, t);
        },
    }
}

/// Wherever encoded reachability info sits in a byte stream, decoding there
/// yields it.
pub proof fn lemma_dec_enc_conn_info(data: Seq<u8>, pos: int, c: DeviceConnectionInfoV)
    requires
        0 <= pos,
        conn_info_fits(c),
        pos + spec_enc_conn_info(c).len() <= data.len(),
        data.subrange(pos, pos + spec_enc_conn_info(c).len()) == spec_enc_conn_info(c),
    ensures
        spec_dec_conn_info(data, pos) == Some((c, pos + spec_enc_conn_info(c).len())),
{
    let e1 = spec_enc_opt_device(c.device);
    let e2 = spec_enc_opt_ble(c.ble);
    let e3 = spec_enc_opt_tcp(c.tcp);
    assert(spec_enc_conn_info(c) =~= e1 + (e2 + e3));
    lemma_concat_split(data, pos, e1, e2 + e3);
    lemma_concat_split(data, pos + e1.len(), e2, e3);
    lemma_dec_enc_opt_device(data, pos, c.device);
    lemma_dec_enc_opt_ble(data, pos + e1.len(), c.ble);
    lemma_dec_enc_opt_tcp(data, pos + e1.len() + e2.len(), c.tcp);
}

/// Wherever an encoded discovery payload sits in a byte stream, decoding
/// there yields it.
pub proof fn lemma_dec_enc_discovery(data: Seq<u8>, pos: int, m: DeviceDiscoveryMessageV)
    requires
        0 <= pos,
        discovery_fits(m),
        pos + spec_enc_discovery(m).len() <= data.len(),
        data.subrange(pos, pos + spec_enc_discovery(m).len()) == spec_enc_discovery(m),
    ensures
        spec_dec_discovery(data, pos) == Some((m, pos + spec_enc_discovery(m).len())),
{
    let whole = spec_enc_discovery(m);
    assert(data[pos] == whole[0]);
    match m.content {
        None => {},
        Some(DiscoveryContentV::DeviceConnectionInfo(c)) => {
            lemma_concat_split(data, pos, seq![1u8], spec_enc_conn_info(c));
            lemma_dec_enc_conn_info(data, pos + 1, c);
        },
        Some(DiscoveryContentV::OfflineDeviceId(s)) => {
            lemma_concat_split(data, pos, seq![2u8], spec_enc_string(s));
            lemma_dec_enc_string(data, pos + 1, s);
        },
    }
}

/// Decoding an encoded broadcast discovery payload yields the message.
pub proof fn lemma_dec_enc_discovery_ld(m: DeviceDiscoveryMessageV)
    requires
        discovery_fits(m),
    ensures
        spec_dec_discovery_ld(spec_enc_discovery_ld(m)) == Some(m),
{
    let inner = spec_enc_discovery(m);
    let data = spec_enc_discovery_ld(m);
    assert(bytes_fit(inner));
    assert(data.subrange(0, spec_enc_bytes(inner).len() as int) =~= spec_enc_bytes(inner));
    lemma_dec_enc_bytes(data, 0, inner);
    assert(inner.subrange(0, inner.len() as int) =~= inner);
    lemma_dec_enc_discovery(inner, 0, m);
}

// ---------------------------------------------------------------------------
// Executable message encoders
// ---------------------------------------------------------------------------
pub fn enc_device(out: &mut Vec<u8>, d: &Device)
    ensures
        final(out)@ == old(out)@ + spec_enc_device(d@),
{
    enc_string(out, &d.id);
    enc_string(out, &d.name);
    enc_u32(out, i32_bits(d.device_type));
    assert(out@ =~= old(out)@ + spec_enc_device(d@));
}

pub fn enc_tcp(out: &mut Vec<u8>, t: &TcpConnectionInfo)
    ensures
        final(out)@ == old(out)@ + spec_enc_tcp(t@),
{
    enc_string(out, &t.hostname);
    enc_u32(out, t.port);
    assert(out@ =~= old(out)@ + spec_enc_tcp(t@));
}

pub fn enc_ble(out: &mut Vec<u8>, b: &BluetoothLeConnectionInfo)
    ensures
        final(out)@ == old(out)@ + spec_enc_ble(b@),
{
    enc_string(out, &b.uuid);
    enc_u32(out, b.psm);
    assert(out@ =~= old(out)@ + spec_enc_ble(b@));
}

pub fn enc_opt_device(out: &mut Vec<u8>, o: &Option<Device>)
    ensures
        final(out)@ == old(out)@ + spec_enc_opt_device(
            match o {
                Some(d) => Some(d@),
                None => None,
            },
        ),
{
    match o {
        None => {
            out.push(0u8);
            assert(out@ =~= old(out)@ + seq![0u8]);
        },
        Some(d) => {
            out.push(1u8);
            enc_device(out, d);
            assert(out@ =~= old(out)@ + (seq![1u8] + spec_enc_device(d@)));
        },
    }
}

pub fn enc_opt_ble(out: &mut Vec<u8>, o: &Option<BluetoothLeConnectionInfo>)
    ensures
        final(out)@ == old(out)@ + spec_enc_opt_ble(
            match o {
                Some(b) => Some(b@),
                None => None,
            },
        ),
{
    match o {
        None => {
            out.push(0u8);
            assert(out@ =~= old(out)@ + seq![0u8]);
        },
        Some(b) => {
            out.push(1u8);
            enc_ble(out, b);
            assert(out@ =~= old(out)@ + (seq![1u8] + spec_enc_ble(b@)));
        },
    }
}

pub fn enc_opt_tcp(out: &mut Vec<u8>, o: &Option<TcpConnectionInfo>)
    ensures
        final(out)@ == old(out)@ + spec_enc_opt_tcp(
            match o {
                Some(t) => Some(t@),
                None => None,
            },
        ),
{
    match o {
        None => {
            out.push(0u8);
            assert(out@ =~= old(out)@ + seq![0u8]);
        },
        Some(t) => {
            out.push(1u8);
            enc_tcp(out, t);
            assert(out@ =~= old(out)@ + (seq![1u8] + spec_enc_tcp(t@)));
        },
    }
}

pub fn enc_conn_info(out: &mut Vec<u8>, c: &DeviceConnectionInfo)
    ensures
        final(out)@ == old(out)@ + spec_enc_conn_info(c@),
{
    enc_opt_device(out, &c.device);
    enc_opt_ble(out, &c.ble);
    enc_opt_tcp(out, &c.tcp);
    assert(out@ =~= old(out)@ + spec_enc_conn_info(c@));
}

pub fn enc_discovery(out: &mut Vec<u8>, m: &DeviceDiscoveryMessage)
    ensures
        final(out)@ == old(out)@ + spec_enc_discovery(m@),
{
    match &m.content {
        None => {
            out.push(0u8);
            assert(out@ =~= old(out)@ + seq![0u8]);
        },
        Some(DiscoveryContent::DeviceConnectionInfo(c)) => {
            out.push(1u8);
            enc_conn_info(out, c);
            assert(out@ =~= old(out)@ + (seq![1u8] + spec_enc_conn_info(c@)));
        },
        Some(DiscoveryContent::OfflineDeviceId(s)) => {
            out.push(2u8);
            enc_string(out, s);
            assert(out@ =~= old(out)@ + (seq![2u8] + spec_enc_string(s@)));
        },
    }
}

/// The broadcast form of a discovery payload: length-prefixed.
pub fn encode_discovery_message(m: &DeviceDiscoveryMessage) -> (r: Vec<u8>)
    ensures
        r@ == spec_enc_discovery_ld(m@),
{
    let mut inner: Vec<u8> = Vec::new();
    enc_discovery(&mut inner, m);
    let mut out: Vec<u8> = Vec::new();
    enc_bytes(&mut out, &inner);
    out
}

// ---------------------------------------------------------------------------
// Executable message decoders
// ---------------------------------------------------------------------------
pub fn dec_device(data: &Vec<u8>, pos: usize) -> (r: Option<(Device, usize)>)
    ensures
        r is Some <==> spec_dec_device(data@, pos as int) is Some,
        r matches Some(p) ==> spec_dec_device(data@, pos as int) == Some((p.0@, p.1 as int)),
        r matches Some(p) ==> pos < p.1 <= data.len(),
{
    match dec_string(data, pos) {
        Some((id, p1)) => match dec_string(data, p1) {
            Some((name, p2)) => match dec_u32(data, p2) {
                Some((t, p3)) => Some((Device { id, name, device_type: bits_i32(t) }, p3)),
                None => None,
            },
            None => None,
        },
        None => None,
    }
}

pub fn dec_tcp(data: &Vec<u8>, pos: usize) -> (r: Option<(TcpConnectionInfo, usize)>)
    ensures
        r is Some <==> spec_dec_tcp(data@, pos as int) is Some,
        r matches Some(p) ==> spec_dec_tcp(data@, pos as int) == Some((p.0@, p.1 as int)),
        r matches Some(p) ==> pos < p.1 <= data.len(),
{
    match dec_string(data, pos) {
        Some((hostname, p1)) => match dec_u32(data, p1) {
            Some((port, p2)) => Some((TcpConnectionInfo { hostname, port }, p2)),
            None => None,
        },
        None => None,
    }
}

pub fn dec_ble(data: &Vec<u8>, pos: usize) -> (r: Option<(BluetoothLeConnectionInfo, usize)>)
    ensures
        r is Some <==> spec_dec_ble(data@, pos as int) is Some,
        r matches Some(p) ==> spec_dec_ble(data@, pos as int) == Some((p.0@, p.1 as int)),
        r matches Some(p) ==> pos < p.1 <= data.len(),
{
    match dec_string(data, pos) {
        Some((uuid, p1)) => match dec_u32(data, p1) {
            Some((psm, p2)) => Some((BluetoothLeConnectionInfo { uuid, psm }, p2)),
            None => None,
        },
        None => None,
    }
}

pub fn dec_opt_device(data: &Vec<u8>, pos: usize) -> (r: Option<(Option<Device>, usize)>)
    ensures
        r is Some <==> spec_dec_opt_device(data@, pos as int) is Some,
        r matches Some(p) ==> spec_dec_opt_device(data@, pos as int) == Some(
            (
                match p.0 {
                    Some(ref d) => Some(d@),
                    None => None,
                },
                p.1 as int,
            ),
        ),
        r matches Some(p) ==> pos < p.1 <= data.len(),
{
    if pos < data.len() {
        let tag = data[pos];
        if tag == 0u8 {
            Some((None, pos + 1))
        } else if tag == 1u8 {
            match dec_device(data, pos + 1) {
                Some((d, p)) => Some((Some(d), p)),
                None => None,
            }
        } else {
            None
        }
    } else {
        None
    }
}

pub fn dec_opt_ble(data: &Vec<u8>, pos: usize) -> (r: Option<
    (Option<BluetoothLeConnectionInfo>, usize),
>)
    ensures
        r is Some <==> spec_dec_opt_ble(data@, pos as int) is Some,
        r matches Some(p) ==> spec_dec_opt_ble(data@, pos as int) == Some(
            (
                match p.0 {
                    Some(ref b) => Some(b@),
                    None => None,
                },
                p.1 as int,
            ),
        ),
        r matches Some(p) ==> pos < p.1 <= data.len(),
{
    if pos < data.len() {
        let tag = data[pos];
        if tag == 0u8 {
            Some((None, pos + 1))
        } else if tag == 1u8 {
            match dec_ble(data, pos + 1) {
                Some((b, p)) => Some((Some(b), p)),
                None => None,
            }
        } else {
            None
        }
    } else {
        None
    }
}

pub fn dec_opt_tcp(data: &Vec<u8>, pos: usize) -> (r: Option<(Option<TcpConnectionInfo>, usize)>)
    ensures
        r is Some <==> spec_dec_opt_tcp(data@, pos as int) is Some,
        r matches Some(p) ==> spec_dec_opt_tcp(data@, pos as int) == Some(
            (
                match p.0 {
                    Some(ref t) => Some(t@),
                    None => None,
                },
                p.1 as int,
            ),
        ),
        r matches Some(p) ==> pos < p.1 <= data.len(),
{
    if pos < data.len() {
        let tag = data[pos];
        if tag == 0u8 {
            Some((None, pos + 1))
        } else if tag == 1u8 {
            match dec_tcp(data, pos + 1) {
                Some((t, p)) => Some((Some(t), p)),
                None => None,
            }
        } else {
            None
        }
    } else {
        None
    }
}

pub fn dec_conn_info(data: &Vec<u8>, pos: usize) -> (r: Option<(DeviceConnectionInfo, usize)>)
    ensures
        r is Some <==> spec_dec_conn_info(data@, pos as int) is Some,
        r matches Some(p) ==> spec_dec_conn_info(data@, pos as int) == Some((p.0@, p.1 as int)),
        r matches Some(p) ==> pos < p.1 <= data.len(),
{
    match dec_opt_device(data, pos) {
        Some((device, p1)) => match dec_opt_ble(data, p1) {
            Some((ble, p2)) => match dec_opt_tcp(data, p2) {
                Some((tcp, p3)) => Some((DeviceConnectionInfo { device, ble, tcp }, p3)),
                None => None,
            },
            None => None,
        },
        None => None,
    }
}

pub fn dec_discovery(data: &Vec<u8>, pos: usize) -> (r: Option<(DeviceDiscoveryMessage, usize)>)
    ensures
        r is Some <==> spec_dec_discovery(data@, pos as int) is Some,
        r matches Some(p) ==> spec_dec_discovery(data@, pos as int) == Some((p.0@, p.1 as int)),
        r matches Some(p) ==> pos < p.1 <= data.len(),
{
    if pos < data.len() {
        let tag = data[pos];
        if tag == 0u8 {
            Some((DeviceDiscoveryMessage { content: None }, pos + 1))
        } else if tag == 1u8 {
            match dec_conn_info(data, pos + 1) {
                Some((c, p)) => Some(
                    (
                        DeviceDiscoveryMessage {
                            content: Some(DiscoveryContent::DeviceConnectionInfo(c)),
                        },
                        p,
                    ),
                ),
                None => None,
            }
        } else if tag == 2u8 {
            match dec_string(data, pos + 1) {
                Some((s, p)) => Some(
                    (
                        DeviceDiscoveryMessage {
                            content: Some(DiscoveryContent::OfflineDeviceId(s)),
                        },
                        p,
                    ),
                ),
                None => None,
            }
        } else {
            None
        }
    } else {
        None
    }
}

/// Decodes the broadcast form of a discovery payload.
pub fn decode_discovery_message(data: &Vec<u8>) -> (r: Option<DeviceDiscoveryMessage>)
    ensures
        r is Some <==> spec_dec_discovery_ld(data@) is Some,
        r matches Some(m) ==> spec_dec_discovery_ld(data@) == Some(m@),
{
    match dec_bytes(data, 0) {
        Some((inner, _p)) => match dec_discovery(&inner, 0) {
            Some((m, q)) => if q == inner.len() {
                Some(m)
            } else {
                None
            },
            None => None,
        },
        None => None,
    }
}

// ---------------------------------------------------------------------------
// Transfer-protocol messages
// ---------------------------------------------------------------------------
/// Encoding of an optional string: a presence byte, then the string.
pub open spec fn spec_enc_opt_string(o: Option<Seq<char>>) -> Seq<u8> {
    match o {
        None => seq![0u8],
        Some(s) => seq![1u8] + spec_enc_string(s),
    }
}

/// Encoding of a file-transfer intent: optional name, size, count.
pub open spec fn spec_enc_file_intent(f: FileTransferIntentV) -> Seq<u8> {
    spec_enc_opt_string(f.file_name) + spec_enc_u64(f.file_size) + spec_enc_u64(f.file_count)
}

/// Encoding of a clipboard intent: its content.
pub open spec fn spec_enc_clipboard_intent(c: ClipboardTransferIntentV) -> Seq<u8> {
    spec_enc_string(c.clipboard_content)
}

/// Encoding of an intent: a purpose tag, then the purpose's fields.
pub open spec fn spec_enc_intent(i: IntentV) -> Seq<u8> {
    match i {
        IntentV::FileTransfer(f) => seq![1u8] + spec_enc_file_intent(f),
        IntentV::Clipboard(c) => seq![2u8] + spec_enc_clipboard_intent(c),
    }
}

/// Encoding of an optional intent.
pub open spec fn spec_enc_opt_intent(o: Option<IntentV>) -> Seq<u8> {
    match o {
        None => seq![0u8],
        Some(i) => seq![1u8] + spec_enc_intent(i),
    }
}

/// Encoding of a transfer request: optional sender, optional intent.
pub open spec fn spec_enc_transfer_request(r: TransferRequestV) -> Seq<u8> {
    spec_enc_opt_device(r.device) + spec_enc_opt_intent(r.intent)
}

/// Encoding of a transfer-request response: the acceptance flag.
pub open spec fn spec_enc_response(r: TransferRequestResponse) -> Seq<u8> {
    spec_enc_bool(r.accepted)
}

pub open spec fn file_intent_fits(f: FileTransferIntentV) -> bool {
    f.file_name matches Some(n) ==> string_fits(n)
}

pub open spec fn intent_fits(i: IntentV) -> bool {
    match i {
        IntentV::FileTransfer(f) => file_intent_fits(f),
        IntentV::Clipboard(c) => string_fits(c.clipboard_content),
    }
}

pub open spec fn transfer_request_fits(r: TransferRequestV) -> bool {
    &&& (r.device matches Some(d) ==> device_fits(d))
    &&& (r.intent matches Some(i) ==> intent_fits(i))
}

pub open spec fn spec_dec_opt_string(data: Seq<u8>, pos: int) -> Option<(Option<Seq<char>>, int)> {
    if 0 <= pos && pos + 1 <= data.len() {
        if data[pos] == 0u8 {
            Some((None, pos + 1))
        } else if data[pos] == 1u8 {
            match spec_dec_string(data, pos + 1) {
                Some((s, p)) => Some((Some(s), p)),
                None => None,
            }
        } else {
            None
        }
    } else {
        None
    }
}

pub open spec fn spec_dec_file_intent(data: Seq<u8>, pos: int) -> Option<
    (FileTransferIntentV, int),
> {
    match spec_dec_opt_string(data, pos) {
        Some((file_name, p1)) => match spec_dec_u64(data, p1) {
            Some((file_size, p2)) => match spec_dec_u64(data, p2) {
                Some((file_count, p3)) => Some(
                    (FileTransferIntentV { file_name, file_size, file_count }, p3),
                ),
                None => None,
            },
            None => None,
        },
        None => None,
    }
}

pub open spec fn spec_dec_clipboard_intent(data: Seq<u8>, pos: int) -> Option<
    (ClipboardTransferIntentV, int),
> {
    match spec_dec_string(data, pos) {
        Some((clipboard_content, p)) => Some((ClipboardTransferIntentV { clipboard_content }, p)),
        None => None,
    }
}

pub open spec fn spec_dec_intent(data: Seq<u8>, pos: int) -> Option<(IntentV, int)> {
    if 0 <= pos && pos + 1 <= data.len() {
        if data[pos] == 1u8 {
            match spec_dec_file_intent(data, pos + 1) {
                Some((f, p)) => Some((IntentV::FileTransfer(f), p)),
                None => None,
            }
        } else if data[pos] == 2u8 {
            match spec_dec_clipboard_intent(data, pos + 1) {
                Some((c, p)) => Some((IntentV::Clipboard(c), p)),
                None => None,
            }
        } else {
            None
        }
    } else {
        None
    }
}

pub open spec fn spec_dec_opt_intent(data: Seq<u8>, pos: int) -> Option<(Option<IntentV>, int)> {
    if 0 <= pos && pos + 1 <= data.len() {
        if data[pos] == 0u8 {
            Some((None, pos + 1))
        } else if data[pos] == 1u8 {
            match spec_dec_intent(data, pos + 1) {
                Some((i, p)) => Some((Some(i), p)),
                None => None,
            }
        } else {
            None
        }
    } else {
        None
    }
}

pub open spec fn spec_dec_transfer_request(data: Seq<u8>, pos: int) -> Option<
    (TransferRequestV, int),
> {
    match spec_dec_opt_device(data, pos) {
        Some((device, p1)) => match spec_dec_opt_intent(data, p1) {
            Some((intent, p2)) => Some((TransferRequestV { device, intent }, p2)),
            None => None,
        },
        None => None,
    }
}

pub open spec fn spec_dec_response(data: Seq<u8>, pos: int) -> Option<
    (TransferRequestResponse, int),
> {
    match spec_dec_bool(data, pos) {
        Some((accepted, p)) => Some((TransferRequestResponse { accepted }, p)),
        None => None,
    }
}

/// Round trip for an optional string.
pub proof fn lemma_dec_enc_opt_string(data: Seq<u8>, pos: int, o: Option<Seq<char>>)
    requires
        0 <= pos,
        o matches Some(s) ==> string_fits(s),
        pos + spec_enc_opt_string(o).len() <= data.len(),
        data.subrange(pos, pos + spec_enc_opt_string(o).len()) == spec_enc_opt_string(o),
    ensures
        spec_dec_opt_string(data, pos) == Some((o, pos + spec_enc_opt_string(o).len())),
{
    let whole = spec_enc_opt_string(o);
    assert(data[pos] == whole[0]);
    match o {
        None => {},
        Some(s) => {
            lemma_concat_split(data, pos, seq![1u8], spec_enc_string(s));
            lemma_dec_enc_string(data, pos + 1, s);
        },
    }
}

/// Round trip for a file-transfer intent.
pub proof fn lemma_dec_enc_file_intent(data: Seq<u8>, pos: int, f: FileTransferIntentV)
    requires
        0 <= pos,
        file_intent_fits(f),
        pos + spec_enc_file_intent(f).len() <= data.len(),
        data.subrange(pos, pos + spec_enc_file_intent(f).len()) == spec_enc_file_intent(f),
    ensures
        spec_dec_file_intent(data, pos) == Some((f, pos + spec_enc_file_intent(f).len())),
{
    let e1 = spec_enc_opt_string(f.file_name);
    let e2 = spec_enc_u64(f.file_size);
    let e3 = spec_enc_u64(f.file_count);
    lemma_auto_spec_u64_to_from_le_bytes();
    assert(e2.len() == 8 && e3.len() == 8);
    assert(spec_enc_file_intent(f) =~= e1 + (e2 + e3));
    lemma_concat_split(data, pos, e1, e2 + e3);
    lemma_concat_split(data, pos + e1.len(), e2, e3);
    lemma_dec_enc_opt_string(data, pos, f.file_name);
    lemma_dec_enc_u64(data, pos + e1.len(), f.file_size);
    lemma_dec_enc_u64(data, pos + e1.len() + e2.len(), f.file_count);
}

/// Round trip for an intent.
pub proof fn lemma_dec_enc_intent(data: Seq<u8>, pos: int, i: IntentV)
    requires
        0 <= pos,
        intent_fits(i),
        pos + spec_enc_intent(i).len() <= data.len(),
        data.subrange(pos, pos + spec_enc_intent(i).len()) == spec_enc_intent(i),
    ensures
        spec_dec_intent(data, pos) == Some((i, pos + spec_enc_intent(i).len())),
{
    let whole = spec_enc_intent(i);
    assert(data[pos] == whole[0]);
    match i {
        IntentV::FileTransfer(f) => {
            lemma_concat_split(data, pos, seq![1u8], spec_enc_file_intent(f));
            lemma_dec_enc_file_intent(data, pos + 1, f);
        },
        IntentV::Clipboard(c) => {
            lemma_concat_split(data, pos, seq![2u8], spec_enc_clipboard_intent(c));
            lemma_dec_enc_string(data, pos + 1, c.clipboard_content);
        },
    }
}

/// Round trip for an optional intent.
pub proof fn lemma_dec_enc_opt_intent(data: Seq<u8>, pos: int, o: Option<IntentV>)
    requires
        0 <= pos,
        o matches Some(i) ==> intent_fits(i),
        pos + spec_enc_opt_intent(o).len() <= data.len(),
        data.subrange(pos, pos + spec_enc_opt_intent(o).len()) == spec_enc_opt_intent(o),
    ensures
        spec_dec_opt_intent(data, pos) == Some((o, pos + spec_enc_opt_intent(o).len())),
{
    let whole = spec_enc_opt_intent(o);
    assert(data[pos] == whole[0]);
    match o {
        None => {},
        Some(i) => {
            lemma_concat_split(data, pos, seq![1u8], spec_enc_intent(i));
            lemma_dec_enc_intent(data, pos + 1, i);
        },
    }
}

/// Wherever an encoded transfer request sits in a byte stream, decoding
/// there yields it.
pub proof fn lemma_dec_enc_transfer_request(data: Seq<u8>, pos: int, r: TransferRequestV)
    requires
        0 <= pos,
        transfer_request_fits(r),
        pos + spec_enc_transfer_request(r).len() <= data.len(),
        data.subrange(pos, pos + spec_enc_transfer_request(r).len()) == spec_enc_transfer_request(
            r,
        ),
    ensures
        spec_dec_transfer_request(data, pos) == Some(
            (r, pos + spec_enc_transfer_request(r).len()),
        ),
{
    let e1 = spec_enc_opt_device(r.device);
    let e2 = spec_enc_opt_intent(r.intent);
    lemma_concat_split(data, pos, e1, e2);
    lemma_dec_enc_opt_device(data, pos, r.device);
    lemma_dec_enc_opt_intent(data, pos + e1.len(), r.intent);
}

/// Wherever an encoded response sits in a byte stream, decoding there
/// yields it.
pub proof fn lemma_dec_enc_response(data: Seq<u8>, pos: int, r: TransferRequestResponse)
    requires
        0 <= pos,
        pos + 1 <= data.len(),
        data.subrange(pos, pos + 1) == spec_enc_response(r),
    ensures
        spec_dec_response(data, pos) == Some((r, pos + 1)),
{
    lemma_dec_enc_bool(data, pos, r.accepted);
}

// Executable encoders for the transfer protocol.
pub fn enc_opt_string(out: &mut Vec<u8>, o: &Option<String>)
    ensures
        final(out)@ == old(out)@ + spec_enc_opt_string(
            match o {
                Some(s) => Some(s@),
                None => None,
            },
        ),
{
    match o {
        None => {
            out.push(0u8);
            assert(out@ =~= old(out)@ + seq![0u8]);
        },
        Some(s) => {
            out.push(1u8);
            enc_string(out, s);
            assert(out@ =~= old(out)@ + (seq![1u8] + spec_enc_string(s@)));
        },
    }
}

pub fn enc_file_intent(out: &mut Vec<u8>, f: &FileTransferIntent)
    ensures
        final(out)@ == old(out)@ + spec_enc_file_intent(f@),
{
    enc_opt_string(out, &f.file_name);
    enc_u64(out, f.file_size);
    enc_u64(out, f.file_count);
    assert(out@ =~= old(out)@ + spec_enc_file_intent(f@));
}

pub fn enc_intent(out: &mut Vec<u8>, i: &Intent)
    ensures
        final(out)@ == old(out)@ + spec_enc_intent(i@),
{
    match i {
        Intent::FileTransfer(f) => {
            out.push(1u8);
            enc_file_intent(out, f);
            assert(out@ =~= old(out)@ + (seq![1u8] + spec_enc_file_intent(f@)));
        },
        Intent::Clipboard(c) => {
            out.push(2u8);
            enc_string(out, &c.clipboard_content);
            assert(out@ =~= old(out)@ + (seq![2u8] + spec_enc_clipboard_intent(c@)));
        },
    }
}

pub fn enc_opt_intent(out: &mut Vec<u8>, o: &Option<Intent>)
    ensures
        final(out)@ == old(out)@ + spec_enc_opt_intent(
            match o {
                Some(i) => Some(i@),
                None => None,
            },
        ),
{
    match o {
        None => {
            out.push(0u8);
            assert(out@ =~= old(out)@ + seq![0u8]);
        },
        Some(i) => {
            out.push(1u8);
            enc_intent(out, i);
            assert(out@ =~= old(out)@ + (seq![1u8] + spec_enc_intent(i@)));
        },
    }
}

/// Encodes a transfer request as framed on the wire.
pub fn encode_transfer_request(r: &TransferRequest) -> (out: Vec<u8>)
    ensures
        out@ == spec_enc_transfer_request(r@),
{
    let mut out: Vec<u8> = Vec::new();
    enc_opt_device(&mut out, &r.device);
    enc_opt_intent(&mut out, &r.intent);
    assert(out@ =~= spec_enc_transfer_request(r@));
    out
}

/// Encodes a response as framed on the wire.
pub fn encode_response(r: &TransferRequestResponse) -> (out: Vec<u8>)
    ensures
        out@ == spec_enc_response(*r),
{
    let mut out: Vec<u8> = Vec::new();
    enc_bool(&mut out, r.accepted);
    assert(out@ =~= spec_enc_response(*r));
    out
}

// Executable decoders for the transfer protocol.
pub fn dec_opt_string(data: &Vec<u8>, pos: usize) -> (r: Option<(Option<String>, usize)>)
    ensures
        r is Some <==> spec_dec_opt_string(data@, pos as int) is Some,
        r matches Some(p) ==> spec_dec_opt_string(data@, pos as int) == Some(
            (
                match p.0 {
                    Some(ref s) => Some(s@),
                    None => None,
                },
                p.1 as int,
            ),
        ),
        r matches Some(p) ==> pos < p.1 <= data.len(),
{
    if pos < data.len() {
        let tag = data[pos];
        if tag == 0u8 {
            Some((None, pos + 1))
        } else if tag == 1u8 {
            match dec_string(data, pos + 1) {
                Some((s, p)) => Some((Some(s), p)),
                None => None,
            }
        } else {
            None
        }
    } else {
        None
    }
}

pub fn dec_file_intent(data: &Vec<u8>, pos: usize) -> (r: Option<(FileTransferIntent, usize)>)
    ensures
        r is Some <==> spec_dec_file_intent(data@, pos as int) is Some,
        r matches Some(p) ==> spec_dec_file_intent(data@, pos as int) == Some((p.0@, p.1 as int)),
        r matches Some(p) ==> pos < p.1 <= data.len(),
{
    match dec_opt_string(data, pos) {
        Some((file_name, p1)) => match dec_u64(data, p1) {
            Some((file_size, p2)) => match dec_u64(data, p2) {
                Some((file_count, p3)) => Some(
                    (FileTransferIntent { file_name, file_size, file_count }, p3),
                ),
                None => None,
            },
            None => None,
        },
        None => None,
    }
}

pub fn dec_intent(data: &Vec<u8>, pos: usize) -> (r: Option<(Intent, usize)>)
    ensures
        r is Some <==> spec_dec_intent(data@, pos as int) is Some,
        r matches Some(p) ==> spec_dec_intent(data@, pos as int) == Some((p.0@, p.1 as int)),
        r matches Some(p) ==> pos < p.1 <= data.len(),
{
    if pos < data.len() {
        let tag = data[pos];
        if tag == 1u8 {
            match dec_file_intent(data, pos + 1) {
                Some((f, p)) => Some((Intent::FileTransfer(f), p)),
                None => None,
            }
        } else if tag == 2u8 {
            match dec_string(data, pos + 1) {
                Some((clipboard_content, p)) => Some(
                    (Intent::Clipboard(ClipboardTransferIntent { clipboard_content }), p),
                ),
                None => None,
            }
        } else {
            None
        }
    } else {
        None
    }
}

pub fn dec_opt_intent(data: &Vec<u8>, pos: usize) -> (r: Option<(Option<Intent>, usize)>)
    ensures
        r is Some <==> spec_dec_opt_intent(data@, pos as int) is Some,
        r matches Some(p) ==> spec_dec_opt_intent(data@, pos as int) == Some(
            (
                match p.0 {
                    Some(ref i) => Some(i@),
                    None => None,
                },
                p.1 as int,
            ),
        ),
        r matches Some(p) ==> pos < p.1 <= data.len(),
{
    if pos < data.len() {
        let tag = data[pos];
        if tag == 0u8 {
            Some((None, pos + 1))
        } else if tag == 1u8 {
            match dec_intent(data, pos + 1) {
                Some((i, p)) => Some((Some(i), p)),
                None => None,
            }
        } else {
            None
        }
    } else {
        None
    }
}

/// Decodes a framed transfer request; the frame must be filled exactly.
pub fn decode_transfer_request(data: &Vec<u8>) -> (r: Option<TransferRequest>)
    ensures
        r is Some <==> (spec_dec_transfer_request(data@, 0) matches Some((m, p)) && p
            == data@.len()),
        r matches Some(m) ==> spec_dec_transfer_request(data@, 0) == Some(
            (m@, data@.len() as int),
        ),
{
    match dec_opt_device(data, 0) {
        Some((device, p1)) => match dec_opt_intent(data, p1) {
            Some((intent, p2)) => if p2 == data.len() {
                Some(TransferRequest { device, intent })
            } else {
                None
            },
            None => None,
        },
        None => None,
    }
}

/// Decodes a framed response; the frame must be filled exactly.
pub fn decode_response(data: &Vec<u8>) -> (r: Option<TransferRequestResponse>)
    ensures
        r is Some <==> (spec_dec_response(data@, 0) matches Some((m, p)) && p == data@.len()),
        r matches Some(m) ==> spec_dec_response(data@, 0) == Some((m, data@.len() as int)),
{
    match dec_bool(data, 0) {
        Some((accepted, p)) => if p == data.len() {
            Some(TransferRequestResponse { accepted })
        } else {
            None
        },
        None => None,
    }
}

} // verus!
