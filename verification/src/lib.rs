//! Peer-to-peer proximity sharing engine: transport arbitration, connection
//! negotiation and transfer execution, with verified wire codecs and a
//! verified file bundler.
//!
//! Platform transports (TCP sockets, BLE L2CAP channels), the cryptographic
//! channel layer and all disk access are supplied by the embedding
//! application through the capability traits of this crate; everything the
//! engine decides about negotiation ordering, progress reporting,
//! cancellation and archive structure is stated in contracts and proved.

pub mod bundler;
pub mod codec;
pub mod connection_request;
pub mod nearby;
pub mod device;
pub mod discovery;
pub mod errors;
pub mod framing;
pub mod messages;

use vstd::prelude::*;

verus! {

/// Size of the buffer used when draining a channel: the least chunk a BLE
/// L2CAP leg is expected to carry, also used as the streaming chunk size.
pub const BLE_BUFFER_SIZE: usize = 1024;

/// Identifier of the GATT service that carries the discovery payload.
pub fn get_ble_service_uuid() -> (r: String)
    ensures
        r@ == "0fd264a7-9f49-4a14-9c4c-c9c36f834e05"@,
{
    String::from_str("0fd264a7-9f49-4a14-9c4c-c9c36f834e05")
}

/// Identifier of the GATT characteristic read to obtain the discovery payload.
pub fn get_ble_characteristic_uuid() -> (r: String)
    ensures
        r@ == "6a09b5cd-8e27-458f-8dcc-b5f31a63fecb"@,
{
    String::from_str("6a09b5cd-8e27-458f-8dcc-b5f31a63fecb")
}

} // verus!
