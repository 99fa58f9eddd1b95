//! The nearby server: advertising lifecycle, outbound transport selection,
//! pending BLE-channel bookkeeping, inbound request admission, and the
//! sending half of a transfer.
//!
//! Opening sockets, the platform's BLE plumbing and the cryptographic layer
//! are capabilities the embedding application supplies; everything the
//! server decides — which transport to try, what to frame, in what order,
//! and what progress to report — is stated in contracts.

use vstd::prelude::*;
use vstd::pervasive::unreached;
use crate::device::{
    Device, DeviceV, DeviceConnectionInfo, TcpConnectionInfo,
    BluetoothLeConnectionInfo,
};
use crate::messages::{
    DeviceDiscoveryMessage, DeviceDiscoveryMessageV, DiscoveryContent, DiscoveryContentV,
    TransferRequest, TransferRequestV, TransferRequestResponse, Intent, IntentV,
    FileTransferIntent, FileTransferIntentV,
};
use crate::codec::{
    encode_discovery_message, spec_enc_discovery_ld, encode_transfer_request,
    spec_enc_transfer_request, decode_transfer_request, decode_response, spec_dec_response,
};
use crate::framing::{
    MessageFramer, SecureChannel, WireOp, sent_payload_bytes,
};
use crate::connection_request::{ConnectionRequest, ReceiveProgressDelegate, TransferProgress};
use crate::bundler::{FsNode, pack, spec_nodes_entries, spec_enc_archive};
use crate::errors::ConnectErrors;

verus! {

/// The declared purpose of an inbound connection, as shown to the
/// application.
pub enum ConnectionIntentType {
    FileTransfer,
    Clipboard,
}

/// Which transport carries an outbound transfer.
#[derive(Clone, Copy, Debug, PartialEq, Eq, Structural)]
pub enum ConnectionMedium {
    BLE,
    WiFi,
}

/// The sender-side progress states.
#[derive(Clone, Copy, Debug, PartialEq, Eq, Structural)]
pub enum SendProgressState {
    Unknown,
    Connecting,
    Requesting,
    ConnectionMediumUpdate { medium: ConnectionMedium },
    Compressing,
    Transferring { progress: TransferProgress },
    Cancelled,
    Finished,
    Declined,
}

/// The platform capability that advertises this device over BLE.
pub trait BleServerImplementationDelegate {
    fn start_server(&mut self);

    fn stop_server(&mut self);
}

/// The platform capability that opens an outbound L2CAP channel; it later
/// delivers the connected channel under the same identifier through
/// `handle_incoming_ble_connection`, at most once per identifier.
pub trait L2CapDelegate {
    fn open_l2cap_connection(&mut self, connection_id: String, peripheral_uuid: String, psm: u32);
}

/// The application's observer of an outbound transfer.
pub trait SendProgressDelegate {
    fn progress_changed(&mut self, progress: SendProgressState);
}

/// The application's sink for inbound connection requests.
pub trait NearbyConnectionDelegate {
    /// The channel type inbound connections arrive on.
    type Channel: SecureChannel;

    /// The progress observer type the application registers on requests.
    type Progress: ReceiveProgressDelegate;

    /// Invoked once per admitted inbound request.
    fn received_connection_request(
        &mut self,
        request: ConnectionRequest<Self::Channel, Self::Progress>,
    );
}

/// The sending side's progress reporting: the optional observer, and the
/// record of everything reported so far, oldest first.
pub struct SendProgress<S: SendProgressDelegate> {
    pub delegate: Option<S>,
    pub events: Vec<SendProgressState>,
}

impl<S: SendProgressDelegate> SendProgress<S> {
    /// Starts an empty report log over an optional observer.
    pub fn new(delegate: Option<S>) -> (r: Self)
        ensures
            r.events@ == Seq::<SendProgressState>::empty(),
    {
        SendProgress { delegate, events: Vec::new() }
    }

    /// Reports a state change to the observer and records it.
    pub fn update_progress(&mut self, state: SendProgressState)
        ensures
            final(self).events@ == old(self).events@.push(state),
    {
        match &mut self.delegate {
            Some(d) => d.progress_changed(state),
            None => {},
        }
        self.events.push(state);
    }
}

/// The bytes counter a Transferring report carries; zero for other states.
pub open spec fn send_progress_bytes(e: SendProgressState) -> u64 {
    match e {
        SendProgressState::Transferring { progress } => progress.transferred,
        _ => 0,
    }
}

/// A run of Transferring reports: every element reports the announced
/// total, stays within it, and the counters never decrease.
pub open spec fn transferring_run_ok(run: Seq<SendProgressState>, total: u64) -> bool {
    &&& (forall|i: int|
        0 <= i < run.len() ==> ((#[trigger] run[i]) matches SendProgressState::Transferring {
            progress,
        } && progress.total == total && progress.transferred <= total))
    &&& (forall|i: int, j: int|
        0 <= i <= j < run.len() ==> send_progress_bytes(run[i]) <= send_progress_bytes(run[j]))
}

/// The event shape of one accepted send: Compressing, Requesting, then a
/// non-decreasing Transferring run starting at zero, then Finished exactly
/// when every payload byte was taken, else Cancelled.
pub open spec fn send_events_ok(pvs: Seq<SendProgressState>, total: u64, complete: bool) -> bool {
    &&& pvs.len() >= 4
    &&& pvs[0] is Compressing
    &&& pvs[1] is Requesting
    &&& transferring_run_ok(pvs.subrange(2, pvs.len() - 1), total)
    &&& send_progress_bytes(pvs[2]) == 0
    &&& (complete <==> pvs.last() is Finished)
    &&& (!complete ==> pvs.last() is Cancelled)
    &&& (complete ==> send_progress_bytes(pvs[pvs.len() - 2]) == total)
}

/// One single-use completion slot for an asynchronously delivered BLE
/// channel, registered under a generated identifier.
pub struct PendingConnection<C: SecureChannel> {
    pub id: String,
    pub channel: Option<C>,
}

/// No two slots share an identifier.
pub open spec fn pending_ids_unique<C: SecureChannel>(s: Seq<PendingConnection<C>>) -> bool {
    forall|i: int, j: int| 0 <= i < j < s.len() ==> s[i].id@ != s[j].id@
}

/// The next decision of an outbound connection attempt.
pub enum ConnectStep {
    /// Give up with this error.
    Fail { error: ConnectErrors },
    /// Dial this TCP endpoint and run the handshake over it.
    TryTcp { hostname: String, port: u32 },
    /// Ask the platform for an L2CAP channel to this peripheral.
    TryBle { uuid: String, psm: u32 },
}

/// The server's shared state: reachability info, advertising flag, storage
/// root, registered capabilities, and the pending BLE-request table. The
/// embedding application guards it with its own lock.
pub struct NearbyServerLockedVariables<
    B: BleServerImplementationDelegate,
    L: L2CapDelegate,
    N: NearbyConnectionDelegate,
> {
    /// "How to reach me now"; republished on each discovery-payload encode.
    pub device_connection_info: DeviceConnectionInfo,
    /// Whether a TCP listener is up; its endpoint then stands in the info.
    pub has_tcp_server: bool,
    pub ble_server_implementation: Option<B>,
    pub ble_l2_cap_client: Option<L>,
    pub nearby_connection_delegate: Option<N>,
    /// Whether this device currently advertises itself.
    pub advertise: bool,
    /// The root under which received files land.
    pub file_storage: String,
    /// Single-use completion slots for requested BLE channels.
    pub l2cap_connections: Vec<PendingConnection<N::Channel>>,
    /// Every admitted inbound request, oldest first.
    pub delivered_requests: Ghost<Seq<TransferRequestV>>,
}

/// Orchestrator of advertising, transport selection and transfers.
pub struct NearbyServer<
    B: BleServerImplementationDelegate,
    L: L2CapDelegate,
    N: NearbyConnectionDelegate,
> {
    pub variables: NearbyServerLockedVariables<B, L, N>,
}

/// Relies on `uuid::Uuid::new_v4` and its hyphenated rendering: a freshly
/// drawn 36-character connection identifier. Nothing else is promised of
/// a random value.
#[verifier::external_body]
fn new_connection_id() -> (r: String)
    ensures
        r@.len() == 36,
{
    uuid::Uuid::new_v4().to_string()
}

/// Relies on `local_ip_address::local_ip`: the machine's current local IP
/// address, if one can be determined. The outcome depends on the machine,
/// so nothing is promised of it.
#[verifier::external_body]
fn query_local_ip() -> (r: Option<String>) {
    match local_ip_address::local_ip() {
        Ok(ip) => Some(ip.to_string()),
        Err(_) => None,
    }
}

impl<
    B: BleServerImplementationDelegate,
    L: L2CapDelegate,
    N: NearbyConnectionDelegate,
> NearbyServer<B, L, N> {
    /// The server's standing invariant: the reachability info always names
    /// this device; a running listener has its endpoint published; while
    /// advertising, at least one transport leg is populated; and pending
    /// slots have distinct identifiers.
    pub open spec fn wf(&self) -> bool {
        &&& self.variables.device_connection_info.wf()
        &&& (self.variables.has_tcp_server ==> self.variables.device_connection_info.tcp is Some)
        &&& (self.variables.advertise ==> (self.variables.device_connection_info.tcp is Some
            || self.variables.device_connection_info.ble is Some))
        &&& pending_ids_unique(self.variables.l2cap_connections@)
    }

    /// A fresh, not yet started server for this device.
    pub fn new(my_device: Device, file_storage: String, delegate: Option<N>) -> (r: Self)
        ensures
            r.wf(),
            r.variables.device_connection_info.device == Some(my_device),
            r.variables.device_connection_info.ble is None,
            r.variables.device_connection_info.tcp is None,
            !r.variables.advertise,
            !r.variables.has_tcp_server,
            r.variables.file_storage == file_storage,
            r.variables.nearby_connection_delegate is Some <==> delegate is Some,
            r.variables.ble_server_implementation is None,
            r.variables.ble_l2_cap_client is None,
            r.variables.l2cap_connections@ == Seq::<PendingConnection<N::Channel>>::empty(),
            r.variables.delivered_requests@ == Seq::<TransferRequestV>::empty(),
    {
        NearbyServer {
            variables: NearbyServerLockedVariables {
                device_connection_info: DeviceConnectionInfo {
                    device: Some(my_device),
                    ble: None,
                    tcp: None,
                },
                has_tcp_server: false,
                ble_server_implementation: None,
                ble_l2_cap_client: None,
                nearby_connection_delegate: delegate,
                advertise: false,
                file_storage,
                l2cap_connections: Vec::new(),
                delivered_requests: Ghost(Seq::empty()),
            },
        }
    }

    /// Registers the platform capability that opens BLE channels.
    pub fn add_l2_cap_client(&mut self, delegate: L)
        ensures
            final(self).variables.ble_l2_cap_client is Some,
            final(self).variables.device_connection_info == old(
                self,
            ).variables.device_connection_info,
            final(self).variables.advertise == old(self).variables.advertise,
            final(self).variables.has_tcp_server == old(self).variables.has_tcp_server,
            final(self).variables.file_storage == old(self).variables.file_storage,
            final(self).variables.l2cap_connections == old(self).variables.l2cap_connections,
            final(self).wf() == old(self).wf(),
    {
        self.variables.ble_l2_cap_client = Some(delegate);
    }

    /// Registers the platform capability that advertises over BLE.
    pub fn add_bluetooth_implementation(&mut self, implementation: B)
        ensures
            final(self).variables.ble_server_implementation is Some,
            final(self).variables.device_connection_info == old(
                self,
            ).variables.device_connection_info,
            final(self).variables.advertise == old(self).variables.advertise,
            final(self).variables.has_tcp_server == old(self).variables.has_tcp_server,
            final(self).variables.file_storage == old(self).variables.file_storage,
            final(self).variables.l2cap_connections == old(self).variables.l2cap_connections,
            final(self).wf() == old(self).wf(),
    {
        self.variables.ble_server_implementation = Some(implementation);
    }

    /// Replaces the published device identity; only future discovery
    /// payloads see it.
    pub fn change_device(&mut self, new_device: Device)
        ensures
            final(self).variables.device_connection_info.device == Some(new_device),
            final(self).variables.device_connection_info.ble == old(
                self,
            ).variables.device_connection_info.ble,
            final(self).variables.device_connection_info.tcp == old(
                self,
            ).variables.device_connection_info.tcp,
            final(self).variables.advertise == old(self).variables.advertise,
            final(self).variables.has_tcp_server == old(self).variables.has_tcp_server,
            final(self).variables.file_storage == old(self).variables.file_storage,
            final(self).variables.l2cap_connections == old(self).variables.l2cap_connections,
            old(self).wf() ==> final(self).wf(),
    {
        self.variables.device_connection_info.device = Some(new_device);
    }

    /// Publishes this device's BLE leg; only future discovery payloads see
    /// it.
    pub fn set_bluetooth_le_details(&mut self, ble_info: BluetoothLeConnectionInfo)
        ensures
            final(self).variables.device_connection_info.ble == Some(ble_info),
            final(self).variables.device_connection_info.device == old(
                self,
            ).variables.device_connection_info.device,
            final(self).variables.device_connection_info.tcp == old(
                self,
            ).variables.device_connection_info.tcp,
            final(self).variables.advertise == old(self).variables.advertise,
            final(self).variables.has_tcp_server == old(self).variables.has_tcp_server,
            final(self).variables.file_storage == old(self).variables.file_storage,
            final(self).variables.l2cap_connections == old(self).variables.l2cap_connections,
            old(self).wf() ==> final(self).wf(),
    {
        self.variables.device_connection_info.ble = Some(ble_info);
    }

    /// Publishes this device's TCP leg; only future discovery payloads see
    /// it.
    pub fn set_tcp_details(&mut self, tcp_info: TcpConnectionInfo)
        ensures
            final(self).variables.device_connection_info.tcp == Some(tcp_info),
            final(self).variables.device_connection_info.device == old(
                self,
            ).variables.device_connection_info.device,
            final(self).variables.device_connection_info.ble == old(
                self,
            ).variables.device_connection_info.ble,
            final(self).variables.advertise == old(self).variables.advertise,
            final(self).variables.has_tcp_server == old(self).variables.has_tcp_server,
            final(self).variables.file_storage == old(self).variables.file_storage,
            final(self).variables.l2cap_connections == old(self).variables.l2cap_connections,
            old(self).wf() ==> final(self).wf(),
    {
        self.variables.device_connection_info.tcp = Some(tcp_info);
    }

    /// This machine's current local IP address, if one can be determined.
    pub fn get_current_ip(&self) -> Option<String> {
        query_local_ip()
    }

    /// Brings the server up with the outcome of the application's bind
    /// attempt: with a delegate and a bound listener the endpoint is
    /// published and advertising starts; a failed bind leaves advertising
    /// off; without a delegate nothing starts. Safe to repeat: an already
    /// running listener only turns advertising back on.
    pub fn start(&mut self, tcp_binding: Option<TcpConnectionInfo>)
        requires
            old(self).wf(),
        ensures
            final(self).wf(),
            final(self).variables.advertise == (old(self).variables.advertise || old(
                self,
            ).variables.has_tcp_server || (old(self).variables.nearby_connection_delegate is Some
                && tcp_binding is Some)),
            final(self).variables.has_tcp_server == (old(self).variables.has_tcp_server || (old(
                self,
            ).variables.nearby_connection_delegate is Some && tcp_binding is Some)),
            final(self).variables.device_connection_info.tcp == (if !old(
                self,
            ).variables.has_tcp_server && old(self).variables.nearby_connection_delegate is Some
                && tcp_binding is Some {
                tcp_binding
            } else {
                old(self).variables.device_connection_info.tcp
            }),
            final(self).variables.device_connection_info.device == old(
                self,
            ).variables.device_connection_info.device,
            final(self).variables.device_connection_info.ble == old(
                self,
            ).variables.device_connection_info.ble,
            final(self).variables.file_storage == old(self).variables.file_storage,
            final(self).variables.l2cap_connections == old(self).variables.l2cap_connections,
            final(self).variables.delivered_requests == old(self).variables.delivered_requests,
    {
        if !self.variables.has_tcp_server {
            let has_delegate = match &self.variables.nearby_connection_delegate {
                Some(_) => true,
                None => false,
            };
            if !has_delegate {
                return ;
            }
            match tcp_binding {
                Some(info) => {
                    self.variables.device_connection_info.tcp = Some(info);
                    self.variables.has_tcp_server = true;
                },
                None => {
                    // The bind failed: leave advertising off.
                    return ;
                },
            }
        }
        self.variables.advertise = true;
        match &mut self.variables.ble_server_implementation {
            Some(b) => b.start_server(),
            None => {},
        }
    }

    /// Turns advertising off and drops the listener; published reachability
    /// info is kept for the next start. Safe to call unstarted.
    pub fn stop(&mut self)
        ensures
            !final(self).variables.advertise,
            !final(self).variables.has_tcp_server,
            final(self).variables.device_connection_info == old(
                self,
            ).variables.device_connection_info,
            final(self).variables.file_storage == old(self).variables.file_storage,
            final(self).variables.l2cap_connections == old(self).variables.l2cap_connections,
            final(self).variables.delivered_requests == old(self).variables.delivered_requests,
            final(self).variables.nearby_connection_delegate is Some <==> old(
                self,
            ).variables.nearby_connection_delegate is Some,
            old(self).wf() ==> final(self).wf(),
    {
        self.variables.advertise = false;
        self.variables.has_tcp_server = false;
        match &mut self.variables.ble_server_implementation {
            Some(b) => b.stop_server(),
            None => {},
        }
    }

    /// `stop`, then `start` with a fresh bind outcome. Not atomic against
    /// concurrent connection attempts.
    pub fn restart_server(&mut self, tcp_binding: Option<TcpConnectionInfo>)
        requires
            old(self).wf(),
        ensures
            final(self).wf(),
            final(self).variables.advertise == (old(
                self,
            ).variables.nearby_connection_delegate is Some && tcp_binding is Some),
            final(self).variables.has_tcp_server == (old(
                self,
            ).variables.nearby_connection_delegate is Some && tcp_binding is Some),
            final(self).variables.device_connection_info.tcp == (if old(
                self,
            ).variables.nearby_connection_delegate is Some && tcp_binding is Some {
                tcp_binding
            } else {
                old(self).variables.device_connection_info.tcp
            }),
            final(self).variables.device_connection_info.device == old(
                self,
            ).variables.device_connection_info.device,
            final(self).variables.device_connection_info.ble == old(
                self,
            ).variables.device_connection_info.ble,
            final(self).variables.file_storage == old(self).variables.file_storage,
            final(self).variables.l2cap_connections == old(self).variables.l2cap_connections,
    {
        self.stop();
        self.start(tcp_binding);
    }

    /// The discovery payload to broadcast right now: the device's current
    /// reachability while advertising, and nothing while not.
    pub fn get_advertisement_data(&self) -> (r: Vec<u8>)
        ensures
            self.variables.advertise ==> r@ == spec_enc_discovery_ld(
                DeviceDiscoveryMessageV {
                    content: Some(
                        DiscoveryContentV::DeviceConnectionInfo(
                            self.variables.device_connection_info@,
                        ),
                    ),
                },
            ),
            !self.variables.advertise ==> r@ == Seq::<u8>::empty(),
    {
        if self.variables.advertise {
            let message = DeviceDiscoveryMessage {
                content: Some(
                    DiscoveryContent::DeviceConnectionInfo(
                        self.variables.device_connection_info.duplicate(),
                    ),
                ),
            };
            encode_discovery_message(&message)
        } else {
            Vec::new()
        }
    }

    /// The first step of an outbound connection attempt: unresolvable
    /// receivers fail at once; a published TCP leg is dialed first; only
    /// a receiver without one goes straight to BLE.
    pub fn plan_connect_start(connection_details: &Option<DeviceConnectionInfo>) -> (step:
        ConnectStep)
        ensures
            connection_details is None ==> (step matches ConnectStep::Fail { error } && error
                is FailedToGetConnectionDetails),
            connection_details matches Some(d) ==> {
                &&& (d.tcp matches Some(t) ==> (step matches ConnectStep::TryTcp { hostname, port }
                    && hostname@ == t.hostname@ && port == t.port))
                &&& (d.tcp is None ==> (d.ble matches Some(b) ==> (step
                    matches ConnectStep::TryBle { uuid, psm } && uuid@ == b.uuid@ && psm
                    == b.psm)))
                &&& (d.tcp is None && d.ble is None ==> (step matches ConnectStep::Fail { error }
                    && error is FailedToGetBleDetails))
            },
    {
        match connection_details {
            None => ConnectStep::Fail { error: ConnectErrors::FailedToGetConnectionDetails },
            Some(d) => match &d.tcp {
                Some(t) => ConnectStep::TryTcp { hostname: t.hostname.clone(), port: t.port },
                None => match &d.ble {
                    Some(b) => ConnectStep::TryBle { uuid: b.uuid.clone(), psm: b.psm },
                    None => ConnectStep::Fail { error: ConnectErrors::FailedToGetBleDetails },
                },
            },
        }
    }

    /// The fallback step after a failed TCP attempt: BLE, if the receiver
    /// published a BLE leg and a platform capability for opening channels
    /// is registered.
    pub fn plan_connect_after_tcp_failure(&self, connection_details: &DeviceConnectionInfo) -> (step:
        ConnectStep)
        ensures
            connection_details.ble is None ==> (step matches ConnectStep::Fail { error } && error
                is FailedToGetBleDetails),
            (connection_details.ble is Some && self.variables.ble_l2_cap_client is None) ==> (step
                matches ConnectStep::Fail { error } && error is InternalBleHandlerNotAvailable),
            connection_details.ble matches Some(b) ==> (self.variables.ble_l2_cap_client is Some
                ==> (step matches ConnectStep::TryBle { uuid, psm } && uuid@ == b.uuid@ && psm
                == b.psm)),
    {
        match &connection_details.ble {
            None => ConnectStep::Fail { error: ConnectErrors::FailedToGetBleDetails },
            Some(b) => match &self.variables.ble_l2_cap_client {
                None => ConnectStep::Fail { error: ConnectErrors::InternalBleHandlerNotAvailable },
                Some(_) => ConnectStep::TryBle { uuid: b.uuid.clone(), psm: b.psm },
            },
        }
    }

    /// Registers a single-use completion slot under a fresh identifier and
    /// asks the platform to open an L2CAP channel for it. Every slot under
    /// a different identifier is kept. Without the platform capability
    /// nothing is registered.
    #[verifier::loop_isolation(false)]
    pub fn request_ble_connection(&mut self, ble_details: &BluetoothLeConnectionInfo) -> (r: Option<
        String,
    >)
        requires
            old(self).wf(),
        ensures
            final(self).wf(),
            r is Some <==> old(self).variables.ble_l2_cap_client is Some,
            r is None ==> final(self).variables.l2cap_connections == old(
                self,
            ).variables.l2cap_connections,
            r matches Some(id) ==> ({
                let p = final(self).variables.l2cap_connections@;
                let q = old(self).variables.l2cap_connections@;
                &&& p.len() >= 1
                &&& p.last().id@ == id@
                &&& p.last().channel is None
                &&& (forall|j: int|
                    0 <= j < q.len() && q[j].id@ != id@ ==> exists|i: int|
                        0 <= i < p.len() - 1 && p[i] == #[trigger] q[j])
            }),
            final(self).variables.device_connection_info == old(
                self,
            ).variables.device_connection_info,
            final(self).variables.advertise == old(self).variables.advertise,
            final(self).variables.has_tcp_server == old(self).variables.has_tcp_server,
            final(self).variables.file_storage == old(self).variables.file_storage,
            final(self).variables.delivered_requests == old(self).variables.delivered_requests,
    {
        let has_client = match &self.variables.ble_l2_cap_client {
            Some(_) => true,
            None => false,
        };
        if !has_client {
            return None;
        }
        let id = new_connection_id();
        // Drop any stale slot under the same identifier, so that the slot
        // stays single-use even if the platform never answered an earlier
        // request that drew the same identifier.
        let ghost q = self.variables.l2cap_connections@;
        let mut i: usize = 0;
        let mut found: bool = false;
        while i < self.variables.l2cap_connections.len() && !found
            invariant
                i <= self.variables.l2cap_connections.len(),
                self.variables.l2cap_connections@ == q,
                forall|k: int| 0 <= k < i ==> (#[trigger] q[k].id@) != id@,
                found ==> (i < q.len() && q[i as int].id@ == id@),
            decreases self.variables.l2cap_connections.len() - i + (if found {
                0int
            } else {
                1int
            }),
        {
            if self.variables.l2cap_connections[i].id == id {
                found = true;
            } else {
                i = i + 1;
            }
        }
        if found {
            let _stale = self.variables.l2cap_connections.remove(i);
        }
        let ghost q2 = self.variables.l2cap_connections@;
        proof {
            if found {
                q.remove_ensures(i as int);
                assert(q2 == q.remove(i as int));
            }
            assert forall|k1: int, k2: int| 0 <= k1 < k2 < q2.len() implies q2[k1].id@
                != q2[k2].id@ by {
                if found {
                    let m1: int = if k1 < i { k1 } else { k1 + 1 };
                    let m2: int = if k2 < i { k2 } else { k2 + 1 };
                    assert(q2[k1] == q[m1]);
                    assert(q2[k2] == q[m2]);
                }
            }
            assert forall|k: int| 0 <= k < q2.len() implies (#[trigger] q2[k].id@) != id@ by {
                if found {
                    let m: int = if k < i { k } else { k + 1 };
                    assert(q2[k] == q[m]);
                    if m == i {
                        assert(false);
                    }
                } else {
                }
            }
        }
        self.variables.l2cap_connections.push(
            PendingConnection { id: id.clone(), channel: None },
        );
        match &mut self.variables.ble_l2_cap_client {
            Some(client) => {
                client.open_l2cap_connection(id.clone(), ble_details.uuid.clone(), ble_details.psm);
            },
            None => unreached(),
        }
        proof {
            let p = self.variables.l2cap_connections@;
            assert forall|j: int|
                0 <= j < q.len() && q[j].id@ != id@ implies exists|k: int|
                    0 <= k < p.len() - 1 && p[k] == #[trigger] q[j] by {
                if found {
                    q.remove_ensures(i as int);
                    if j < i {
                        assert(p[j] == q2[j] && q2[j] == q[j]);
                    } else if j > i {
                        assert(p[j - 1] == q2[j - 1] && q2[j - 1] == q[j]);
                    } else {
                        assert(false);
                    }
                } else {
                    assert(p[j] == q[j]);
                }
            }
        }
        Some(id)
    }

    /// Delivers a platform-opened BLE channel: the slot registered under
    /// this identifier, if any and still empty, is fulfilled; any other
    /// identifier drops the channel silently, and no slot is fulfilled
    /// twice.
    #[verifier::loop_isolation(false)]
    pub fn handle_incoming_ble_connection(
        &mut self,
        connection_id: String,
        native_stream: N::Channel,
    )
        requires
            old(self).wf(),
        ensures
            final(self).wf(),
            final(self).variables.l2cap_connections@.len() == old(
                self,
            ).variables.l2cap_connections@.len(),
            forall|i: int|
                0 <= i < old(self).variables.l2cap_connections@.len() ==> (#[trigger] (final(
                    self).variables.l2cap_connections@[i])) == ({
                    let slot = old(self).variables.l2cap_connections@[i];
                    if slot.id@ == connection_id@ && slot.channel is None {
                        PendingConnection { id: slot.id, channel: Some(native_stream) }
                    } else {
                        slot
                    }
                }),
            final(self).variables.device_connection_info == old(
                self,
            ).variables.device_connection_info,
            final(self).variables.advertise == old(self).variables.advertise,
            final(self).variables.has_tcp_server == old(self).variables.has_tcp_server,
            final(self).variables.file_storage == old(self).variables.file_storage,
            final(self).variables.delivered_requests == old(self).variables.delivered_requests,
    {
        let ghost q = self.variables.l2cap_connections@;
        let mut i: usize = 0;
        while i < self.variables.l2cap_connections.len()
            invariant
                i <= self.variables.l2cap_connections.len(),
                self.variables.l2cap_connections == old(self).variables.l2cap_connections,
                self.variables.l2cap_connections@ == q,
                forall|k: int|
                    0 <= k < i ==> !((#[trigger] q[k].id@) == connection_id@ && q[k].channel
                        is None),
                self.variables.device_connection_info == old(self).variables.device_connection_info,
                self.variables.advertise == old(self).variables.advertise,
                self.variables.has_tcp_server == old(self).variables.has_tcp_server,
                self.variables.file_storage == old(self).variables.file_storage,
                self.variables.delivered_requests == old(self).variables.delivered_requests,
            decreases self.variables.l2cap_connections.len() - i,
        {
            let matches_id = self.variables.l2cap_connections[i].id == connection_id;
            let unfilled = match &self.variables.l2cap_connections[i].channel {
                None => true,
                Some(_) => false,
            };
            if matches_id && unfilled {
                self.variables.l2cap_connections[i].channel = Some(native_stream);
                proof {
                    let p = self.variables.l2cap_connections@;
                    assert(p =~= q.update(
                        i as int,
                        PendingConnection { id: q[i as int].id, channel: p[i as int].channel },
                    ));
                    assert(p[i as int].id == q[i as int].id);
                }
                return ;
            }
            i = i + 1;
        }
        // No pending slot is registered under this identifier: the channel
        // is dropped.
    }

    /// Takes the channel delivered for this identifier and retires its
    /// slot; yields nothing exactly while the slot is unfulfilled or
    /// unknown — a delivered channel is never withheld.
    #[verifier::loop_isolation(false)]
    pub fn take_ble_connection(&mut self, connection_id: &String) -> (r: Option<N::Channel>)
        requires
            old(self).wf(),
        ensures
            final(self).wf(),
            r is None ==> final(self).variables.l2cap_connections == old(
                self,
            ).variables.l2cap_connections,
            (exists|i: int|
                0 <= i < old(self).variables.l2cap_connections@.len() && (#[trigger] (old(
                    self,
                ).variables.l2cap_connections@[i].id@)) == connection_id@ && old(
                    self,
                ).variables.l2cap_connections@[i].channel is Some) ==> r is Some,
            r is Some ==> (exists|i: int|
                {
                    &&& 0 <= i < old(self).variables.l2cap_connections@.len()
                    &&& (#[trigger] (old(self).variables.l2cap_connections@[i].id@))
                        == connection_id@
                    &&& old(self).variables.l2cap_connections@[i].channel is Some
                    &&& final(self).variables.l2cap_connections@ == old(
                        self,
                    ).variables.l2cap_connections@.remove(i)
                    &&& r == old(self).variables.l2cap_connections@[i].channel
                }),
            final(self).variables.device_connection_info == old(
                self,
            ).variables.device_connection_info,
            final(self).variables.advertise == old(self).variables.advertise,
            final(self).variables.has_tcp_server == old(self).variables.has_tcp_server,
            final(self).variables.file_storage == old(self).variables.file_storage,
            final(self).variables.delivered_requests == old(self).variables.delivered_requests,
    {
        let ghost q = self.variables.l2cap_connections@;
        let mut i: usize = 0;
        while i < self.variables.l2cap_connections.len()
            invariant
                i <= self.variables.l2cap_connections.len(),
                self.variables.l2cap_connections == old(self).variables.l2cap_connections,
                self.variables.l2cap_connections@ == q,
                forall|k: int|
                    0 <= k < i ==> !((#[trigger] (q[k].id@)) == connection_id@ && q[k].channel
                        is Some),
                self.variables.device_connection_info == old(self).variables.device_connection_info,
                self.variables.advertise == old(self).variables.advertise,
                self.variables.has_tcp_server == old(self).variables.has_tcp_server,
                self.variables.file_storage == old(self).variables.file_storage,
                self.variables.delivered_requests == old(self).variables.delivered_requests,
            decreases self.variables.l2cap_connections.len() - i,
        {
            let matches_id = self.variables.l2cap_connections[i].id == *connection_id;
            let fulfilled = match &self.variables.l2cap_connections[i].channel {
                Some(_) => true,
                None => false,
            };
            assert(!(matches_id && fulfilled) ==> !(q[i as int].id@ == connection_id@ && q[
                i as int
            ].channel is Some));
            if matches_id && fulfilled {
                let slot = self.variables.l2cap_connections.remove(i);
                proof {
                    let p = self.variables.l2cap_connections@;
                    q.remove_ensures(i as int);
                    assert(p == q.remove(i as int));
                    assert forall|k1: int, k2: int| 0 <= k1 < k2 < p.len() implies p[k1].id@
                        != p[k2].id@ by {
                        let m1: int = if k1 < i { k1 } else { k1 + 1 };
                        let m2: int = if k2 < i { k2 } else { k2 + 1 };
                        assert(p[k1] == q[m1]);
                        assert(p[k2] == q[m2]);
                    }
                }
                return slot.channel;
            }
            i = i + 1;
        }
        None
    }

    /// Hands one admitted request to the application delegate and records
    /// it; without a delegate the request is dropped. Brief by design: an
    /// embedding that guards this server with a lock can run the admission
    /// reads unlocked and take exclusive access only for this delivery.
    pub fn deliver_connection_request(
        &mut self,
        request: ConnectionRequest<N::Channel, N::Progress>,
    )
        requires
            request.transfer_request@.wf(),
        ensures
            final(self).variables.device_connection_info == old(
                self,
            ).variables.device_connection_info,
            final(self).variables.advertise == old(self).variables.advertise,
            final(self).variables.has_tcp_server == old(self).variables.has_tcp_server,
            final(self).variables.file_storage == old(self).variables.file_storage,
            final(self).variables.l2cap_connections == old(self).variables.l2cap_connections,
            old(self).variables.nearby_connection_delegate is Some ==> final(self).variables.delivered_requests@ == old(self).variables.delivered_requests@.push(
                request.transfer_request@,
            ),
            old(self).variables.nearby_connection_delegate is None ==> final(self).variables.delivered_requests == old(self).variables.delivered_requests,
            old(self).wf() ==> final(self).wf(),
    {
        let has_delegate = match &self.variables.nearby_connection_delegate {
            Some(_) => true,
            None => false,
        };
        if !has_delegate {
            return ;
        }
        let ghost m = request.transfer_request@;
        self.variables.delivered_requests = Ghost(self.variables.delivered_requests@.push(m));
        match &mut self.variables.nearby_connection_delegate {
            Some(d) => d.received_connection_request(request),
            None => {},
        }
    }

    /// Admits one inbound connection: reads exactly one transfer request
    /// off the channel, refuses a malformed or incomplete one, and hands a
    /// well-formed one to the application as a request bound to the
    /// storage root. Without a delegate the channel is dropped unanswered.
    pub fn handle_incoming_connection(&mut self, native_stream_handle: N::Channel)
        ensures
            final(self).variables.device_connection_info == old(
                self,
            ).variables.device_connection_info,
            final(self).variables.advertise == old(self).variables.advertise,
            final(self).variables.has_tcp_server == old(self).variables.has_tcp_server,
            final(self).variables.file_storage == old(self).variables.file_storage,
            final(self).variables.l2cap_connections == old(self).variables.l2cap_connections,
            old(self).variables.nearby_connection_delegate is None ==> final(self).variables.delivered_requests == old(self).variables.delivered_requests,
            final(self).variables.delivered_requests@ == old(self).variables.delivered_requests@
                || (exists|m: TransferRequestV|
                #[trigger] m.wf() && final(self).variables.delivered_requests@ == old(
                    self,
                ).variables.delivered_requests@.push(m)),
            old(self).wf() ==> final(self).wf(),
    {
        let has_delegate = match &self.variables.nearby_connection_delegate {
            Some(_) => true,
            None => false,
        };
        if !has_delegate {
            return ;
        }
        let storage = self.variables.file_storage.clone();
        match admit_incoming_connection::<N::Channel, N::Progress>(native_stream_handle, storage) {
            Ok(connection_request) => {
                self.deliver_connection_request(connection_request);
            },
            Err(_) => {},
        }
    }
}

impl<
    B: BleServerImplementationDelegate,
    L: L2CapDelegate,
    N: NearbyConnectionDelegate,
> NearbyServer<B, L, N> {
    /// Sends a set of inputs over an established secure channel: packs them
    /// into one archive — always, even for a single file, to keep the wire
    /// format uniform — frames one transfer request announcing it, blocks
    /// for the one response, and, when accepted, streams the archive in
    /// bounded chunks with monotone progress. The response alone decides
    /// the result: a refusal is the `Declined` error and reports no
    /// Transferring; transfer-phase outcomes (a stalled channel) are
    /// reported only through the progress observer, and what goes out is
    /// always a prefix of the packed archive.
    #[verifier::loop_isolation(false)]
    pub fn send_files<CH: SecureChannel, S: SendProgressDelegate>(
        &self,
        connection: &mut MessageFramer<CH>,
        files: &Vec<FsNode>,
        progress: &mut SendProgress<S>,
    ) -> (r: Result<(), ConnectErrors>)
        requires
            files@.len() >= 1,
        ensures
            final(progress).events@.take(old(progress).events@.len() as int) == old(
                progress,
            ).events@,
            ({
                let tr = final(connection).wire_trace().skip(
                    old(connection).wire_trace().len() as int,
                );
                &&& tr.len() >= 1
                &&& tr[0] == WireOp::SentFrame(
                    spec_enc_transfer_request(
                        spec_send_request(
                            self.variables.device_connection_info@.device,
                            files@,
                        ),
                    ),
                )
                &&& (tr.len() >= 2 ==> tr[1] is RecvFrame)
                &&& (forall|i: int| 2 <= i < tr.len() ==> (#[trigger] tr[i]) is SentPayload)
                &&& sent_payload_bytes(tr) == spec_send_archive(files@).take(
                    sent_payload_bytes(tr).len() as int,
                )
            }),
            ({
                let tr = final(connection).wire_trace().skip(
                    old(connection).wire_trace().len() as int,
                );
                &&& (r is Ok <==> response_of(tr) == Some(
                    TransferRequestResponse { accepted: true },
                ))
                &&& (r == Err::<(), ConnectErrors>(ConnectErrors::Declined) <==> response_of(tr)
                    == Some(TransferRequestResponse { accepted: false }))
                &&& (r matches Err(e) ==> (e is Declined
                    || e is FailedToGetTransferRequestResponse))
                &&& (!(r is Ok) ==> (forall|i: int|
                    0 <= i < tr.len() ==> !((#[trigger] tr[i]) is SentPayload)))
            }),
            ({
                let pvs = final(progress).events@.skip(old(progress).events@.len() as int);
                let tr = final(connection).wire_trace().skip(
                    old(connection).wire_trace().len() as int,
                );
                &&& pvs.len() >= 2
                &&& pvs[0] is Compressing
                &&& pvs[1] is Requesting
                &&& ((r matches Err(e) && e is FailedToGetTransferRequestResponse) ==> pvs.len()
                    == 2)
                &&& (r == Err::<(), ConnectErrors>(ConnectErrors::Declined) ==> (pvs.len() == 3
                    && pvs[2] is Declined))
                &&& (r is Ok ==> send_events_ok(
                    pvs,
                    spec_send_archive(files@).len() as u64,
                    sent_payload_bytes(tr).len() == spec_send_archive(files@).len(),
                ))
            }),
    {
        let ghost t0 = connection.wire_trace();
        let ghost pe0 = progress.events@;
        progress.update_progress(SendProgressState::Compressing);
        let archive = pack(files);
        let size: u64 = archive.len() as u64;
        progress.update_progress(SendProgressState::Requesting);
        let ghost eh = progress.events@;
        let file_name: Option<String> = if files.len() == 1 {
            match &files[0] {
                FsNode::File { name, .. } => Some(name.clone()),
                FsNode::Dir { name, .. } => Some(name.clone()),
            }
        } else {
            None
        };
        let device: Option<Device> = match &self.variables.device_connection_info.device {
            Some(d) => Some(d.duplicate()),
            None => None,
        };
        let request = TransferRequest {
            device,
            intent: Some(
                Intent::FileTransfer(
                    FileTransferIntent { file_name, file_size: size, file_count: files.len() as u64 },
                ),
            ),
        };
        assert(request@ == spec_send_request(
            self.variables.device_connection_info@.device,
            files@,
        ));
        let payload = encode_transfer_request(&request);
        let _ok = connection.send_frame(&payload);
        let ghost t1 = connection.wire_trace();
        let response_bytes = match connection.recv_frame() {
            Some(b) => b,
            None => {
                proof {
                    let tr = connection.wire_trace().skip(t0.len() as int);
                    assert(tr =~= seq![WireOp::SentFrame(payload@)]);
                    assert(tr.drop_last() =~= Seq::<WireOp>::empty());
                    assert(sent_payload_bytes(Seq::<WireOp>::empty()) == Seq::<u8>::empty());
                    assert(sent_payload_bytes(tr) =~= Seq::<u8>::empty());
                    assert(spec_send_archive(files@).take(0) =~= Seq::<u8>::empty());
                    assert(forall|k: int| 0 <= k < tr.len() ==> !((#[trigger] tr[k]) is SentPayload));
                    assert(progress.events@.skip(pe0.len() as int) =~= seq![
                        SendProgressState::Compressing,
                        SendProgressState::Requesting,
                    ]);
                    assert(progress.events@.take(pe0.len() as int) =~= pe0);
                }
                return Err(
                    ConnectErrors::FailedToGetTransferRequestResponse {
                        error: String::from_str("the stream ended before a response frame"),
                    },
                );
            },
        };
        let ghost t2 = connection.wire_trace();
        proof {
            let tr = connection.wire_trace().skip(t0.len() as int);
            assert(tr =~= seq![
                WireOp::SentFrame(payload@),
                WireOp::RecvFrame(response_bytes@),
            ]);
            assert(tr.drop_last() =~= seq![WireOp::SentFrame(payload@)]);
            assert(tr.drop_last().drop_last() =~= Seq::<WireOp>::empty());
            assert(sent_payload_bytes(Seq::<WireOp>::empty()) == Seq::<u8>::empty());
            assert(sent_payload_bytes(tr.drop_last()) =~= Seq::<u8>::empty());
            assert(sent_payload_bytes(tr) =~= Seq::<u8>::empty());
            assert(spec_send_archive(files@).take(0) =~= Seq::<u8>::empty());
            assert(forall|k: int| 0 <= k < tr.len() ==> !((#[trigger] tr[k]) is SentPayload));
        }
        let response = match decode_response(&response_bytes) {
            Some(m) => m,
            None => {
                proof {
                    assert(progress.events@.skip(pe0.len() as int) =~= seq![
                        SendProgressState::Compressing,
                        SendProgressState::Requesting,
                    ]);
                    assert(progress.events@.take(pe0.len() as int) =~= pe0);
                }
                return Err(
                    ConnectErrors::FailedToGetTransferRequestResponse {
                        error: String::from_str("the response frame did not parse"),
                    },
                );
            },
        };
        if !response.accepted {
            progress.update_progress(SendProgressState::Declined);
            proof {
                assert(progress.events@.skip(pe0.len() as int) =~= seq![
                    SendProgressState::Compressing,
                    SendProgressState::Requesting,
                    SendProgressState::Declined,
                ]);
                assert(progress.events@.take(pe0.len() as int) =~= pe0);
            }
            return Err(ConnectErrors::Declined);
        }
        progress.update_progress(
            SendProgressState::Transferring {
                progress: TransferProgress { transferred: 0, total: size },
            },
        );
        let mut offset: usize = 0;
        let mut stalled: bool = false;
        while offset < archive.len() && !stalled
            invariant
                offset <= archive.len(),
                connection.wire_trace().len() >= t2.len(),
                connection.wire_trace().take(t2.len() as int) == t2,
                forall|i: int|
                    t2.len() <= i < connection.wire_trace().len() ==> (#[trigger] connection.wire_trace()[i])
                        is SentPayload,
                sent_payload_bytes(connection.wire_trace().skip(t2.len() as int)) == archive@.take(
                    offset as int,
                ),
                progress.events@.len() > eh.len(),
                progress.events@.take(eh.len() as int) == eh,
                transferring_run_ok(progress.events@.skip(eh.len() as int), size),
                send_progress_bytes(progress.events@.skip(eh.len() as int)[0]) == 0,
                send_progress_bytes(progress.events@.last()) == offset as u64,
            decreases (if stalled {
                0int
            } else {
                1int
            }), archive.len() - offset,
        {
            let remaining = archive.len() - offset;
            let take_n = if remaining < 1024 {
                remaining
            } else {
                1024
            };
            let end = offset + take_n;
            let chunk = vstd::slice::slice_to_vec(
                vstd::slice::slice_subrange(archive.as_slice(), offset, end),
            );
            let ghost w_pre = connection.wire_trace();
            let w = connection.write_payload(&chunk);
            if w == 0 {
                stalled = true;
            } else {
                proof {
                    let suf_pre = w_pre.skip(t2.len() as int);
                    let suf_now = connection.wire_trace().skip(t2.len() as int);
                    assert(suf_now =~= suf_pre.push(WireOp::SentPayload(chunk@.take(w as int))));
                    assert(suf_now.drop_last() =~= suf_pre);
                    assert(sent_payload_bytes(suf_now) == sent_payload_bytes(suf_pre)
                        + chunk@.take(w as int));
                    assert(chunk@.take(w as int) =~= archive@.subrange(
                        offset as int,
                        offset + w,
                    ));
                    assert(archive@.take(offset as int) + archive@.subrange(
                        offset as int,
                        offset + w,
                    ) =~= archive@.take(offset + w));
                    assert(connection.wire_trace().take(t2.len() as int) =~= t2);
                }
                offset = offset + w;
                let ghost run_pre = progress.events@.skip(eh.len() as int);
                progress.update_progress(
                    SendProgressState::Transferring {
                        progress: TransferProgress { transferred: offset as u64, total: size },
                    },
                );
                proof {
                    let run_now = progress.events@.skip(eh.len() as int);
                    assert(run_now =~= run_pre.push(
                        SendProgressState::Transferring {
                            progress: TransferProgress { transferred: offset as u64, total: size },
                        },
                    ));
                    assert forall|i: int, j: int|
                        0 <= i <= j < run_now.len() implies send_progress_bytes(run_now[i])
                        <= send_progress_bytes(run_now[j]) by {
                        if j < run_now.len() - 1 {
                            assert(send_progress_bytes(run_pre[i]) <= send_progress_bytes(
                                run_pre[j],
                            ));
                        } else if i < run_now.len() - 1 {
                            assert(send_progress_bytes(run_pre[i]) <= send_progress_bytes(
                                run_pre[run_pre.len() - 1],
                            ));
                        }
                    }
                    assert(progress.events@.take(eh.len() as int) =~= eh);
                }
            }
        }
        let ghost run = progress.events@.skip(eh.len() as int);
        let ghost loop_ev = progress.events@;
        if offset < archive.len() {
            progress.update_progress(SendProgressState::Cancelled);
        } else {
            progress.update_progress(SendProgressState::Finished);
        }
        proof {
            let pvs = progress.events@.skip(pe0.len() as int);
            assert(eh =~= pe0 + seq![
                SendProgressState::Compressing,
                SendProgressState::Requesting,
            ]);
            assert(progress.events@ =~= loop_ev.push(progress.events@.last()));
            assert forall|i: int| 0 <= i < eh.len() implies loop_ev[i] == eh[i] by {
                assert(loop_ev.take(eh.len() as int)[i] == loop_ev[i]);
            }
            assert(progress.events@.take(pe0.len() as int) =~= pe0);
            assert(pvs =~= seq![SendProgressState::Compressing, SendProgressState::Requesting]
                + run + seq![progress.events@.last()]);
            assert(pvs.subrange(2, pvs.len() - 1) =~= run);
            assert(send_progress_bytes(pvs[2]) == 0);
            if offset == archive.len() {
                assert(pvs[pvs.len() - 2] == run.last());
            }
            let tr = connection.wire_trace().skip(t0.len() as int);
            assert(connection.wire_trace().take(t2.len() as int) =~= t2);
            assert(tr[0] == t1[t0.len() as int]);
            assert(tr[1] == t2[t1.len() as int]);
            assert forall|i: int| 2 <= i < tr.len() implies (#[trigger] tr[i]) is SentPayload by {
                assert(tr[i] == connection.wire_trace()[t0.len() + i]);
            }
            let suf = connection.wire_trace().skip(t2.len() as int);
            assert(tr.skip(2) =~= suf);
            crate::framing::lemma_recv_payload_bytes_cons(tr[1], suf);
            assert(sent_payload_bytes(seq![tr[1]] + suf) == sent_payload_bytes(suf)
                + Seq::<u8>::empty()) by {
                lemma_sent_payload_bytes_cons(tr[1], suf);
            }
            assert(sent_payload_bytes(seq![tr[0]] + (seq![tr[1]] + suf)) == sent_payload_bytes(
                seq![tr[1]] + suf,
            )) by {
                lemma_sent_payload_bytes_cons(tr[0], seq![tr[1]] + suf);
            }
            assert(tr =~= seq![tr[0]] + (seq![tr[1]] + suf));
            assert(sent_payload_bytes(tr) == archive@.take(offset as int));
            assert(archive@.take(offset as int).len() == offset);
            assert(archive@.take(offset as int) =~= spec_send_archive(files@).take(offset as int));
        }
        Ok(())
    }
}

/// A leading action that sends no payload adds no sent payload bytes.
pub proof fn lemma_sent_payload_bytes_cons(op: WireOp, tr: Seq<WireOp>)
    requires
        !(op is SentPayload),
    ensures
        sent_payload_bytes(seq![op] + tr) == sent_payload_bytes(tr),
    decreases tr.len(),
{
    let whole = seq![op] + tr;
    if tr.len() == 0 {
        assert(whole.drop_last() =~= Seq::<WireOp>::empty());
        assert(whole.last() == op);
        assert(sent_payload_bytes(Seq::<WireOp>::empty()) == Seq::<u8>::empty());
        assert(sent_payload_bytes(whole) =~= Seq::<u8>::empty());
        assert(sent_payload_bytes(tr) =~= Seq::<u8>::empty());
    } else {
        assert(whole.drop_last() =~= seq![op] + tr.drop_last());
        assert(whole.last() == tr.last());
        lemma_sent_payload_bytes_cons(op, tr.drop_last());
    }
}

/// The response a send read off the wire: the decoding of the one response
/// frame its trace shows, if the frame parsed exactly.
pub open spec fn response_of(tr: Seq<WireOp>) -> Option<TransferRequestResponse> {
    if tr.len() >= 2 {
        match tr[1] {
            WireOp::RecvFrame(b) => match spec_dec_response(b, 0) {
                Some((m, p)) => if p == b.len() {
                    Some(m)
                } else {
                    None
                },
                None => None,
            },
            _ => None,
        }
    } else {
        None
    }
}

/// Whether these bytes are exactly one well-formed transfer request.
pub open spec fn is_admissible_frame(b: Seq<u8>) -> bool {
    match crate::codec::spec_dec_transfer_request(b, 0) {
        Some((m, p)) => p == b.len() && m.wf(),
        None => false,
    }
}

/// Reads exactly one transfer request off an inbound channel and binds it
/// to the storage root. A stream that ends early, a frame that does not
/// parse, and a request without sender or intent or with an inconsistent
/// file count are protocol violations: the channel is closed and the framer
/// comes back as evidence — its trace shows no admissible frame. Needs no
/// access to the server, so an embedding can run these blocking reads
/// without holding its lock.
pub fn admit_incoming_connection<C: SecureChannel, R: ReceiveProgressDelegate>(
    native_stream_handle: C,
    file_storage: String,
) -> (r: Result<ConnectionRequest<C, R>, MessageFramer<C>>)
    ensures
        r matches Ok(cr) ==> ({
            &&& cr.transfer_request@.wf()
            &&& cr.file_storage == file_storage
            &&& !cr.should_cancel
            &&& cr.progress_delegate is None
            &&& cr.events@ == Seq::<crate::connection_request::ReceiveProgressState>::empty()
            &&& cr.received_files@ == Seq::<crate::bundler::ExtractedEntry>::empty()
            &&& !cr.response_sent
            &&& cr.connection.wire_trace().len() == 1
            &&& (cr.connection.wire_trace()[0] matches WireOp::RecvFrame(b)
                && crate::codec::spec_dec_transfer_request(b, 0) == Some(
                (cr.transfer_request@, b.len() as int),
            ))
        }),
        r matches Err(refused) ==> ({
            &&& refused.wire_trace().len() <= 1
            &&& (refused.wire_trace().len() == 1 ==> (refused.wire_trace()[0]
                matches WireOp::RecvFrame(b) && !is_admissible_frame(b)))
        }),
{
    let mut framer = MessageFramer::new(native_stream_handle);
    let frame = match framer.recv_frame() {
        Some(f) => f,
        None => {
            framer.close();
            return Err(framer);
        },
    };
    let request = match decode_transfer_request(&frame) {
        Some(r) => r,
        None => {
            proof {
                assert(!is_admissible_frame(frame@));
            }
            framer.close();
            return Err(framer);
        },
    };
    let device_ok = match &request.device {
        Some(_) => true,
        None => false,
    };
    let intent_ok = match &request.intent {
        Some(Intent::FileTransfer(f)) => f.file_count >= 1 && (match &f.file_name {
            Some(_) => f.file_count == 1,
            None => f.file_count != 1,
        }),
        Some(Intent::Clipboard(_)) => true,
        None => false,
    };
    if !device_ok || !intent_ok {
        proof {
            assert(!request@.wf());
            assert(!is_admissible_frame(frame@));
        }
        framer.close();
        return Err(framer);
    }
    assert(request@.wf());
    Ok(ConnectionRequest::new(request, framer, file_storage))
}

/// The name of an input node.
pub open spec fn node_name(n: FsNode) -> Seq<char> {
    match n {
        FsNode::File { name, .. } => name@,
        FsNode::Dir { name, .. } => name@,
    }
}

/// The archive bytes a send of these inputs streams.
pub open spec fn spec_send_archive(files: Seq<FsNode>) -> Seq<u8> {
    spec_enc_archive(spec_nodes_entries(Seq::empty(), files))
}

/// The transfer request a send of these inputs frames: the sender's
/// identity, the archive length, the input count, and — exactly for a
/// single input — its name.
pub open spec fn spec_send_request(device: Option<DeviceV>, files: Seq<FsNode>) -> TransferRequestV {
    TransferRequestV {
        device,
        intent: Some(
            IntentV::FileTransfer(
                FileTransferIntentV {
                    file_name: if files.len() == 1 {
                        Some(node_name(files[0]))
                    } else {
                        None
                    },
                    file_size: spec_send_archive(files).len() as u64,
                    file_count: files.len() as u64,
                },
            ),
        ),
    }
}

} // verus!
