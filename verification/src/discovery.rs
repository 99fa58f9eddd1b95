//! Device discovery: the registry of nearby devices, fed by discovery
//! payloads read from platform scans.
//!
//! The registry keys devices by identifier: a payload announcing a known
//! device replaces its entry in place, a new one is appended, and an
//! offline announcement retires the entry. The platform scanning itself is
//! a capability the application supplies.

use vstd::prelude::*;
use vstd::pervasive::unreached;
use crate::device::{Device, DeviceV};
use crate::messages::{DiscoveryContentV};
use crate::codec::{decode_discovery_message, spec_dec_discovery_ld};
use crate::errors::DiscoverySetupError;

verus! {

/// The application's observer of the device list.
pub trait DiscoveryDelegate {
    /// Called when a device not seen before announces itself.
    fn device_added(&mut self, value: Device);

    /// Called when a device announces going offline.
    fn device_removed(&mut self, device_id: String);
}

/// The platform capability that scans for nearby announcements.
pub trait BleDiscoveryImplementationDelegate {
    fn start_scanning(&mut self);

    fn stop_scanning(&mut self);
}

/// Mathematical image of a device list.
pub open spec fn devices_view(s: Seq<Device>) -> Seq<DeviceV> {
    Seq::new(s.len(), |i: int| s[i]@)
}

/// Whether a list already carries a device with this identifier.
pub open spec fn has_device_id(s: Seq<DeviceV>, id: Seq<char>) -> bool {
    exists|i: int| 0 <= i < s.len() && (#[trigger] s[i]).id == id
}

/// The list after announcing `d`: a known identifier is replaced in place,
/// a new one is appended.
pub open spec fn upserted(pre: Seq<DeviceV>, post: Seq<DeviceV>, d: DeviceV) -> bool {
    if has_device_id(pre, d.id) {
        exists|i: int|
            0 <= i < pre.len() && (#[trigger] pre[i]).id == d.id && post == pre.update(i, d)
    } else {
        post == pre.push(d)
    }
}

/// The list after an offline announcement: the entry with the identifier,
/// if any, is retired.
pub open spec fn retired(pre: Seq<DeviceV>, post: Seq<DeviceV>, id: Seq<char>) -> bool {
    if has_device_id(pre, id) {
        exists|i: int| 0 <= i < pre.len() && (#[trigger] pre[i]).id == id && post == pre.remove(i)
    } else {
        post == pre
    }
}

/// No two entries share an identifier.
pub open spec fn device_ids_unique(s: Seq<DeviceV>) -> bool {
    forall|i: int, j: int| 0 <= i < j < s.len() ==> s[i].id != s[j].id
}

/// The registry of nearby devices and the scanning lifecycle around it.
pub struct InternalDiscovery<D: DiscoveryDelegate, P: BleDiscoveryImplementationDelegate> {
    pub devices: Vec<Device>,
    pub delegate: Option<D>,
    pub ble_implementation: Option<P>,
    pub scanning: bool,
}

impl<D: DiscoveryDelegate, P: BleDiscoveryImplementationDelegate> InternalDiscovery<D, P> {
    /// Distinct devices never share an identifier.
    pub open spec fn wf(&self) -> bool {
        device_ids_unique(devices_view(self.devices@))
    }

    /// An empty registry over an optional observer.
    pub fn new(delegate: Option<D>) -> (r: Result<Self, DiscoverySetupError>)
        ensures
            r is Ok,
            r matches Ok(d) ==> ({
                &&& d.devices@ == Seq::<Device>::empty()
                &&& d.delegate == delegate
                &&& !d.scanning
                &&& d.ble_implementation is None
                &&& d.wf()
            }),
    {
        Ok(
            InternalDiscovery {
                devices: Vec::new(),
                delegate,
                ble_implementation: None,
                scanning: false,
            },
        )
    }

    /// The devices currently known, in announcement order.
    pub fn get_devices(&self) -> (r: Vec<Device>)
        ensures
            devices_view(r@) == devices_view(self.devices@),
    {
        let mut out: Vec<Device> = Vec::new();
        let mut i: usize = 0;
        while i < self.devices.len()
            invariant
                i <= self.devices.len(),
                out@.len() == i,
                forall|k: int| 0 <= k < i ==> out@[k]@ == #[trigger] self.devices@[k]@,
            decreases self.devices.len() - i,
        {
            out.push(self.devices[i].duplicate());
            i = i + 1;
        }
        assert(devices_view(out@) =~= devices_view(self.devices@));
        out
    }

    /// Registers the platform scanning capability.
    pub fn add_ble_implementation(&mut self, implementation: P)
        ensures
            final(self).ble_implementation == Some(implementation),
            final(self).devices == old(self).devices,
            final(self).delegate == old(self).delegate,
            final(self).scanning == old(self).scanning,
            final(self).wf() == old(self).wf(),
    {
        self.ble_implementation = Some(implementation);
    }

    /// Starts scanning through the platform capability.
    pub fn start(&mut self)
        ensures
            final(self).scanning,
            final(self).devices == old(self).devices,
            final(self).wf() == old(self).wf(),
    {
        self.scanning = true;
        match &mut self.ble_implementation {
            Some(b) => b.start_scanning(),
            None => {},
        }
    }

    /// Stops scanning through the platform capability.
    pub fn stop(&mut self)
        ensures
            !final(self).scanning,
            final(self).devices == old(self).devices,
            final(self).wf() == old(self).wf(),
    {
        self.scanning = false;
        match &mut self.ble_implementation {
            Some(b) => b.stop_scanning(),
            None => {},
        }
    }

    /// Digests one broadcast discovery payload: a well-formed announcement
    /// upserts or retires its device and notifies the observer; anything
    /// else leaves the registry untouched. The identifier of the medium the
    /// payload arrived on does not enter the registry.
    #[verifier::loop_isolation(false)]
    pub fn parse_discovery_message(&mut self, data: Vec<u8>, ble_uuid: Option<String>)
        requires
            old(self).wf(),
        ensures
            final(self).wf(),
            final(self).scanning == old(self).scanning,
            spec_dec_discovery_ld(data@) is None ==> final(self).devices == old(self).devices,
            spec_dec_discovery_ld(data@) matches Some(m) ==> (match m.content {
                None => final(self).devices == old(self).devices,
                Some(DiscoveryContentV::DeviceConnectionInfo(c)) => (match c.device {
                    Some(d) => upserted(
                        devices_view(old(self).devices@),
                        devices_view(final(self).devices@),
                        d,
                    ),
                    None => final(self).devices == old(self).devices,
                }),
                Some(DiscoveryContentV::OfflineDeviceId(id)) => retired(
                    devices_view(old(self).devices@),
                    devices_view(final(self).devices@),
                    id,
                ),
            }),
    {
        let _ = ble_uuid;
        let message = match decode_discovery_message(&data) {
            Some(m) => m,
            None => {
                return ;
            },
        };
        match message.content {
            None => {},
            Some(crate::messages::DiscoveryContent::DeviceConnectionInfo(info)) => {
                match info.device {
                    None => {},
                    Some(device) => {
                        let ghost q = devices_view(self.devices@);
                        let mut i: usize = 0;
                        while i < self.devices.len()
                            invariant
                                i <= self.devices.len(),
                                self.devices == old(self).devices,
                        self.scanning == old(self).scanning,
                                self.scanning == old(self).scanning,
                                forall|k: int| 0 <= k < i ==> (#[trigger] q[k]).id != device@.id,
                            decreases self.devices.len() - i,
                        {
                            if self.devices[i].id == device.id {
                                assert(q[i as int].id == device@.id);
                                self.devices[i] = device;
                                proof {
                                    assert(devices_view(self.devices@) =~= q.update(
                                        i as int,
                                        devices_view(self.devices@)[i as int],
                                    ));
                                    assert forall|k1: int, k2: int|
                                        0 <= k1 < k2 < devices_view(self.devices@).len() implies
                                        devices_view(self.devices@)[k1].id != devices_view(
                                        self.devices@,
                                    )[k2].id by {
                                        if k1 != i && k2 != i {
                                            assert(devices_view(self.devices@)[k1] == q[k1]);
                                            assert(devices_view(self.devices@)[k2] == q[k2]);
                                        }
                                    }
                                }
                                return ;
                            }
                            i = i + 1;
                        }
                        assert(!has_device_id(q, device@.id));
                        match &mut self.delegate {
                            Some(d) => d.device_added(device.duplicate()),
                            None => {},
                        }
                        self.devices.push(device);
                        assert(devices_view(self.devices@) =~= q.push(
                            devices_view(self.devices@).last(),
                        ));
                    },
                }
            },
            Some(crate::messages::DiscoveryContent::OfflineDeviceId(id)) => {
                let ghost q = devices_view(self.devices@);
                let mut i: usize = 0;
                while i < self.devices.len()
                    invariant
                        i <= self.devices.len(),
                        self.devices == old(self).devices,
                        self.scanning == old(self).scanning,
                        forall|k: int| 0 <= k < i ==> (#[trigger] q[k]).id != id@,
                    decreases self.devices.len() - i,
                {
                    if self.devices[i].id == id {
                        assert(q[i as int].id == id@);
                        let _gone = self.devices.remove(i);
                        proof {
                            let p = devices_view(self.devices@);
                            q.remove_ensures(i as int);
                            assert(p =~= q.remove(i as int));
                            assert forall|k1: int, k2: int| 0 <= k1 < k2 < p.len() implies p[k1].id
                                != p[k2].id by {
                                let m1: int = if k1 < i { k1 } else { k1 + 1 };
                                let m2: int = if k2 < i { k2 } else { k2 + 1 };
                                assert(p[k1] == q[m1]);
                                assert(p[k2] == q[m2]);
                            }
                        }
                        match &mut self.delegate {
                            Some(d) => d.device_removed(id),
                            None => {},
                        }
                        return ;
                    }
                    i = i + 1;
                }
                assert(!has_device_id(q, id@));
            },
        }
    }
}

/// BLE scanning bookkeeping on a platform whose watcher the application
/// runs: the flag the watcher polls to keep or stop scanning.
pub struct BleClient {
    pub scanning: bool,
}

impl BleClient {
    /// A client that is not scanning yet.
    pub fn new() -> (r: BleClient)
        ensures
            !r.scanning,
    {
        BleClient { scanning: false }
    }
}

impl BleDiscoveryImplementationDelegate for BleClient {
    fn start_scanning(&mut self) {
        self.scanning = true;
    }

    fn stop_scanning(&mut self) {
        self.scanning = false;
    }
}

/// Discovery as embedded on a desktop: the registry behind a BLE scanning
/// client.
pub struct Discovery<D: DiscoveryDelegate> {
    pub internal_discovery: InternalDiscovery<D, BleClient>,
}

impl<D: DiscoveryDelegate> Discovery<D> {
    /// An empty registry wired to a fresh scanning client.
    pub fn new(delegate: Option<D>) -> (r: Self)
        ensures
            r.internal_discovery.devices@ == Seq::<Device>::empty(),
            r.internal_discovery.delegate == delegate,
            r.internal_discovery.ble_implementation == Some(BleClient { scanning: false }),
            !r.internal_discovery.scanning,
            r.internal_discovery.wf(),
    {
        let mut internal = match InternalDiscovery::<D, BleClient>::new(delegate) {
            Ok(d) => d,
            Err(_) => unreached(),
        };
        internal.add_ble_implementation(BleClient::new());
        Discovery { internal_discovery: internal }
    }

    /// The devices currently known, in announcement order.
    pub fn get_devices(&self) -> (r: Vec<Device>)
        ensures
            devices_view(r@) == devices_view(self.internal_discovery.devices@),
    {
        self.internal_discovery.get_devices()
    }

    /// Starts scanning.
    pub fn start(&mut self)
        ensures
            final(self).internal_discovery.scanning,
            final(self).internal_discovery.devices == old(self).internal_discovery.devices,
    {
        self.internal_discovery.start();
    }

    /// Stops scanning.
    pub fn stop(&mut self)
        ensures
            !final(self).internal_discovery.scanning,
            final(self).internal_discovery.devices == old(self).internal_discovery.devices,
    {
        self.internal_discovery.stop();
    }
}

} // verus!
