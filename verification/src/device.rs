//! Identity and reachability data exchanged during discovery and handshakes.

use vstd::prelude::*;

verus! {

/// Mathematical image of a `Device`.
pub struct DeviceV {
    pub id: Seq<char>,
    pub name: Seq<char>,
    pub device_type: i32,
}

/// Mathematical image of a `TcpConnectionInfo`.
pub struct TcpConnectionInfoV {
    pub hostname: Seq<char>,
    pub port: u32,
}

/// Mathematical image of a `BluetoothLeConnectionInfo`.
pub struct BluetoothLeConnectionInfoV {
    pub uuid: Seq<char>,
    pub psm: u32,
}

/// Mathematical image of a `DeviceConnectionInfo`.
pub struct DeviceConnectionInfoV {
    pub device: Option<DeviceV>,
    pub ble: Option<BluetoothLeConnectionInfoV>,
    pub tcp: Option<TcpConnectionInfoV>,
}

/// Immutable identity of a participating device, exchanged in every
/// handshake and discovery payload.
pub struct Device {
    pub id: String,
    pub name: String,
    pub device_type: i32,
}

/// "How to reach me over the local network right now."
pub struct TcpConnectionInfo {
    pub hostname: String,
    pub port: u32,
}

/// "How to reach me over Bluetooth right now": the peripheral to dial and
/// the L2CAP protocol/service multiplexer to open.
pub struct BluetoothLeConnectionInfo {
    pub uuid: String,
    pub psm: u32,
}

/// A device's current reachability: its identity plus zero or more
/// transport legs. A well-formed value always carries the device.
pub struct DeviceConnectionInfo {
    pub device: Option<Device>,
    pub ble: Option<BluetoothLeConnectionInfo>,
    pub tcp: Option<TcpConnectionInfo>,
}

impl View for Device {
    type V = DeviceV;

    open spec fn view(&self) -> DeviceV {
        DeviceV { id: self.id@, name: self.name@, device_type: self.device_type }
    }
}

impl View for TcpConnectionInfo {
    type V = TcpConnectionInfoV;

    open spec fn view(&self) -> TcpConnectionInfoV {
        TcpConnectionInfoV { hostname: self.hostname@, port: self.port }
    }
}

impl View for BluetoothLeConnectionInfo {
    type V = BluetoothLeConnectionInfoV;

    open spec fn view(&self) -> BluetoothLeConnectionInfoV {
        BluetoothLeConnectionInfoV { uuid: self.uuid@, psm: self.psm }
    }
}

impl View for DeviceConnectionInfo {
    type V = DeviceConnectionInfoV;

    open spec fn view(&self) -> DeviceConnectionInfoV {
        DeviceConnectionInfoV {
            device: match self.device {
                Some(d) => Some(d@),
                None => None,
            },
            ble: match self.ble {
                Some(b) => Some(b@),
                None => None,
            },
            tcp: match self.tcp {
                Some(t) => Some(t@),
                None => None,
            },
        }
    }
}

impl DeviceConnectionInfo {
    /// Reachability info always carries the device it describes.
    pub open spec fn wf(&self) -> bool {
        self.device is Some
    }
}

impl DeviceConnectionInfoV {
    /// Reachability info always carries the device it describes.
    pub open spec fn wf(&self) -> bool {
        self.device is Some
    }
}

impl Device {
    /// Field-for-field copy.
    pub fn duplicate(&self) -> (r: Device)
        ensures
            r == *self,
    {
        Device { id: self.id.clone(), name: self.name.clone(), device_type: self.device_type }
    }
}

impl TcpConnectionInfo {
    /// Field-for-field copy.
    pub fn duplicate(&self) -> (r: TcpConnectionInfo)
        ensures
            r == *self,
    {
        TcpConnectionInfo { hostname: self.hostname.clone(), port: self.port }
    }
}

impl BluetoothLeConnectionInfo {
    /// Field-for-field copy.
    pub fn duplicate(&self) -> (r: BluetoothLeConnectionInfo)
        ensures
            r == *self,
    {
        BluetoothLeConnectionInfo { uuid: self.uuid.clone(), psm: self.psm }
    }
}

impl DeviceConnectionInfo {
    /// Field-for-field copy.
    pub fn duplicate(&self) -> (r: DeviceConnectionInfo)
        ensures
            r == *self,
    {
        let device = match &self.device {
            Some(d) => Some(d.duplicate()),
            None => None,
        };
        let ble = match &self.ble {
            Some(b) => Some(b.duplicate()),
            None => None,
        };
        let tcp = match &self.tcp {
            Some(t) => Some(t.duplicate()),
            None => None,
        };
        DeviceConnectionInfo { device, ble, tcp }
    }
}

} // verus!
