//! The messages of the transfer protocol and of discovery.
//!
//! A connection carries exactly one `TransferRequest`, then exactly one
//! `TransferRequestResponse`, then — only if the response accepted — the raw
//! payload bytes whose length the request announced. The discovery payload
//! is a `DeviceDiscoveryMessage` broadcast out of band.

use vstd::prelude::*;
use crate::device::{Device, DeviceV, DeviceConnectionInfo, DeviceConnectionInfoV};

verus! {

/// The declared purpose of a file transfer: how many inputs were bundled,
/// how many payload bytes follow, and — exactly for a single input — its
/// name.
pub struct FileTransferIntent {
    pub file_name: Option<String>,
    pub file_size: u64,
    pub file_count: u64,
}

/// Mathematical image of a `FileTransferIntent`.
pub struct FileTransferIntentV {
    pub file_name: Option<Seq<char>>,
    pub file_size: u64,
    pub file_count: u64,
}

/// The declared purpose of a clipboard share.
pub struct ClipboardTransferIntent {
    pub clipboard_content: String,
}

/// Mathematical image of a `ClipboardTransferIntent`.
pub struct ClipboardTransferIntentV {
    pub clipboard_content: Seq<char>,
}

/// What a sender wants to do with the connection.
pub enum Intent {
    FileTransfer(FileTransferIntent),
    Clipboard(ClipboardTransferIntent),
}

/// Mathematical image of an `Intent`.
pub enum IntentV {
    FileTransfer(FileTransferIntentV),
    Clipboard(ClipboardTransferIntentV),
}

/// The one message a sender frames before any payload byte: who it is and
/// what it intends.
pub struct TransferRequest {
    pub device: Option<Device>,
    pub intent: Option<Intent>,
}

/// Mathematical image of a `TransferRequest`.
pub struct TransferRequestV {
    pub device: Option<DeviceV>,
    pub intent: Option<IntentV>,
}

/// The one message a receiver frames in answer: acceptance or refusal.
pub struct TransferRequestResponse {
    pub accepted: bool,
}

/// What a discovery payload announces.
pub enum DiscoveryContent {
    /// "Here is who I am and how to reach me."
    DeviceConnectionInfo(DeviceConnectionInfo),
    /// "The device with this identifier went offline."
    OfflineDeviceId(String),
}

/// Mathematical image of a `DiscoveryContent`.
pub enum DiscoveryContentV {
    DeviceConnectionInfo(DeviceConnectionInfoV),
    OfflineDeviceId(Seq<char>),
}

/// The discovery payload broadcast out of band, e.g. as a BLE read response.
pub struct DeviceDiscoveryMessage {
    pub content: Option<DiscoveryContent>,
}

/// Mathematical image of a `DeviceDiscoveryMessage`.
pub struct DeviceDiscoveryMessageV {
    pub content: Option<DiscoveryContentV>,
}

impl View for FileTransferIntent {
    type V = FileTransferIntentV;

    open spec fn view(&self) -> FileTransferIntentV {
        FileTransferIntentV {
            file_name: match self.file_name {
                Some(ref n) => Some(n@),
                None => None,
            },
            file_size: self.file_size,
            file_count: self.file_count,
        }
    }
}

impl View for ClipboardTransferIntent {
    type V = ClipboardTransferIntentV;

    open spec fn view(&self) -> ClipboardTransferIntentV {
        ClipboardTransferIntentV { clipboard_content: self.clipboard_content@ }
    }
}

impl View for Intent {
    type V = IntentV;

    open spec fn view(&self) -> IntentV {
        match self {
            Intent::FileTransfer(f) => IntentV::FileTransfer(f@),
            Intent::Clipboard(c) => IntentV::Clipboard(c@),
        }
    }
}

impl View for TransferRequest {
    type V = TransferRequestV;

    open spec fn view(&self) -> TransferRequestV {
        TransferRequestV {
            device: match self.device {
                Some(ref d) => Some(d@),
                None => None,
            },
            intent: match self.intent {
                Some(ref i) => Some(i@),
                None => None,
            },
        }
    }
}

impl View for DiscoveryContent {
    type V = DiscoveryContentV;

    open spec fn view(&self) -> DiscoveryContentV {
        match self {
            DiscoveryContent::DeviceConnectionInfo(c) => DiscoveryContentV::DeviceConnectionInfo(
                c@,
            ),
            DiscoveryContent::OfflineDeviceId(s) => DiscoveryContentV::OfflineDeviceId(s@),
        }
    }
}

impl View for DeviceDiscoveryMessage {
    type V = DeviceDiscoveryMessageV;

    open spec fn view(&self) -> DeviceDiscoveryMessageV {
        DeviceDiscoveryMessageV {
            content: match self.content {
                Some(ref c) => Some(c@),
                None => None,
            },
        }
    }
}

impl FileTransferIntent {
    /// Field-for-field copy.
    pub fn duplicate(&self) -> (r: FileTransferIntent)
        ensures
            r == *self,
    {
        FileTransferIntent {
            file_name: match &self.file_name {
                Some(n) => Some(n.clone()),
                None => None,
            },
            file_size: self.file_size,
            file_count: self.file_count,
        }
    }
}

impl ClipboardTransferIntent {
    /// Field-for-field copy.
    pub fn duplicate(&self) -> (r: ClipboardTransferIntent)
        ensures
            r == *self,
    {
        ClipboardTransferIntent { clipboard_content: self.clipboard_content.clone() }
    }
}

impl Intent {
    /// Field-for-field copy.
    pub fn duplicate(&self) -> (r: Intent)
        ensures
            r == *self,
    {
        match self {
            Intent::FileTransfer(f) => Intent::FileTransfer(f.duplicate()),
            Intent::Clipboard(c) => Intent::Clipboard(c.duplicate()),
        }
    }
}

impl FileTransferIntentV {
    /// At least one input is offered, and a name is declared exactly for a
    /// single input.
    pub open spec fn wf(&self) -> bool {
        &&& self.file_count >= 1
        &&& (self.file_name is Some <==> self.file_count == 1)
    }
}

impl IntentV {
    pub open spec fn wf(&self) -> bool {
        match self {
            IntentV::FileTransfer(f) => f.wf(),
            IntentV::Clipboard(_) => true,
        }
    }
}

impl TransferRequestV {
    /// A request always names its sender and its intent.
    pub open spec fn wf(&self) -> bool {
        &&& self.device is Some
        &&& self.intent matches Some(i) && i.wf()
    }
}

} // verus!
