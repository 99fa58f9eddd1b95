//! Error types of the engine.

use vstd::prelude::*;

verus! {

/// Everything that can go wrong while establishing an outbound connection or
/// negotiating a transfer, before any payload byte is exchanged.
#[derive(Debug)]
pub enum ConnectErrors {
    /// The device directory could not resolve the receiver.
    FailedToGetConnectionDetails,
    /// The receiver's reachability info carries no TCP endpoint.
    FailedToGetTcpDetails,
    /// The TCP endpoint could not be turned into a socket address.
    FailedToGetSocketAddress,
    /// Dialing the TCP endpoint failed.
    FailedToOpenTcpStream,
    /// The receiver's reachability info carries no BLE endpoint.
    FailedToGetBleDetails,
    /// No platform capability for opening BLE channels was registered.
    InternalBleHandlerNotAvailable,
    /// The platform never delivered the requested BLE channel.
    FailedToEstablishBleConnection,
    /// The secure-channel handshake failed.
    FailedToEncryptStream { error: String },
    /// No well-formed response to the transfer request arrived.
    FailedToGetTransferRequestResponse { error: String },
    /// The receiver answered the transfer request with a refusal.
    Declined,
}

/// Failures while setting up the discovery side.
#[derive(Debug)]
pub enum DiscoverySetupError {
    /// A platform discovery capability was required but absent.
    UnableToSetupBluetooth,
}

/// An I/O failure reported by the embedding application, reduced to its
/// description.
#[derive(Debug)]
pub enum ExternalIOError {
    IOError { reason: String },
}

impl ExternalIOError {
    /// Wraps the description of an I/O failure.
    pub fn from_reason(reason: String) -> (r: Self)
        ensures
            r == (ExternalIOError::IOError { reason }),
    {
        ExternalIOError::IOError { reason }
    }
}

/// Failures of `unzip_file`: the archive bytes are not a well-formed archive,
/// or an entry would land outside the destination root.
#[derive(Debug)]
pub enum ArchiveError {
    /// The byte stream is not a well-formed archive.
    MalformedArchive,
    /// An entry's relative path is absolute, empty, or climbs out of the
    /// destination root.
    UnsafeEntryPath,
}

} // verus!
