//! Errors shared by the client and the server.
use vstd::prelude::*;

verus! {

#[verifier::external_type_specification]
#[verifier::external_body]
pub struct ExIoError(std::io::Error);

/// Why a handshake failed.
#[derive(Clone, Copy, Debug, PartialEq, Eq, Structural)]
pub enum HandshakeError {
    InvalidContent,
    InvalidType,
    Unknown,
}

/// Why a well-formed packet was refused.
#[derive(Clone, Debug, PartialEq, Eq)]
pub enum PacketError {
    Handshake(HandshakeError),
    /// `lhs` names the kinds that were expected, `rhs` the kind that came.
    Unexpected { lhs: String, rhs: String },
}

impl From<HandshakeError> for PacketError {
    fn from(value: HandshakeError) -> (r: Self) {
        PacketError::Handshake(value)
    }
}

impl vstd::std_specs::convert::FromSpecImpl<HandshakeError> for PacketError {
    open spec fn obeys_from_spec() -> bool {
        true
    }

    open spec fn from_spec(v: HandshakeError) -> Self {
        PacketError::Handshake(v)
    }
}

/// Failures of the channels that connect the threads.
#[derive(Clone, Copy, Debug, PartialEq, Eq, Structural)]
pub enum SyncError {
    Send,
    TrySend,
    Recv,
    TryRecv,
    Disconnected,
}

impl SyncError {
    /// The error for a failed non-blocking send: `Disconnected` when the
    /// receiving side is gone, `TrySend` when the channel was full.
    pub fn from_try_send(disconnected: bool) -> (r: SyncError)
        ensures
            r == (if disconnected { SyncError::Disconnected } else { SyncError::TrySend }),
    {
        if disconnected {
            SyncError::Disconnected
        } else {
            SyncError::TrySend
        }
    }

    /// The error for a failed non-blocking receive: `Disconnected` when the
    /// sending side is gone, `TryRecv` when the channel was empty.
    pub fn from_try_recv(disconnected: bool) -> (r: SyncError)
        ensures
            r == (if disconnected { SyncError::Disconnected } else { SyncError::TryRecv }),
    {
        if disconnected {
            SyncError::Disconnected
        } else {
            SyncError::TryRecv
        }
    }
}

/// Why bytes could not be read as a packet.
#[derive(Clone, Copy, Debug, PartialEq, Eq, Structural)]
pub enum WireError {
    /// The bytes ended within the variant index or the length prefix.
    UnexpectedEnd,
    /// Fewer bytes followed the length prefix than it announced.
    TruncatedBody,
    /// The length prefix announced more bytes than a `usize` can count.
    SizeTooLarge(u64),
    /// The leading variant index names no packet variant.
    InvalidVariant(u32),
}

/// Every error of the library.
#[derive(Debug)]
pub enum PulseError {
    Io(std::io::Error),
    Json(WireError),
    Packet(PacketError),
    Sync(SyncError),
    Misc(String),
    Unknown,
}

impl From<std::io::Error> for PulseError {
    fn from(value: std::io::Error) -> (r: Self) {
        PulseError::Io(value)
    }
}

impl vstd::std_specs::convert::FromSpecImpl<std::io::Error> for PulseError {
    open spec fn obeys_from_spec() -> bool {
        true
    }

    open spec fn from_spec(v: std::io::Error) -> Self {
        PulseError::Io(v)
    }
}

impl From<WireError> for PulseError {
    fn from(value: WireError) -> (r: Self) {
        PulseError::Json(value)
    }
}

impl vstd::std_specs::convert::FromSpecImpl<WireError> for PulseError {
    open spec fn obeys_from_spec() -> bool {
        true
    }

    open spec fn from_spec(v: WireError) -> Self {
        PulseError::Json(v)
    }
}

impl From<PacketError> for PulseError {
    fn from(value: PacketError) -> (r: Self) {
        PulseError::Packet(value)
    }
}

impl vstd::std_specs::convert::FromSpecImpl<PacketError> for PulseError {
    open spec fn obeys_from_spec() -> bool {
        true
    }

    open spec fn from_spec(v: PacketError) -> Self {
        PulseError::Packet(v)
    }
}

impl From<SyncError> for PulseError {
    fn from(value: SyncError) -> (r: Self) {
        PulseError::Sync(value)
    }
}

impl vstd::std_specs::convert::FromSpecImpl<SyncError> for PulseError {
    open spec fn obeys_from_spec() -> bool {
        true
    }

    open spec fn from_spec(v: SyncError) -> Self {
        PulseError::Sync(v)
    }
}

impl PulseError {
    /// The error for a thread that panicked: `Misc` with the panic message
    /// when the payload was a string, `Unknown` otherwise.
    pub fn from_panic(message: Option<String>) -> (r: PulseError)
        ensures
            message matches Some(m) ==> r matches PulseError::Misc(s) && s@ == m@,
            message is None ==> r is Unknown,
    {
        match message {
            Some(m) => PulseError::Misc(m),
            None => PulseError::Unknown,
        }
    }
}

} // verus!
