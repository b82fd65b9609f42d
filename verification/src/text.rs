//! The messages that errors are shown with.
use vstd::prelude::*;
use vstd::string::StringExecFns;

use crate::client;
use crate::devices::CpalError;
use crate::error::{HandshakeError, PacketError, PulseError, SyncError, WireError};
use crate::server;

verus! {

/// A character that `Debug` for strings writes unchanged: printable ASCII
/// other than `"` and `\`.
pub open spec fn plain_char(c: char) -> bool {
    ' ' <= c && c <= '~' && c != '"' && c != '\\'
}

/// How `Debug` writes a string: quoted, with some characters escaped.
pub uninterp spec fn str_debug(s: Seq<char>) -> Seq<char>;

/// Calls `Debug` for `str` (through `format!("{:?}", ..)`).
/// Claimed: the result is the named text of `s`; when every character of `s`
/// is printable ASCII other than `"` and `\`, that text is `s` between double
/// quotes (such characters are not escaped). What other characters become is
/// left unsaid.
#[verifier::external_body]
fn debug_str(s: &str) -> (r: String)
    ensures
        r@ == str_debug(s@),
        (forall|i: int| 0 <= i < s@.len() ==> plain_char(#[trigger] s@[i])) ==> r@ == seq!['"']
            + s@ + seq!['"'],
{
    format!("{:?}", s)
}

/// Calls `Display` for `std::io::Error` (through `to_string`). Nothing is
/// claimed of the text: for errors of the system it comes from the system.
#[verifier::external_body]
fn io_error_text(e: &std::io::Error) -> (r: String) {
    e.to_string()
}

/// The text of one decimal digit.
pub open spec fn digit_text(d: nat) -> Seq<char> {
    if d == 0 {
        "0"@
    } else if d == 1 {
        "1"@
    } else if d == 2 {
        "2"@
    } else if d == 3 {
        "3"@
    } else if d == 4 {
        "4"@
    } else if d == 5 {
        "5"@
    } else if d == 6 {
        "6"@
    } else if d == 7 {
        "7"@
    } else if d == 8 {
        "8"@
    } else {
        "9"@
    }
}

/// A number in decimal, without leading zeros.
pub open spec fn decimal(n: nat) -> Seq<char>
    decreases n,
{
    if n < 10 {
        digit_text(n)
    } else {
        decimal(n / 10) + digit_text(n % 10)
    }
}

fn digit_str(d: u64) -> (r: &'static str)
    requires
        d < 10,
    ensures
        r@ == digit_text(d as nat),
{
    if d == 0 {
        "0"
    } else if d == 1 {
        "1"
    } else if d == 2 {
        "2"
    } else if d == 3 {
        "3"
    } else if d == 4 {
        "4"
    } else if d == 5 {
        "5"
    } else if d == 6 {
        "6"
    } else if d == 7 {
        "7"
    } else if d == 8 {
        "8"
    } else {
        "9"
    }
}

/// Appends `n` in decimal.
fn push_decimal(s: &mut String, n: u64)
    ensures
        final(s)@ == old(s)@ + decimal(n as nat),
    decreases n,
{
    if n >= 10 {
        push_decimal(s, n / 10);
    }
    s.append(digit_str(n % 10));
    proof {
        if n >= 10 {
            assert(final(s)@ =~= old(s)@ + (decimal((n / 10) as nat) + digit_text((n % 10) as nat)));
        }
    }
}

/// The message of a handshake error: the variant's name.
pub open spec fn handshake_text(e: HandshakeError) -> Seq<char> {
    match e {
        HandshakeError::InvalidContent => "InvalidContent"@,
        HandshakeError::InvalidType => "InvalidType"@,
        HandshakeError::Unknown => "Unknown"@,
    }
}

/// The message of a channel error: the variant's name.
pub open spec fn sync_text(e: SyncError) -> Seq<char> {
    match e {
        SyncError::Send => "Send"@,
        SyncError::TrySend => "TrySend"@,
        SyncError::Recv => "Recv"@,
        SyncError::TryRecv => "TryRecv"@,
        SyncError::Disconnected => "Disconnected"@,
    }
}

/// The message of a device error: the variant's name.
pub open spec fn cpal_text(e: CpalError) -> Seq<char> {
    match e {
        CpalError::HostUnavailable => "HostUnavailable"@,
        CpalError::DeviceName => "DeviceName"@,
        CpalError::DevicesError => "DevicesError"@,
        CpalError::SupportedConfig => "SupportedConfig"@,
        CpalError::DefaultConfig => "DefaultConfig"@,
        CpalError::BuildStream => "BuildStream"@,
        CpalError::InputUnavailable => "InputUnavailable"@,
        CpalError::OutputUnavailable => "OutputUnavailable"@,
        CpalError::Unexpected => "Unexpected"@,
    }
}

/// The message of bytes that are no packet.
pub open spec fn wire_text(e: WireError) -> Seq<char> {
    match e {
        WireError::UnexpectedEnd => "io error: unexpected end of file"@,
        WireError::TruncatedBody => "io error: "@,
        WireError::SizeTooLarge(n) => "Invalid size "@ + decimal(n as nat)
            + ": sizes must fit in a usize (0 to "@ + decimal(usize::MAX as nat) + ")"@,
        WireError::InvalidVariant(i) => "invalid value: integer `"@ + decimal(i as nat)
            + "`, expected variant index 0 <= i < 2"@,
    }
}

/// The message of a refused packet.
pub open spec fn packet_text(e: &PacketError) -> Seq<char> {
    match e {
        PacketError::Handshake(h) => "Handshake("@ + handshake_text(*h) + ")"@,
        PacketError::Unexpected { lhs, rhs } => "Expected "@ + str_debug(lhs@) + ", found "@
            + str_debug(rhs@),
    }
}

/// The message of an error of the library; `None` for an I/O error, whose
/// message is the system's.
pub open spec fn pulse_text(e: &PulseError) -> Option<Seq<char>> {
    match e {
        PulseError::Io(_) => None,
        PulseError::Json(w) => Some(wire_text(*w)),
        PulseError::Packet(p) => Some(packet_text(p)),
        PulseError::Sync(s) => Some(sync_text(*s)),
        PulseError::Misc(m) => Some("Misc: "@ + m@),
        PulseError::Unknown => Some("Unknown: An unexpected error has ocurred"@),
    }
}

impl HandshakeError {
    /// The message this error is shown with.
    pub fn message(&self) -> (r: String)
        ensures
            r@ == handshake_text(*self),
    {
        match self {
            HandshakeError::InvalidContent => "InvalidContent".to_owned(),
            HandshakeError::InvalidType => "InvalidType".to_owned(),
            HandshakeError::Unknown => "Unknown".to_owned(),
        }
    }
}

impl SyncError {
    /// The message this error is shown with.
    pub fn message(&self) -> (r: String)
        ensures
            r@ == sync_text(*self),
    {
        match self {
            SyncError::Send => "Send".to_owned(),
            SyncError::TrySend => "TrySend".to_owned(),
            SyncError::Recv => "Recv".to_owned(),
            SyncError::TryRecv => "TryRecv".to_owned(),
            SyncError::Disconnected => "Disconnected".to_owned(),
        }
    }
}

impl CpalError {
    /// The message this error is shown with.
    pub fn message(&self) -> (r: String)
        ensures
            r@ == cpal_text(*self),
    {
        match self {
            CpalError::HostUnavailable => "HostUnavailable".to_owned(),
            CpalError::DeviceName => "DeviceName".to_owned(),
            CpalError::DevicesError => "DevicesError".to_owned(),
            CpalError::SupportedConfig => "SupportedConfig".to_owned(),
            CpalError::DefaultConfig => "DefaultConfig".to_owned(),
            CpalError::BuildStream => "BuildStream".to_owned(),
            CpalError::InputUnavailable => "InputUnavailable".to_owned(),
            CpalError::OutputUnavailable => "OutputUnavailable".to_owned(),
            CpalError::Unexpected => "Unexpected".to_owned(),
        }
    }
}

impl WireError {
    /// The message this error is shown with.
    pub fn message(&self) -> (r: String)
        ensures
            r@ == wire_text(*self),
    {
        match self {
            WireError::UnexpectedEnd => "io error: unexpected end of file".to_owned(),
            WireError::TruncatedBody => "io error: ".to_owned(),
            WireError::SizeTooLarge(n) => {
                let mut s = "Invalid size ".to_owned();
                push_decimal(&mut s, *n);
                s.append(": sizes must fit in a usize (0 to ");
                push_decimal(&mut s, usize::MAX as u64);
                s.append(")");
                s
            },
            WireError::InvalidVariant(i) => {
                let mut s = "invalid value: integer `".to_owned();
                push_decimal(&mut s, *i as u64);
                s.append("`, expected variant index 0 <= i < 2");
                s
            },
        }
    }
}

impl PacketError {
    /// The message this error is shown with.
    pub fn message(&self) -> (r: String)
        ensures
            r@ == packet_text(self),
    {
        match self {
            PacketError::Handshake(h) => {
                let mut s = "Handshake(".to_owned();
                let name = h.message();
                s.append(name.as_str());
                s.append(")");
                s
            },
            PacketError::Unexpected { lhs, rhs } => {
                let mut s = "Expected ".to_owned();
                let l = debug_str(lhs.as_str());
                s.append(l.as_str());
                s.append(", found ");
                let f = debug_str(rhs.as_str());
                s.append(f.as_str());
                s
            },
        }
    }
}

impl PulseError {
    /// The message this error is shown with; for an I/O error, the system's.
    pub fn message(&self) -> (r: String)
        ensures
            pulse_text(self) matches Some(t) ==> r@ == t,
    {
        match self {
            PulseError::Io(e) => io_error_text(e),
            PulseError::Json(w) => w.message(),
            PulseError::Packet(p) => p.message(),
            PulseError::Sync(s) => s.message(),
            PulseError::Misc(m) => {
                let mut s = "Misc: ".to_owned();
                s.append(m.as_str());
                s
            },
            PulseError::Unknown => "Unknown: An unexpected error has ocurred".to_owned(),
        }
    }
}

impl client::Error {
    /// The message this error is shown with: that of the error it wraps.
    pub fn message(&self) -> (r: String)
        ensures
            self matches client::Error::Cpal(c) ==> r@ == cpal_text(*c),
            self matches client::Error::Pulse(p) ==> (pulse_text(p) matches Some(t) ==> r@ == t),
    {
        match self {
            client::Error::Cpal(c) => c.message(),
            client::Error::Pulse(p) => p.message(),
        }
    }
}

impl server::Error {
    /// The message this error is shown with: that of the error it wraps.
    pub fn message(&self) -> (r: String)
        ensures
            self matches server::Error::Pulse(p) ==> (pulse_text(p) matches Some(t) ==> r@ == t),
    {
        match self {
            server::Error::Pulse(p) => p.message(),
        }
    }
}

} // verus!
