//! Packets, the set of packet kinds that a reader accepts, and the byte
//! layout in which packets travel.
use vstd::prelude::*;

use crate::error::{PacketError, PulseError, WireError};
use crate::wire::{
    deserialize_byte_buf, deserialize_u32, deserialize_u64, le_value, lemma_le_bytes_of_value,
    lemma_length_prefix_roundtrip, lemma_u32_roundtrip, length_prefix,
    serialize_bytes, serialize_u32, u32_le,
};

verus! {

/// The largest datagram a socket reads in one go (the largest UDP payload
/// over IPv4).
pub const PACKET_SIZE: usize = 65507;

/// A zeroed buffer that a whole datagram fits in.
pub fn init_buf() -> (r: Vec<u8>)
    ensures
        r@ == Seq::new(PACKET_SIZE as nat, |i: int| 0u8),
{
    let r = vec![0u8; PACKET_SIZE];
    assert(r@ =~= Seq::new(PACKET_SIZE as nat, |i: int| 0u8));
    r
}

/// The first `size` bytes of a buffer: the part a read filled.
pub fn uninit_buf(buf: &[u8], size: usize) -> (r: &[u8])
    requires
        size <= buf@.len(),
    ensures
        r@ == buf@.take(size as int),
{
    &buf[0..size]
}

/// A message between a client and the server.
#[derive(Clone, Debug, PartialEq, Eq)]
pub enum Packet {
    /// Encoded audio.
    Data(Vec<u8>),
    Ping,
}

/// What a packet holds, as mathematical values.
pub enum PacketView {
    Data(Seq<u8>),
    Ping,
}

impl View for Packet {
    type V = PacketView;

    open spec fn view(&self) -> PacketView {
        match self {
            Packet::Data(d) => PacketView::Data(d@),
            Packet::Ping => PacketView::Ping,
        }
    }
}

/// A set of packet kinds: one flag per variant of [`Packet`].
#[derive(Clone, Copy, Debug, PartialEq, Eq, Structural)]
pub struct PacketKind {
    pub data: bool,
    pub ping: bool,
}

/// The kind of a packet: the set that holds its variant alone.
pub open spec fn kind_of(p: PacketView) -> PacketKind {
    match p {
        PacketView::Data(_) => PacketKind { data: true, ping: false },
        PacketView::Ping => PacketKind { data: false, ping: true },
    }
}

/// `a` holds every kind that `b` holds.
pub open spec fn kind_includes(a: PacketKind, b: PacketKind) -> bool {
    (b.data ==> a.data) && (b.ping ==> a.ping)
}

/// How a set of kinds is written in error messages: the flags that are set,
/// joined by `" | "`, or `0x0` for the empty set.
pub open spec fn kind_name(k: PacketKind) -> Seq<char> {
    if k.data && k.ping {
        "PacketKind(Data | Ping)"@
    } else if k.data {
        "PacketKind(Data)"@
    } else if k.ping {
        "PacketKind(Ping)"@
    } else {
        "PacketKind(0x0)"@
    }
}

/// The bit that a set of kinds has for each flag: `Data` is bit 0, `Ping` bit 1.
pub open spec fn kind_bits(k: PacketKind) -> nat {
    (if k.data { 1nat } else { 0nat }) + (if k.ping { 2nat } else { 0nat })
}

impl PacketKind {
    /// The set holding `Data` alone.
    pub fn data_only() -> (r: PacketKind)
        ensures
            r == (PacketKind { data: true, ping: false }),
    {
        PacketKind { data: true, ping: false }
    }

    /// The set holding `Ping` alone.
    pub fn ping_only() -> (r: PacketKind)
        ensures
            r == (PacketKind { data: false, ping: true }),
    {
        PacketKind { data: false, ping: true }
    }

    /// The set holding no kind.
    pub fn empty() -> (r: PacketKind)
        ensures
            r == (PacketKind { data: false, ping: false }),
    {
        PacketKind { data: false, ping: false }
    }

    /// The set holding every kind.
    pub fn all() -> (r: PacketKind)
        ensures
            r == (PacketKind { data: true, ping: true }),
    {
        PacketKind { data: true, ping: true }
    }

    /// Whether the set holds no kind.
    pub fn is_empty(&self) -> (r: bool)
        ensures
            r == (!self.data && !self.ping),
    {
        !self.data && !self.ping
    }

    /// Whether `self` holds every kind that `other` holds.
    pub fn contains(&self, other: PacketKind) -> (r: bool)
        ensures
            r == kind_includes(*self, other),
    {
        (!other.data || self.data) && (!other.ping || self.ping)
    }

    /// The kinds held by either set.
    pub fn union(&self, other: PacketKind) -> (r: PacketKind)
        ensures
            r == (PacketKind { data: self.data || other.data, ping: self.ping || other.ping }),
    {
        PacketKind { data: self.data || other.data, ping: self.ping || other.ping }
    }

    /// The set as bits.
    pub fn bits(&self) -> (r: u8)
        ensures
            r == kind_bits(*self),
    {
        let d: u8 = if self.data { 1 } else { 0 };
        let p: u8 = if self.ping { 2 } else { 0 };
        d + p
    }

    /// The set with the given bits, or `None` when a bit names no kind.
    pub fn from_bits(bits: u8) -> (r: Option<PacketKind>)
        ensures
            bits < 4 ==> (r matches Some(k) && kind_bits(k) == bits),
            bits >= 4 ==> r is None,
    {
        if bits < 4 {
            Some(PacketKind { data: bits % 2 == 1, ping: bits >= 2 })
        } else {
            None
        }
    }

    /// The name of the set in error messages.
    pub fn name(&self) -> (r: String)
        ensures
            r@ == kind_name(*self),
    {
        if self.data && self.ping {
            "PacketKind(Data | Ping)".to_owned()
        } else if self.data {
            "PacketKind(Data)".to_owned()
        } else if self.ping {
            "PacketKind(Ping)".to_owned()
        } else {
            "PacketKind(0x0)".to_owned()
        }
    }
}

/// The bytes that a packet travels as: the variant index as a little-endian
/// `u32`; for `Data`, then the length of the audio as a little-endian `u64`
/// and the audio itself.
pub open spec fn spec_encode(p: PacketView) -> Seq<u8> {
    match p {
        PacketView::Data(d) => u32_le(0) + length_prefix(d.len()) + d,
        PacketView::Ping => u32_le(1),
    }
}

/// The packet that a byte string starts with. Bytes after the packet are
/// ignored.
pub open spec fn spec_decode(s: Seq<u8>) -> Result<PacketView, WireError> {
    if s.len() < 4 {
        Err(WireError::UnexpectedEnd)
    } else {
        let tag = le_value(s.take(4));
        if tag == 0 {
            let body = s.skip(4);
            if body.len() < 8 {
                Err(WireError::UnexpectedEnd)
            } else {
                let n = le_value(body.take(8));
                if n > usize::MAX {
                    Err(WireError::SizeTooLarge(n as u64))
                } else if n > body.len() - 8 {
                    Err(WireError::TruncatedBody)
                } else {
                    Ok(PacketView::Data(body.subrange(8, 8 + n as int)))
                }
            }
        } else if tag == 1 {
            Ok(PacketView::Ping)
        } else {
            Err(WireError::InvalidVariant(tag as u32))
        }
    }
}

impl Packet {
    /// The kind of this packet.
    pub fn kind(&self) -> (r: PacketKind)
        ensures
            r == kind_of(self@),
    {
        match self {
            Packet::Data(_) => PacketKind { data: true, ping: false },
            Packet::Ping => PacketKind { data: false, ping: true },
        }
    }

    /// The bytes this packet travels as.
    pub fn encode(&self) -> (r: Vec<u8>)
        ensures
            r@ == spec_encode(self@),
    {
        match self {
            Packet::Data(d) => {
                let mut out = match serialize_u32(0) {
                    Ok(b) => b,
                    Err(_) => {
                        proof {
                            assert(false);
                        }
                        Vec::new()
                    },
                };
                let mut body = match serialize_bytes(d.as_slice()) {
                    Ok(b) => b,
                    Err(_) => {
                        proof {
                            assert(false);
                        }
                        Vec::new()
                    },
                };
                out.append(&mut body);
                proof {
                    assert(out@ =~= spec_encode(self@));
                }
                out
            },
            Packet::Ping => match serialize_u32(1) {
                Ok(b) => b,
                Err(_) => {
                    proof {
                        assert(false);
                    }
                    Vec::new()
                },
            },
        }
    }

    /// The packet that `buf` starts with.
    pub fn decode(buf: &[u8]) -> (r: Result<Packet, WireError>)
        ensures
            match spec_decode(buf@) {
                Ok(p) => r matches Ok(q) && q@ == p,
                Err(e) => r == Err::<Packet, WireError>(e),
            },
    {
        let tag = match deserialize_u32(buf) {
            Ok(t) => t,
            Err(_) => {
                return Err(WireError::UnexpectedEnd);
            },
        };
        if tag == 0 {
            let body = &buf[4..buf.len()];
            assert(body@ =~= buf@.skip(4));
            let n = match deserialize_u64(body) {
                Ok(n) => n,
                Err(_) => {
                    return Err(WireError::UnexpectedEnd);
                },
            };
            match deserialize_byte_buf(body) {
                Ok(d) => Ok(Packet::Data(d)),
                Err(_) => {
                    if n > usize::MAX as u64 {
                        Err(WireError::SizeTooLarge(n))
                    } else {
                        Err(WireError::TruncatedBody)
                    }
                },
            }
        } else if tag == 1 {
            Ok(Packet::Ping)
        } else {
            Err(WireError::InvalidVariant(tag))
        }
    }
}

/// What a reader that accepts the kinds in `kind` makes of `buf`.
pub open spec fn spec_recv_ok(buf: Seq<u8>, kind: PacketKind) -> bool {
    spec_decode(buf) matches Ok(p) && kind_includes(kind, kind_of(p))
}

/// Reads the packet that `buf` starts with, and refuses it unless its kind is
/// one of `kind`.
pub fn recv(buf: &[u8], kind: PacketKind) -> (r: Result<Packet, PulseError>)
    ensures
        match spec_decode(buf@) {
            Err(e) => r matches Err(PulseError::Json(f)) && f == e,
            Ok(p) => if kind_includes(kind, kind_of(p)) {
                r matches Ok(q) && q@ == p
            } else {
                r matches Err(PulseError::Packet(PacketError::Unexpected { lhs, rhs }))
                    && lhs@ == kind_name(kind) && rhs@ == kind_name(kind_of(p))
            },
        },
{
    let packet = match Packet::decode(buf) {
        Ok(p) => p,
        Err(e) => {
            return Err(PulseError::Json(e));
        },
    };
    let found = packet.kind();
    if !kind.contains(found) {
        return Err(PulseError::Packet(PacketError::unexpected(found, kind)));
    }
    Ok(packet)
}

impl PacketError {
    /// The error for a packet of kind `found` where only the kinds in
    /// `expected` are accepted.
    pub fn unexpected(found: PacketKind, expected: PacketKind) -> (r: PacketError)
        ensures
            r matches PacketError::Unexpected { lhs, rhs } && lhs@ == kind_name(expected) && rhs@
                == kind_name(found),
    {
        PacketError::Unexpected { lhs: expected.name(), rhs: found.name() }
    }
}

/// Reading the bytes of a packet gives the packet back, whatever follows them.
pub proof fn lemma_decode_encode(p: PacketView, rest: Seq<u8>)
    requires
        p matches PacketView::Data(d) ==> d.len() <= usize::MAX,
    ensures
        spec_decode(spec_encode(p) + rest) == Ok::<PacketView, WireError>(p),
{
    let s = spec_encode(p) + rest;
    lemma_u32_roundtrip(0);
    lemma_u32_roundtrip(1);
    match p {
        PacketView::Data(d) => {
            lemma_length_prefix_roundtrip(d.len());
            assert(s.take(4) =~= u32_le(0));
            let body = s.skip(4);
            assert(body =~= length_prefix(d.len()) + d + rest);
            assert(body.take(8) =~= length_prefix(d.len()));
            assert(body.subrange(8, 8 + d.len() as int) =~= d);
        },
        PacketView::Ping => {
            assert(s.take(4) =~= u32_le(1));
        },
    }
}

/// Bytes that read as a packet start with that packet's bytes.
pub proof fn lemma_encode_decode(s: Seq<u8>)
    requires
        spec_decode(s) is Ok,
    ensures
        spec_decode(s) matches Ok(p) && spec_encode(p) == s.take(spec_encode(p).len() as int),
{
    let tag_bytes = s.take(4);
    lemma_le_bytes_of_value(tag_bytes);
    let tag = le_value(tag_bytes);
    if tag == 0 {
        assert(u32_le(0) == crate::wire::le_bytes(tag, 4));
        let body = s.skip(4);
        let len_bytes = body.take(8);
        lemma_le_bytes_of_value(len_bytes);
        let n = le_value(len_bytes);
        let d = body.subrange(8, 8 + n as int);
        assert(d.len() == n);
        assert(length_prefix(d.len()) == len_bytes);
        assert(spec_encode(PacketView::Data(d)) =~= s.take(12 + n as int));
    } else {
        assert(u32_le(1) == crate::wire::le_bytes(tag, 4));
        assert(spec_encode(PacketView::Ping) =~= s.take(4));
    }
}

/// A reader accepts the bytes of a packet exactly when the packet's kind is
/// one it accepts.
pub proof fn lemma_recv_accepts(p: PacketView, kind: PacketKind)
    requires
        p matches PacketView::Data(d) ==> d.len() <= usize::MAX,
    ensures
        spec_recv_ok(spec_encode(p), kind) <==> kind_includes(kind, kind_of(p)),
{
    lemma_decode_encode(p, Seq::empty());
    assert(spec_encode(p) + Seq::<u8>::empty() =~= spec_encode(p));
}

/// A reader that accepts no kind refuses everything.
pub proof fn lemma_recv_empty_refuses(buf: Seq<u8>)
    ensures
        !spec_recv_ok(buf, PacketKind { data: false, ping: false }),
{
}

/// Inclusion of kind sets is an order: every set includes itself, inclusion
/// is transitive, two sets that include each other are equal, the empty set
/// is included in every set, and the set of all kinds includes every set.
pub proof fn lemma_kind_order(a: PacketKind, b: PacketKind, c: PacketKind)
    ensures
        kind_includes(a, a),
        kind_includes(a, b) && kind_includes(b, c) ==> kind_includes(a, c),
        kind_includes(a, b) && kind_includes(b, a) ==> a == b,
        kind_includes(a, PacketKind { data: false, ping: false }),
        kind_includes(PacketKind { data: true, ping: true }, a),
{
}

/// A set includes another exactly when it has each flag the other has, and
/// the union of two sets is the smallest set including both.
pub proof fn lemma_kind_flags(a: PacketKind, b: PacketKind, c: PacketKind)
    ensures
        kind_includes(a, b) <==> ((b.data ==> a.data) && (b.ping ==> a.ping)),
        ({
            let u = PacketKind { data: a.data || b.data, ping: a.ping || b.ping };
            &&& kind_includes(u, a)
            &&& kind_includes(u, b)
            &&& (kind_includes(c, a) && kind_includes(c, b) ==> kind_includes(c, u))
        }),
        kind_includes(a, b) <==> (PacketKind { data: a.data || b.data, ping: a.ping || b.ping }) == a,
{
}

/// A reader that accepts a packet's own kind accepts the bytes of that packet.
pub proof fn lemma_recv_own_kind(p: PacketView)
    requires
        p matches PacketView::Data(d) ==> d.len() <= usize::MAX,
    ensures
        spec_recv_ok(spec_encode(p), kind_of(p)),
{
    lemma_recv_accepts(p, kind_of(p));
    lemma_kind_order(kind_of(p), kind_of(p), kind_of(p));
}

/// The bytes of `Ping` are the variant index 1 as four little-endian bytes.
pub proof fn lemma_ping_layout()
    ensures
        spec_encode(PacketView::Ping) == seq![1u8, 0, 0, 0],
{
    reveal_with_fuel(crate::wire::le_bytes, 5);
    assert(spec_encode(PacketView::Ping) =~= seq![1u8, 0, 0, 0]);
}

/// The bytes of `Data(d)`: four zero bytes (variant index 0), then eight
/// bytes that spell the length of `d` least significant first, then `d`
/// itself, unchanged.
pub proof fn lemma_data_layout(d: Seq<u8>)
    requires
        d.len() <= usize::MAX,
    ensures
        spec_encode(PacketView::Data(d)).len() == 12 + d.len(),
        spec_encode(PacketView::Data(d)).take(4) == seq![0u8, 0, 0, 0],
        le_value(spec_encode(PacketView::Data(d)).subrange(4, 12)) == d.len(),
        spec_encode(PacketView::Data(d)).skip(12) == d,
        forall|i: int| 0 <= i < d.len() ==> #[trigger] spec_encode(PacketView::Data(d))[12 + i] == d[i],
{
    reveal_with_fuel(crate::wire::le_bytes, 5);
    lemma_length_prefix_roundtrip(d.len());
    let e = spec_encode(PacketView::Data(d));
    assert(u32_le(0) =~= seq![0u8, 0, 0, 0]);
    assert(e.take(4) =~= seq![0u8, 0, 0, 0]);
    assert(e.subrange(4, 12) =~= length_prefix(d.len()));
    assert(e.skip(12) =~= d);
}

/// What a successful read takes from the bytes: for `Data(d)`, four zero
/// bytes, eight bytes that spell the length of `d`, and `d` exactly as it
/// follows them; for `Ping`, the bytes `1, 0, 0, 0`.
pub proof fn lemma_decode_layout(s: Seq<u8>)
    ensures
        spec_decode(s) matches Ok(PacketView::Data(d)) ==> {
            &&& s.len() >= 12 + d.len()
            &&& s.take(4) == seq![0u8, 0, 0, 0]
            &&& le_value(s.subrange(4, 12)) == d.len()
            &&& d == s.subrange(12, 12 + d.len() as int)
        },
        spec_decode(s) matches Ok(PacketView::Ping) ==> s.take(4) == seq![1u8, 0, 0, 0],
{
    if s.len() >= 4 {
        let t = s.take(4);
        lemma_le_bytes_of_value(t);
        reveal_with_fuel(crate::wire::le_bytes, 5);
        let tag = le_value(t);
        if tag == 0 {
            assert(crate::wire::le_bytes(0, 4) =~= seq![0u8, 0, 0, 0]);
            let body = s.skip(4);
            if body.len() >= 8 {
                assert(body.take(8) =~= s.subrange(4, 12));
                let n = le_value(body.take(8));
                if n <= body.len() - 8 {
                    assert(body.subrange(8, 8 + n as int) =~= s.subrange(12, 12 + n as int));
                }
            }
        } else if tag == 1 {
            assert(crate::wire::le_bytes(1, 4) =~= seq![1u8, 0, 0, 0]);
        }
    }
}

} // verus!
