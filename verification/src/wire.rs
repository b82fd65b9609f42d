//! Little-endian integer layout used on the wire, and the calls into
//! bincode (fixed-width integers, little endian, `u64` length prefixes)
//! that produce and read it.
use vstd::prelude::*;

verus! {

#[verifier::external_type_specification]
#[verifier::external_body]
pub struct ExBincodeErrorKind(bincode::ErrorKind);

/// `256^n`: the number of values that `n` bytes can hold.
pub open spec fn byte_bound(n: nat) -> nat
    decreases n,
{
    if n == 0 {
        1
    } else {
        256 * byte_bound((n - 1) as nat)
    }
}

/// The `n` low bytes of `v`, least significant first.
pub open spec fn le_bytes(v: nat, n: nat) -> Seq<u8>
    decreases n,
{
    if n == 0 {
        Seq::empty()
    } else {
        seq![(v % 256) as u8] + le_bytes(v / 256, (n - 1) as nat)
    }
}

/// The number that a byte sequence spells out, least significant byte first.
pub open spec fn le_value(s: Seq<u8>) -> nat
    decreases s.len(),
{
    if s.len() == 0 {
        0
    } else {
        s[0] as nat + 256 * le_value(s.drop_first())
    }
}

/// The four bytes of a `u32` as bincode writes it.
pub open spec fn u32_le(v: u32) -> Seq<u8> {
    le_bytes(v as nat, 4)
}

/// The eight bytes of a `u64` as bincode writes it.
pub open spec fn u64_le(v: u64) -> Seq<u8> {
    le_bytes(v as nat, 8)
}

/// The length prefix that bincode puts in front of a byte string.
pub open spec fn length_prefix(len: nat) -> Seq<u8> {
    le_bytes(len, 8)
}

pub proof fn lemma_le_bytes_len(v: nat, n: nat)
    ensures
        le_bytes(v, n).len() == n,
    decreases n,
{
    if n > 0 {
        lemma_le_bytes_len(v / 256, (n - 1) as nat);
    }
}

/// Reading back the `n` bytes written for `v` gives `v`, when `v` fits.
pub proof fn lemma_le_value_of_bytes(v: nat, n: nat)
    requires
        v < byte_bound(n),
    ensures
        le_value(le_bytes(v, n)) == v,
    decreases n,
{
    if n > 0 {
        let rest = le_bytes(v / 256, (n - 1) as nat);
        let whole = le_bytes(v, n);
        assert(whole == seq![(v % 256) as u8] + rest);
        assert(whole.drop_first() =~= rest);
        let b = byte_bound((n - 1) as nat);
        assert(v / 256 < b) by (nonlinear_arith)
            requires
                v < 256 * b,
        ;
        lemma_le_value_of_bytes(v / 256, (n - 1) as nat);
        assert(v == v % 256 + 256 * (v / 256)) by (nonlinear_arith);
    }
}

/// Writing out the number that `s` spells, in `s.len()` bytes, gives `s` back.
pub proof fn lemma_le_bytes_of_value(s: Seq<u8>)
    ensures
        le_bytes(le_value(s), s.len()) == s,
    decreases s.len(),
{
    if s.len() > 0 {
        let t = s.drop_first();
        lemma_le_bytes_of_value(t);
        let x = s[0] as nat;
        let r = le_value(t);
        assert((x + 256 * r) % 256 == x && (x + 256 * r) / 256 == r) by (nonlinear_arith)
            requires
                x < 256,
        ;
        assert(le_bytes(le_value(s), s.len()) =~= seq![s[0]] + t);
        assert(seq![s[0]] + t =~= s);
    }
}

pub proof fn lemma_u32_roundtrip(v: u32)
    ensures
        u32_le(v).len() == 4,
        le_value(u32_le(v)) == v as nat,
{
    lemma_le_bytes_len(v as nat, 4);
    reveal_with_fuel(byte_bound, 5);
    assert(byte_bound(4) == 4294967296);
    lemma_le_value_of_bytes(v as nat, 4);
}

pub proof fn lemma_length_prefix_roundtrip(len: nat)
    requires
        len <= u64::MAX,
    ensures
        length_prefix(len).len() == 8,
        le_value(length_prefix(len)) == len,
{
    lemma_le_bytes_len(len, 8);
    reveal_with_fuel(byte_bound, 9);
    assert(byte_bound(8) == 18446744073709551616);
    lemma_le_value_of_bytes(len, 8);
}

/// Calls `bincode::serialize` on a `u32`.
/// Claimed: the result is `Ok` and holds the four little-endian bytes of `v`
/// (bincode 1.3's default options use fixed-width little-endian integers and
/// write into a `Vec`, a path without an error).
#[verifier::external_body]
pub(crate) fn serialize_u32(v: u32) -> (r: Result<Vec<u8>, Box<bincode::ErrorKind>>)
    ensures
        r is Ok,
        r matches Ok(bytes) ==> bytes@ == u32_le(v),
{
    bincode::serialize(&v)
}

/// Calls `bincode::serialize` on a byte string (as `serde_bytes::Bytes`).
/// Claimed: the result is `Ok` and holds the length as eight little-endian
/// bytes followed by the bytes themselves.
#[verifier::external_body]
pub(crate) fn serialize_bytes(v: &[u8]) -> (r: Result<Vec<u8>, Box<bincode::ErrorKind>>)
    ensures
        r is Ok,
        r matches Ok(bytes) ==> bytes@ == length_prefix(v@.len()) + v@,
{
    bincode::serialize(serde_bytes::Bytes::new(v))
}

/// Calls `bincode::deserialize::<u32>`.
/// Claimed: it succeeds exactly when at least four bytes are given, and then
/// returns the number that the first four spell, least significant first;
/// bytes after them are ignored.
#[verifier::external_body]
pub(crate) fn deserialize_u32(buf: &[u8]) -> (r: Result<u32, Box<bincode::ErrorKind>>)
    ensures
        r is Ok <==> buf@.len() >= 4,
        r matches Ok(v) ==> v as nat == le_value(buf@.take(4)),
{
    bincode::deserialize::<u32>(buf)
}

/// Calls `bincode::deserialize::<u64>`.
/// Claimed: it succeeds exactly when at least eight bytes are given, and then
/// returns the number that the first eight spell, least significant first;
/// bytes after them are ignored.
#[verifier::external_body]
pub(crate) fn deserialize_u64(buf: &[u8]) -> (r: Result<u64, Box<bincode::ErrorKind>>)
    ensures
        r is Ok <==> buf@.len() >= 8,
        r matches Ok(v) ==> v as nat == le_value(buf@.take(8)),
{
    bincode::deserialize::<u64>(buf)
}

/// Calls `bincode::deserialize::<serde_bytes::ByteBuf>` and unwraps the buffer.
/// Claimed: it succeeds exactly when an eight-byte length `n` is present and
/// at least `n` bytes follow it, and then returns those `n` bytes; bytes after
/// them are ignored.
#[verifier::external_body]
pub(crate) fn deserialize_byte_buf(buf: &[u8]) -> (r: Result<Vec<u8>, Box<bincode::ErrorKind>>)
    ensures
        r is Ok <==> (buf@.len() >= 8 && le_value(buf@.take(8)) <= buf@.len() - 8),
        r matches Ok(v) ==> v@ == buf@.subrange(8, 8 + le_value(buf@.take(8)) as int),
{
    bincode::deserialize::<serde_bytes::ByteBuf>(buf).map(serde_bytes::ByteBuf::into_vec)
}

} // verus!
