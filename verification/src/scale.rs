//! The SCALE adapter: the encoded-value newtype, compact-integer
//! encoding, and the metadata prefix envelope (magic bytes plus version
//! byte).

use vstd::prelude::*;
use crate::error::Error;

verus! {

/// Newtype struct around a `Vec<u8>` (vector of bytes) holding an
/// already SCALE-encoded value.
#[derive(Debug, PartialEq, Eq)]
pub struct Encoded(pub Vec<u8>);

impl Encoded {
    /// The encoded bytes of the wrapped value: the bytes themselves.
    pub fn encode(&self) -> (r: Vec<u8>)
        ensures
            r@ == self.0@,
    {
        let mut out: Vec<u8> = Vec::new();
        let mut i: usize = 0;
        while i < self.0.len()
            invariant
                i <= self.0@.len(),
                out@ == self.0@.subrange(0, i as int),
            decreases self.0@.len() - i,
        {
            out.push(self.0[i]);
            proof {
                assert(out@ =~= self.0@.subrange(0, i as int + 1));
            }
            i = i + 1;
        }
        proof {
            assert(out@ =~= self.0@);
        }
        out
    }
}

/// `n` written little-endian over `count` bytes.
pub open spec fn le_bytes(n: nat, count: nat) -> Seq<u8>
    decreases count,
{
    if count == 0 {
        Seq::empty()
    } else {
        seq![(n % 256) as u8] + le_bytes(n / 256, (count - 1) as nat)
    }
}

/// The least number of bytes that hold `n`.
pub open spec fn byte_len(n: nat) -> nat
    decreases n,
{
    if n < 256 {
        1
    } else {
        1 + byte_len(n / 256)
    }
}

/// The SCALE compact encoding of an integer: the two low bits of the
/// first byte select the mode (one, two or four bytes with the value
/// shifted left twice, or a length byte followed by the value's minimal
/// little-endian bytes).
pub open spec fn compact_bytes(n: u64) -> Seq<u8> {
    if n < 64 {
        seq![(n * 4) as u8]
    } else if n < 16384 {
        le_bytes((n * 4 + 1) as nat, 2)
    } else if n < 1073741824 {
        le_bytes((n * 4 + 2) as nat, 4)
    } else {
        seq![((byte_len(n as nat) - 4) * 4 + 3) as u8] + le_bytes(n as nat, byte_len(n as nat))
    }
}

/// The SCALE compact encoding of a 128-bit integer: the same four modes
/// as `compact_bytes`, with the big mode carrying up to sixteen bytes.
pub open spec fn compact_bytes_u128(n: u128) -> Seq<u8> {
    if n < 64 {
        seq![(n * 4) as u8]
    } else if n < 16384 {
        le_bytes((n * 4 + 1) as nat, 2)
    } else if n < 1073741824 {
        le_bytes((n * 4 + 2) as nat, 4)
    } else {
        seq![((byte_len(n as nat) - 4) * 4 + 3) as u8] + le_bytes(n as nat, byte_len(n as nat))
    }
}

/// Relies on parity-scale-codec's `Compact<u64>` encoding: one byte
/// `n << 2` below 2^6, two or four little-endian bytes of `n << 2 | 1`
/// (respectively `| 2`) below 2^14 and 2^30, else a length byte
/// `(len - 4) << 2 | 3` followed by the minimal little-endian bytes of
/// `n`.
#[verifier::external_body]
fn compact_encode_u64(n: u64) -> (r: Vec<u8>)
    ensures
        r@ == compact_bytes(n),
{
    parity_scale_codec::Encode::encode(&parity_scale_codec::Compact(n))
}

/// SCALE compact-encodes an integer.
pub fn compact(n: u64) -> (r: Encoded)
    ensures
        r.0@ == compact_bytes(n),
{
    Encoded(compact_encode_u64(n))
}

/// Relies on parity-scale-codec's `Compact<u128>` encoding: the same
/// four modes as the 64-bit form; the big mode writes a length byte
/// `(len - 4) << 2 | 3` then the minimal little-endian bytes of `n`.
#[verifier::external_body]
fn compact_encode_u128(n: u128) -> (r: Vec<u8>)
    ensures
        r@ == compact_bytes_u128(n),
{
    parity_scale_codec::Encode::encode(&parity_scale_codec::Compact(n))
}

/// SCALE compact-encodes a 128-bit integer.
pub fn compact_u128(n: u128) -> (r: Encoded)
    ensures
        r.0@ == compact_bytes_u128(n),
{
    Encoded(compact_encode_u128(n))
}

/// The first four bytes of an encoded metadata blob are this sentinel,
/// little-endian: the characters `meta`.
pub open spec fn prefix_ok(b: Seq<u8>) -> bool {
    b.len() >= 4 && b[0] == 0x6d && b[1] == 0x65 && b[2] == 0x74 && b[3] == 0x61
}

/// The blob carries a version byte naming a supported dialect.
pub open spec fn version_ok(b: Seq<u8>) -> bool {
    b.len() >= 5 && 7 <= b[4] <= 11
}

/// Verifies the envelope of an encoded metadata blob and returns its
/// version byte: the magic prefix must match and the version must name
/// one of the supported dialects.
pub fn metadata_version(bytes: &[u8]) -> (r: Result<u8, Error>)
    ensures
        r is Ok <==> prefix_ok(bytes@) && version_ok(bytes@),
        r matches Ok(v) ==> v == bytes@[4],
        r == Err::<u8, Error>(Error::InvalidPrefix) <==> !prefix_ok(bytes@),
        r == Err::<u8, Error>(Error::InvalidVersion) <==> prefix_ok(bytes@) && !version_ok(
            bytes@,
        ),
{
    if bytes.len() < 4 {
        return Err(Error::InvalidPrefix);
    }
    if !(bytes[0] == 0x6d && bytes[1] == 0x65 && bytes[2] == 0x74 && bytes[3] == 0x61) {
        return Err(Error::InvalidPrefix);
    }
    if bytes.len() < 5 {
        return Err(Error::InvalidVersion);
    }
    let v = bytes[4];
    if 7 <= v && v <= 11 {
        Ok(v)
    } else {
        Err(Error::InvalidVersion)
    }
}

} // verus!
