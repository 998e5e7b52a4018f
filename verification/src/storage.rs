//! Storage-key derivation: the hashing schemes a storage entry may name
//! and the map view that turns an encoded key into a storage key.

use vstd::prelude::*;
use crate::metadata::MetadataError;
use crate::metadata::StorageEntryType;
use crate::metadata::StorageHasher;
use crate::metadata::StorageMetadata;

verus! {

/// The bytes blake2b with a 128-bit digest produces for the input.
pub uninterp spec fn blake2_128_of(b: Seq<u8>) -> Seq<u8>;

/// The bytes blake2b with a 256-bit digest produces for the input.
pub uninterp spec fn blake2_256_of(b: Seq<u8>) -> Seq<u8>;

/// The bytes the 64-bit xx-hash (seed 0) produces for the input.
pub uninterp spec fn twox_64_of(b: Seq<u8>) -> Seq<u8>;

/// The bytes two seeded 64-bit xx-hash runs produce for the input.
pub uninterp spec fn twox_128_of(b: Seq<u8>) -> Seq<u8>;

/// The bytes four seeded 64-bit xx-hash runs produce for the input.
pub uninterp spec fn twox_256_of(b: Seq<u8>) -> Seq<u8>;

/// Relies on sp_core_hashing::blake2_128: a 16-byte digest that depends
/// on the input bytes alone.
#[verifier::external_body]
fn blake2_128(data: &Vec<u8>) -> (r: Vec<u8>)
    ensures
        r@ == blake2_128_of(data@),
        r@.len() == 16,
{
    sp_core_hashing::blake2_128(data.as_slice()).to_vec()
}

/// Relies on sp_core_hashing::blake2_256: a 32-byte digest that depends
/// on the input bytes alone.
#[verifier::external_body]
fn blake2_256(data: &Vec<u8>) -> (r: Vec<u8>)
    ensures
        r@ == blake2_256_of(data@),
        r@.len() == 32,
{
    sp_core_hashing::blake2_256(data.as_slice()).to_vec()
}

/// Relies on sp_core_hashing::twox_64: an 8-byte digest that depends on
/// the input bytes alone.
#[verifier::external_body]
fn twox_64(data: &Vec<u8>) -> (r: Vec<u8>)
    ensures
        r@ == twox_64_of(data@),
        r@.len() == 8,
{
    sp_core_hashing::twox_64(data.as_slice()).to_vec()
}

/// Relies on sp_core_hashing::twox_128: a 16-byte digest that depends on
/// the input bytes alone.
#[verifier::external_body]
fn twox_128(data: &Vec<u8>) -> (r: Vec<u8>)
    ensures
        r@ == twox_128_of(data@),
        r@.len() == 16,
{
    sp_core_hashing::twox_128(data.as_slice()).to_vec()
}

/// Relies on sp_core_hashing::twox_256: a 32-byte digest that depends on
/// the input bytes alone.
#[verifier::external_body]
fn twox_256(data: &Vec<u8>) -> (r: Vec<u8>)
    ensures
        r@ == twox_256_of(data@),
        r@.len() == 32,
{
    sp_core_hashing::twox_256(data.as_slice()).to_vec()
}

/// A derived storage key, as raw bytes.
#[derive(Debug, PartialEq, Eq)]
pub struct StorageKey(pub Vec<u8>);

/// The storage key a hasher derives from the hashed bytes.  The
/// concatenating hashers append the hashed bytes after the digest, as
/// the chain defines them.
pub open spec fn spec_storage_key(h: StorageHasher, bytes: Seq<u8>) -> Seq<u8> {
    match h {
        StorageHasher::Blake2_128 => blake2_128_of(bytes),
        StorageHasher::Blake2_256 => blake2_256_of(bytes),
        StorageHasher::Blake2_128Concat => blake2_128_of(bytes) + bytes,
        StorageHasher::Twox128 => twox_128_of(bytes),
        StorageHasher::Twox256 => twox_256_of(bytes),
        StorageHasher::Twox64Concat => twox_64_of(bytes) + bytes,
    }
}

/// A map view over one storage entry: enough to derive keys and read the
/// encoded default value.
#[derive(Debug, PartialEq, Eq)]
pub struct StorageMap {
    /// The entry's prefix, as bytes.
    pub prefix: Vec<u8>,
    pub hasher: StorageHasher,
    /// The SCALE-encoded default value.
    pub default: Vec<u8>,
}

fn append_bytes(v: &mut Vec<u8>, other: &Vec<u8>)
    ensures
        final(v)@ == old(v)@ + other@,
{
    let mut i: usize = 0;
    while i < other.len()
        invariant
            i <= other@.len(),
            v@ == old(v)@ + other@.subrange(0, i as int),
        decreases other@.len() - i,
    {
        v.push(other[i]);
        proof {
            assert(v@ =~= old(v)@ + other@.subrange(0, i as int + 1));
        }
        i = i + 1;
    }
    proof {
        assert(v@ =~= old(v)@ + other@);
    }
}

impl StorageMap {
    /// Derives the storage key for an already SCALE-encoded map key: the
    /// prefix and the encoded key are concatenated and run through the
    /// entry's hasher.
    pub fn key(&self, encoded_key: &Vec<u8>) -> (r: StorageKey)
        ensures
            r.0@ == spec_storage_key(self.hasher, self.prefix@ + encoded_key@),
    {
        let mut bytes: Vec<u8> = Vec::new();
        append_bytes(&mut bytes, &self.prefix);
        append_bytes(&mut bytes, encoded_key);
        proof {
            assert(bytes@ =~= self.prefix@ + encoded_key@);
        }
        let hash = match self.hasher {
            StorageHasher::Blake2_128 => blake2_128(&bytes),
            StorageHasher::Blake2_256 => blake2_256(&bytes),
            StorageHasher::Blake2_128Concat => {
                let mut h = blake2_128(&bytes);
                append_bytes(&mut h, &bytes);
                h
            },
            StorageHasher::Twox128 => twox_128(&bytes),
            StorageHasher::Twox256 => twox_256(&bytes),
            StorageHasher::Twox64Concat => {
                let mut h = twox_64(&bytes);
                append_bytes(&mut h, &bytes);
                h
            },
        };
        StorageKey(hash)
    }

    /// The SCALE-encoded default value of the entry.
    pub fn default(&self) -> (r: Vec<u8>)
        ensures
            r@ == self.default@,
    {
        let mut out: Vec<u8> = Vec::new();
        append_bytes(&mut out, &self.default);
        proof {
            assert(out@ =~= self.default@);
        }
        out
    }
}

impl StorageMetadata {
    /// A map view over this entry: its prefix as UTF-8 bytes, its hasher
    /// and its encoded default.  An entry that is not a map is refused.
    /// Decoding the default value under the entry's value type stays
    /// with the caller.
    pub fn get_map(&self) -> (r: Result<StorageMap, MetadataError>)
        ensures
            self.ty matches StorageEntryType::Mapped { hasher, .. } ==> (r matches Ok(m)
                && m.hasher == hasher && m.default@ == self.default@ && m.prefix@
                == vstd::utf8::encode_utf8(self.prefix@)),
            !(self.ty is Mapped) ==> r == Err::<StorageMap, MetadataError>(
                MetadataError::StorageTypeError,
            ),
    {
        match &self.ty {
            StorageEntryType::Mapped { hasher, .. } => {
                let prefix = self.prefix.as_str().as_bytes_vec();
                let h = *hasher;
                let mut default: Vec<u8> = Vec::new();
                append_bytes(&mut default, &self.default);
                proof {
                    assert(default@ =~= self.default@);
                }
                Ok(StorageMap { prefix, hasher: h, default })
            },
            _ => Err(MetadataError::StorageTypeError),
        }
    }
}

} // verus!
