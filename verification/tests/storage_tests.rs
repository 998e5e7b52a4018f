use desub::metadata::MetadataError;
use desub::metadata::StorageEntryModifier;
use desub::metadata::StorageEntryType;
use desub::metadata::StorageHasher;
use desub::metadata::StorageMetadata;
use desub::storage::StorageMap;

fn entry(hasher: StorageHasher) -> StorageMetadata {
    StorageMetadata {
        prefix: "Timestamp Now".to_string(),
        modifier: StorageEntryModifier::DefaultValue,
        ty: StorageEntryType::Mapped {
            hasher,
            key: "BlockNumber".to_string(),
            value: "Moment".to_string(),
            is_linked: false,
        },
        default: vec![1, 2, 3, 4],
        documentation: vec![],
    }
}

#[test]
fn get_map_carries_prefix_hasher_and_default() {
    let map = entry(StorageHasher::Blake2_128).get_map().unwrap();
    assert_eq!(map.prefix, b"Timestamp Now".to_vec());
    assert_eq!(map.hasher, StorageHasher::Blake2_128);
    assert_eq!(map.default(), vec![1, 2, 3, 4]);
}

#[test]
fn get_map_refuses_plain_entries() {
    let plain = StorageMetadata {
        prefix: "System Number".to_string(),
        modifier: StorageEntryModifier::Optional,
        ty: StorageEntryType::Plain("BlockNumber".to_string()),
        default: vec![],
        documentation: vec![],
    };
    assert_eq!(plain.get_map(), Err(MetadataError::StorageTypeError));
}

#[test]
fn blake2_128_key_matches_known_digest() {
    // blake2b with a 16-byte digest over "Timestamp Now" ++ [1, 2, 3]
    let map = entry(StorageHasher::Blake2_128).get_map().unwrap();
    let key = map.key(&vec![1, 2, 3]);
    assert_eq!(
        key.0,
        vec![203, 144, 32, 36, 245, 75, 53, 147, 48, 176, 102, 74, 83, 196, 80, 229]
    );
}

#[test]
fn blake2_256_key_matches_known_digest() {
    let map = entry(StorageHasher::Blake2_256).get_map().unwrap();
    let key = map.key(&vec![1, 2, 3]);
    assert_eq!(
        key.0,
        vec![
            193, 210, 213, 93, 3, 68, 81, 149, 91, 29, 81, 12, 169, 8, 11, 199, 125, 41, 135,
            247, 44, 60, 205, 146, 183, 108, 140, 163, 67, 157, 190, 59
        ]
    );
}

#[test]
fn concat_hashers_append_the_hashed_bytes() {
    let input: Vec<u8> = b"Timestamp Now".iter().copied().chain([1, 2, 3]).collect();

    let map = entry(StorageHasher::Blake2_128Concat).get_map().unwrap();
    let key = map.key(&vec![1, 2, 3]);
    assert_eq!(key.0.len(), 16 + input.len());
    assert_eq!(&key.0[16..], input.as_slice());
    assert_eq!(
        &key.0[..16],
        &[203, 144, 32, 36, 245, 75, 53, 147, 48, 176, 102, 74, 83, 196, 80, 229]
    );

    let map = entry(StorageHasher::Twox64Concat).get_map().unwrap();
    let key = map.key(&vec![1, 2, 3]);
    assert_eq!(key.0.len(), 8 + input.len());
    assert_eq!(&key.0[8..], input.as_slice());
    assert_ne!(&key.0[..8], &input.as_slice()[..8]);
}

#[test]
fn twox_key_lengths_and_determinism() {
    let m128 = entry(StorageHasher::Twox128).get_map().unwrap();
    let k1 = m128.key(&vec![9]);
    let k2 = m128.key(&vec![9]);
    assert_eq!(k1, k2);
    assert_eq!(k1.0.len(), 16);
    assert_ne!(k1.0, b"Timestamp Now\x09".to_vec());

    let m256 = entry(StorageHasher::Twox256).get_map().unwrap();
    let k3 = m256.key(&vec![9]);
    assert_eq!(k3.0.len(), 32);
    // the 256-bit twox digest extends the 128-bit one with further seeds
    assert_eq!(&k3.0[..16], k1.0.as_slice());

    let k4 = m128.key(&vec![8]);
    assert_ne!(k1, k4);
}

#[test]
fn storage_map_fields_are_independent_of_key() {
    let map = StorageMap {
        prefix: vec![1, 2],
        hasher: StorageHasher::Blake2_256,
        default: vec![7],
    };
    let key = map.key(&vec![3]);
    assert_eq!(key.0.len(), 32);
    assert_eq!(map.default(), vec![7]);
}
