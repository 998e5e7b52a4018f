use desub::error::Error;
use desub::extrinsics::ExtrinsicArgument;
use desub::extrinsics::GenericCall;
use desub::extrinsics::GenericExtrinsic;
use desub::extrinsics::SubstrateType;
use desub::metadata::Metadata;
use desub::metadata::MetadataError;
use desub::metadata::RawEvent;
use desub::metadata::RawMetadata;
use desub::metadata::RawModule;
use desub::metadata::RawStorageEntry;
use desub::metadata::StorageEntryModifier;
use desub::metadata::StorageEntryType;
use desub::metadata::StorageHasher;
use desub::scale::Encoded;
use desub::scale::compact;
use desub::scale::compact_u128;
use desub::scale::metadata_version;

fn sample_raw(version: u8) -> RawMetadata {
    let timestamp = RawModule {
        name: "Timestamp".to_string(),
        index: 3,
        storage: vec![RawStorageEntry {
            name: "Now".to_string(),
            prefix: "Timestamp Now".to_string(),
            modifier: StorageEntryModifier::DefaultValue,
            ty: StorageEntryType::Mapped {
                hasher: StorageHasher::Blake2_128,
                key: "BlockNumber".to_string(),
                value: "Moment".to_string(),
                is_linked: false,
            },
            default: vec![0, 0, 0, 0],
            documentation: vec!["Current time.".to_string()],
        }],
        calls: vec!["set".to_string(), "finalize".to_string()],
        events: vec![],
    };
    let balances = RawModule {
        name: "Balances".to_string(),
        index: 5,
        storage: vec![],
        calls: vec!["transfer".to_string()],
        events: vec![RawEvent {
            name: "Transfer".to_string(),
            arguments: vec!["AccountId".to_string(), "Vec<(AccountId, Balance)>".to_string()],
        }],
    };
    let system = RawModule {
        name: "System".to_string(),
        index: 9,
        storage: vec![],
        calls: vec![],
        events: vec![RawEvent {
            name: "NewAccount".to_string(),
            arguments: vec!["AccountId".to_string()],
        }],
    };
    RawMetadata { version, modules: vec![timestamp, balances, system] }
}

#[test]
fn normalization_assigns_call_selectors_by_position() {
    let md = Metadata::from_raw(sample_raw(9)).unwrap();
    let module = md.module("Timestamp").unwrap();
    let calls = module.calls();
    assert_eq!(calls.len(), 2);
    assert_eq!(calls[0].0, "set".to_string());
    assert_eq!(calls[0].1, vec![0u8]);
    assert_eq!(calls[1].0, "finalize".to_string());
    assert_eq!(calls[1].1, vec![1u8]);
}

#[test]
fn module_index_is_positional_under_version_seven() {
    let md = Metadata::from_raw(sample_raw(7)).unwrap();
    assert_eq!(md.module("Timestamp").unwrap().index, 0);
    assert_eq!(md.module("Balances").unwrap().index, 1);
    assert_eq!(md.module("System").unwrap().index, 2);
}

#[test]
fn module_index_is_explicit_from_version_eight() {
    let md = Metadata::from_raw(sample_raw(9)).unwrap();
    assert_eq!(md.module("Timestamp").unwrap().index, 3);
    assert_eq!(md.module("Balances").unwrap().index, 5);
    assert_eq!(md.module("System").unwrap().index, 9);
}

#[test]
fn event_index_map_skips_modules_without_events() {
    let md = Metadata::from_raw(sample_raw(9)).unwrap();
    // Timestamp declares no events: Balances takes event index 0,
    // System event index 1, and the module indices rise with it.
    assert_eq!(md.module_name(0).unwrap(), "Balances".to_string());
    assert_eq!(md.module_name(1).unwrap(), "System".to_string());
    assert_eq!(md.module_name(2), Err(MetadataError::EventNotFound(2)));
    assert!(md.module("Balances").unwrap().index < md.module("System").unwrap().index);
}

#[test]
fn event_argument_strings_are_parsed() {
    let md = Metadata::from_raw(sample_raw(9)).unwrap();
    let module = md.module("Balances").unwrap();
    let event = module.event(0).unwrap();
    assert_eq!(event.name, "Transfer".to_string());
    let args = event.arguments();
    assert_eq!(args.len(), 2);
    assert_eq!(args[1].primitives(), vec!["AccountId".to_string(), "Balance".to_string()]);
}

#[test]
fn bad_event_argument_fails_normalization() {
    let mut raw = sample_raw(9);
    raw.modules[1].events[0].arguments.push("Vec<u8".to_string());
    match Metadata::from_raw(raw) {
        Err(Error::InvalidEventArg(input, _)) => {
            assert_eq!(input, "Vec<u8".to_string());
        },
        other => panic!("expected InvalidEventArg, got {:?}", other),
    }
}

#[test]
fn module_lookup_misses_are_reported() {
    let md = Metadata::from_raw(sample_raw(9)).unwrap();
    assert!(md.module_exists("Timestamp"));
    assert!(!md.module_exists("Staking"));
    match md.module("Staking") {
        Err(MetadataError::ModuleNotFound(name)) => assert_eq!(name, "Staking".to_string()),
        other => panic!("expected ModuleNotFound, got {:?}", other),
    }
}

#[test]
fn call_prepends_module_index_and_selector() {
    let md = Metadata::from_raw(sample_raw(9)).unwrap();
    let module = md.module("Timestamp").unwrap();
    let encoded = module.call("finalize", &Encoded(vec![0xaa, 0xbb])).unwrap();
    assert_eq!(encoded.encode(), vec![3u8, 1, 0xaa, 0xbb]);
    match module.call("nosuch", &Encoded(vec![])) {
        Err(MetadataError::CallNotFound(name)) => assert_eq!(name, "nosuch"),
        other => panic!("expected CallNotFound, got {:?}", other),
    }
}

#[test]
fn storage_entry_is_copied_verbatim() {
    let md = Metadata::from_raw(sample_raw(9)).unwrap();
    let module = md.module("Timestamp").unwrap();
    let entry = module.storage("Now").unwrap();
    assert_eq!(entry.prefix, "Timestamp Now".to_string());
    assert_eq!(entry.modifier, StorageEntryModifier::DefaultValue);
    assert_eq!(entry.default, vec![0u8, 0, 0, 0]);
    match module.storage("Absent") {
        Err(MetadataError::StorageNotFound(name)) => assert_eq!(name, "Absent"),
        other => panic!("expected StorageNotFound, got {:?}", other),
    }
}

#[test]
fn envelope_check_reads_magic_and_version() {
    // "meta" little-endian, then the version byte
    assert_eq!(metadata_version(&[0x6d, 0x65, 0x74, 0x61, 0x09, 0xff]), Ok(9));
    assert_eq!(metadata_version(&[0x6d, 0x65, 0x74, 0x61, 0x0b]), Ok(11));
    assert_eq!(
        metadata_version(&[0x00, 0x65, 0x74, 0x61, 0x09]),
        Err(Error::InvalidPrefix)
    );
    assert_eq!(metadata_version(&[0x6d, 0x65]), Err(Error::InvalidPrefix));
    assert_eq!(
        metadata_version(&[0x6d, 0x65, 0x74, 0x61, 0x0c]),
        Err(Error::InvalidVersion)
    );
    assert_eq!(
        metadata_version(&[0x6d, 0x65, 0x74, 0x61, 0x06]),
        Err(Error::InvalidVersion)
    );
    assert_eq!(metadata_version(&[0x6d, 0x65, 0x74, 0x61]), Err(Error::InvalidVersion));
}

#[test]
fn compact_encoding_uses_the_four_modes() {
    assert_eq!(compact(0).encode(), vec![0x00]);
    assert_eq!(compact(1).encode(), vec![0x04]);
    assert_eq!(compact(42).encode(), vec![0xa8]);
    assert_eq!(compact(63).encode(), vec![0xfc]);
    assert_eq!(compact(64).encode(), vec![0x01, 0x01]);
    assert_eq!(compact(16383).encode(), vec![0xfd, 0xff]);
    assert_eq!(compact(16384).encode(), vec![0x02, 0x00, 0x01, 0x00]);
    assert_eq!(compact(1073741823).encode(), vec![0xfe, 0xff, 0xff, 0xff]);
    assert_eq!(compact(1073741824).encode(), vec![0x03, 0x00, 0x00, 0x00, 0x40]);
    assert_eq!(
        compact(u64::MAX).encode(),
        vec![0x13, 0xff, 0xff, 0xff, 0xff, 0xff, 0xff, 0xff, 0xff]
    );
}

#[test]
fn should_serialize_generic_extrinsic() {
    let call = GenericCall {
        name: "set".to_string(),
        module: "Timestamp".to_string(),
        args: vec![ExtrinsicArgument {
            name: "Some Arg".to_string(),
            arg: SubstrateType::U32(32),
        }],
    };
    let ext = GenericExtrinsic {
        signature: Some(SubstrateType::Composite(vec![
            SubstrateType::U32(32),
            SubstrateType::U64(64),
        ])),
        call,
    };
    let serialized = ext.to_json();
    assert_eq!(
        serialized,
        r#"{"signature":[32,64],"call":{"name":"set","module":"Timestamp","args":[{"name":"Some Arg","arg":32}]}}"#.to_string()
    );
}

#[test]
fn extrinsic_accessors_and_constructor() {
    let ext = GenericExtrinsic::new(
        None,
        vec![("who".to_string(), SubstrateType::Str("alice".to_string()))],
        "transfer".to_string(),
        "Balances".to_string(),
    );
    assert_eq!(ext.ext_module(), "Balances");
    assert_eq!(ext.ext_name(), "transfer");
    assert_eq!(ext.call().args.len(), 1);
    assert_eq!(ext.call().args[0].name, "who".to_string());
    assert_eq!(
        ext.to_json(),
        r#"{"signature":null,"call":{"name":"transfer","module":"Balances","args":[{"name":"who","arg":"alice"}]}}"#.to_string()
    );
}

#[test]
fn json_escapes_quotes_and_backslashes() {
    let v = SubstrateType::Str("a\"b\\c".to_string());
    assert_eq!(v.to_json(), "\"a\\\"b\\\\c\"".to_string());
    let b = SubstrateType::Bool(true);
    assert_eq!(b.to_json(), "true".to_string());
    let n = SubstrateType::U128(340282366920938463463374607431768211455);
    assert_eq!(n.to_json(), "340282366920938463463374607431768211455".to_string());
}

#[test]
fn compact_handles_wide_integers() {
    assert_eq!(compact_u128(0).encode(), vec![0x00]);
    assert_eq!(compact_u128(63).encode(), vec![0xfc]);
    assert_eq!(compact_u128(64).encode(), vec![0x01, 0x01]);
    assert_eq!(compact_u128(1073741824).encode(), vec![0x03, 0x00, 0x00, 0x00, 0x40]);
    assert_eq!(
        compact_u128(u128::MAX).encode(),
        vec![
            0x33, 0xff, 0xff, 0xff, 0xff, 0xff, 0xff, 0xff, 0xff, 0xff, 0xff, 0xff, 0xff, 0xff,
            0xff, 0xff, 0xff
        ]
    );
}
