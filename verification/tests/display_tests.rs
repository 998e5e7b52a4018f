use desub::extrinsics::ExtrinsicArgument;
use desub::extrinsics::GenericCall;
use desub::extrinsics::GenericExtrinsic;
use desub::extrinsics::SubstrateType;
use desub::metadata::Metadata;
use desub::metadata::RawEvent;
use desub::metadata::RawMetadata;
use desub::metadata::RawModule;
use desub::metadata::RawStorageEntry;
use desub::metadata::StorageEntryModifier;
use desub::metadata::StorageEntryType;
use desub::metadata::StorageHasher;

#[test]
fn argument_display_has_the_expected_shape() {
    let a = ExtrinsicArgument { name: "who".to_string(), arg: SubstrateType::U32(7) };
    assert_eq!(a.display_string(), " arg: who, Ty: 7 ".to_string());
}

#[test]
fn call_display_concatenates_arguments() {
    let c = GenericCall {
        name: "transfer".to_string(),
        module: "Balances".to_string(),
        args: vec![
            ExtrinsicArgument { name: "who".to_string(), arg: SubstrateType::Str("alice".to_string()) },
            ExtrinsicArgument { name: "value".to_string(), arg: SubstrateType::U128(10) },
        ],
    };
    assert_eq!(
        c.display_string(),
        "transfer:    arg: who, Ty: alice  arg: value, Ty: 10 ".to_string()
    );
}

#[test]
fn extrinsic_display_shows_signature_or_none() {
    let c = GenericCall { name: "set".to_string(), module: "Timestamp".to_string(), args: vec![] };
    let e = GenericExtrinsic { signature: None, call: c };
    assert_eq!(e.display_string(), "None\nCALL\nset:   ".to_string());

    let c = GenericCall { name: "set".to_string(), module: "Timestamp".to_string(), args: vec![] };
    let e = GenericExtrinsic {
        signature: Some(SubstrateType::Composite(vec![
            SubstrateType::U32(1),
            SubstrateType::U64(2),
        ])),
        call: c,
    };
    assert_eq!(e.display_string(), "(1, 2)\nCALL\nset:   ".to_string());
}

fn tiny_raw() -> RawMetadata {
    RawMetadata {
        version: 9,
        modules: vec![RawModule {
            name: "Timestamp".to_string(),
            index: 3,
            storage: vec![RawStorageEntry {
                name: "Now".to_string(),
                prefix: "Timestamp Now".to_string(),
                modifier: StorageEntryModifier::DefaultValue,
                ty: StorageEntryType::Plain("Moment".to_string()),
                default: vec![0],
                documentation: vec![],
            }],
            calls: vec!["set".to_string()],
            events: vec![RawEvent {
                name: "Updated".to_string(),
                arguments: vec!["Moment".to_string()],
            }],
        }],
    }
}

#[test]
fn pretty_lists_storage_calls_and_events() {
    let md = Metadata::from_raw(tiny_raw()).unwrap();
    assert_eq!(
        md.pretty(),
        "Timestamp\n s  Now\n c  set\n e  Updated\n".to_string()
    );
}

#[test]
fn detailed_pretty_includes_type_and_modifier() {
    let md = Metadata::from_raw(tiny_raw()).unwrap();
    assert_eq!(
        md.detailed_pretty(),
        "Timestamp\n S  Now TYPE Plain(Moment) MOD Default\n C  set\n E  Updated\n".to_string()
    );
}

#[test]
fn detailed_pretty_renders_map_shapes() {
    let mut raw = tiny_raw();
    raw.modules[0].storage[0].ty = StorageEntryType::Mapped {
        hasher: StorageHasher::Twox64Concat,
        key: "BlockNumber".to_string(),
        value: "Moment".to_string(),
        is_linked: false,
    };
    raw.modules[0].storage[0].modifier = StorageEntryModifier::Optional;
    let md = Metadata::from_raw(raw).unwrap();
    assert_eq!(
        md.detailed_pretty(),
        "Timestamp\n S  Now TYPE Map(Twox64Concat: BlockNumber -> Moment) MOD Optional\n C  set\n E  Updated\n"
            .to_string()
    );
}
