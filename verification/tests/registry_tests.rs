use desub::marker::RustEnum;
use desub::marker::RustTypeMarker;
use desub::marker::StructField;
use desub::registry::ChainSpecTypes;
use desub::registry::ModuleTypes;
use desub::registry::Overrides;
use desub::registry::PolkadotTypes;
use desub::registry::remove_prefix;

fn balance_lock() -> RustTypeMarker {
    RustTypeMarker::Struct(vec![
        StructField {
            name: "id".to_string(),
            ty: RustTypeMarker::TypePointer("LockIdentifier".to_string()),
        },
        StructField {
            name: "amount".to_string(),
            ty: RustTypeMarker::TypePointer("Balance".to_string()),
        },
        StructField {
            name: "until".to_string(),
            ty: RustTypeMarker::TypePointer("BlockNumber".to_string()),
        },
        StructField {
            name: "reasons".to_string(),
            ty: RustTypeMarker::TypePointer("WithdrawReasons".to_string()),
        },
    ])
}

#[test]
fn should_get_type_from_module() {
    let post_1031_dispatch_error = RustTypeMarker::Enum(RustEnum::Struct(vec![
        StructField {
            name: "Other".to_string(),
            ty: RustTypeMarker::Null,
        },
        StructField {
            name: "CannotLookup".to_string(),
            ty: RustTypeMarker::Null,
        },
        StructField {
            name: "BadOrigin".to_string(),
            ty: RustTypeMarker::Null,
        },
        StructField {
            name: "Module".to_string(),
            ty: RustTypeMarker::TypePointer("DispatchErrorModule".to_string()),
        },
    ]));
    let types = PolkadotTypes::new().unwrap();
    let t = types.get("system", "DispatchError", 1040, "kusama").unwrap();
    assert_eq!(t, &post_1031_dispatch_error);
}

#[test]
fn should_resolve_a_type() {
    let t_pointer = RustTypeMarker::TypePointer("BalanceLockTo212".to_string());
    let correct = balance_lock();
    let types = PolkadotTypes::new().unwrap();
    let resolved = types.resolve("balances", &t_pointer).unwrap();
    assert_eq!(&correct, resolved);
}

#[test]
fn should_get_duplicated_types() {
    let types = PolkadotTypes::new().unwrap();
    let t = types.get("contracts", "StorageKey", 1040, "kusama").unwrap();
    assert_eq!(
        t,
        &RustTypeMarker::TypePointer("ContractStorageKey".to_string())
    );
}

#[test]
fn should_adhere_to_spec() {
    let pre_1019_balance_lock = balance_lock();
    let types = PolkadotTypes::new().unwrap();
    let t = types.get("balances", "BalanceLock", 1000, "kusama").unwrap();
    assert_eq!(t, &pre_1019_balance_lock);
    let t = types.get("balances", "BalanceLock", 1018, "kusama").unwrap();
    assert_eq!(t, &pre_1019_balance_lock);
    let t = types.get("balances", "BalanceLock", 1031, "kusama").unwrap();
    assert_eq!(
        t,
        &RustTypeMarker::TypePointer("BalanceLockTo212".to_string())
    );
    let t = types.get("balances", "BalanceLock", 1019, "kusama").unwrap();
    assert_eq!(
        t,
        &RustTypeMarker::TypePointer("BalanceLockTo212".to_string())
    );
    let t = types.get("balances", "BalanceLock", 1032, "kusama").unwrap();
    assert_eq!(
        t,
        &RustTypeMarker::TypePointer("BalanceLockTo212".to_string())
    );
    let t = types.get("balances", "BalanceLock", 1042, "kusama").unwrap();
    assert_eq!(
        t,
        &RustTypeMarker::TypePointer("BalanceLockTo212".to_string())
    );
    let t = types.get("balances", "BalanceLock", 9999, "kusama").unwrap();
    assert_eq!(
        t,
        &RustTypeMarker::TypePointer("BalanceLockTo212".to_string())
    );
}

#[test]
fn module_override_wins_over_chain_and_base() {
    let types = PolkadotTypes::new().unwrap();
    // whatever the spec version and the chain, the module override answers
    let expected = RustTypeMarker::TypePointer("ContractStorageKey".to_string());
    assert_eq!(types.get("contracts", "StorageKey", 0, "kusama").unwrap(), &expected);
    assert_eq!(types.get("contracts", "StorageKey", 1025, "polkadot").unwrap(), &expected);
    assert_eq!(types.get("contracts", "StorageKey", 9999, "westend").unwrap(), &expected);
}

#[test]
fn names_are_matched_case_insensitively() {
    let types = PolkadotTypes::new().unwrap();
    let expected = RustTypeMarker::TypePointer("BalanceLockTo212".to_string());
    let t = types.get("Balances", "BalanceLock", 1031, "Kusama").unwrap();
    assert_eq!(t, &expected);
}

#[test]
fn resolve_of_non_pointer_is_none() {
    let types = PolkadotTypes::new().unwrap();
    assert!(types.resolve("balances", &RustTypeMarker::Null).is_none());
    assert!(types
        .resolve("balances", &RustTypeMarker::Primitive("u8".to_string()))
        .is_none());
    assert!(types.resolve("balances", &balance_lock()).is_none());
    // a pointer whose target the module does not declare also misses
    assert!(types
        .resolve("balances", &RustTypeMarker::TypePointer("NoSuch".to_string()))
        .is_none());
}

#[test]
fn get_misses_on_unknown_type() {
    let types = PolkadotTypes::new().unwrap();
    assert!(types.get("balances", "NoSuchType", 1000, "kusama").is_none());
    assert!(types.get("nosuchmodule", "BalanceLock", 1000, "kusama").is_none());
}

#[test]
fn overlapping_chain_ranges_are_rejected_at_load() {
    let a = ChainSpecTypes { min: Some(100), max: Some(200), types: vec![] };
    let b = ChainSpecTypes { min: Some(150), max: None, types: vec![] };
    let r = Overrides::new(vec![], vec![("kusama".to_string(), vec![a, b])]);
    assert!(r.is_err());

    let a = ChainSpecTypes { min: Some(100), max: Some(200), types: vec![] };
    let b = ChainSpecTypes { min: Some(201), max: None, types: vec![] };
    let r = Overrides::new(vec![], vec![("kusama".to_string(), vec![a, b])]);
    assert!(r.is_ok());
}

#[test]
fn module_types_get_finds_declared_types() {
    let mt = ModuleTypes {
        types: vec![("Balance".to_string(), RustTypeMarker::Primitive("u128".to_string()))],
    };
    assert_eq!(mt.get("Balance").unwrap(), &RustTypeMarker::Primitive("u128".to_string()));
    assert!(mt.get("Nope").is_none());
}

#[test]
fn known_pointer_prefixes_are_stripped() {
    assert_eq!(remove_prefix("T::Balance").unwrap(), "Balance".to_string());
    assert_eq!(remove_prefix("<T as Trait>::Moment").unwrap(), "Moment".to_string());
    assert!(remove_prefix("Balance").is_none());
}

#[test]
fn resolve_query_strips_known_prefixes() {
    let types = PolkadotTypes::new().unwrap();
    let t = types
        .resolve_query(
            "balances",
            &RustTypeMarker::TypePointer("T::BalanceLockTo212".to_string()),
        )
        .unwrap();
    assert_eq!(t, &balance_lock());
    let t = types
        .resolve_query(
            "balances",
            &RustTypeMarker::TypePointer("<T as Trait>::BalanceLockTo212".to_string()),
        )
        .unwrap();
    assert_eq!(t, &balance_lock());
    assert!(types.resolve_query("balances", &RustTypeMarker::Null).is_none());
}
