use desub::definitions::parse_type_def;
use desub::marker::RustTypeMarker;

fn prim(name: &str) -> RustTypeMarker {
    RustTypeMarker::Primitive(name.to_string())
}

#[test]
fn parses_null_and_primitives() {
    assert_eq!(parse_type_def("null"), RustTypeMarker::Null);
    assert_eq!(parse_type_def("u128"), prim("u128"));
    assert_eq!(parse_type_def("bool"), prim("bool"));
    assert_eq!(parse_type_def("String"), prim("String"));
}

#[test]
fn unknown_identifiers_become_pointers() {
    assert_eq!(
        parse_type_def("Balance"),
        RustTypeMarker::TypePointer("Balance".to_string())
    );
    assert_eq!(
        parse_type_def("  T::Balance  "),
        RustTypeMarker::TypePointer("T::Balance".to_string())
    );
}

#[test]
fn parses_compound_forms() {
    assert_eq!(
        parse_type_def("Vec<u8>"),
        RustTypeMarker::VecOf(Box::new(prim("u8")))
    );
    assert_eq!(
        parse_type_def("Option<Balance>"),
        RustTypeMarker::OptionOf(Box::new(RustTypeMarker::TypePointer("Balance".to_string())))
    );
    assert_eq!(
        parse_type_def("Compact<u32>"),
        RustTypeMarker::CompactOf(Box::new(prim("u32")))
    );
    assert_eq!(
        parse_type_def("[u8; 32]"),
        RustTypeMarker::FixedArray(Box::new(prim("u8")), 32)
    );
}

#[test]
fn tuple_split_respects_bracket_depth() {
    let parsed = parse_type_def("(AccountId, Vec<(u32, bool)>)");
    let expected = RustTypeMarker::Tuple(vec![
        RustTypeMarker::TypePointer("AccountId".to_string()),
        RustTypeMarker::VecOf(Box::new(RustTypeMarker::Tuple(vec![
            prim("u32"),
            prim("bool"),
        ]))),
    ]);
    assert_eq!(parsed, expected);
}

#[test]
fn malformed_array_counts_fall_back_to_pointers() {
    assert_eq!(
        parse_type_def("[u8; x]"),
        RustTypeMarker::TypePointer("[u8; x]".to_string())
    );
    assert_eq!(
        parse_type_def("[u8]"),
        RustTypeMarker::TypePointer("[u8]".to_string())
    );
    assert_eq!(
        parse_type_def("[u8; 99999999999]"),
        RustTypeMarker::TypePointer("[u8; 99999999999]".to_string())
    );
}

#[test]
fn nested_generics_parse_recursively() {
    assert_eq!(
        parse_type_def("Vec<Option<Compact<u64>>>"),
        RustTypeMarker::VecOf(Box::new(RustTypeMarker::OptionOf(Box::new(
            RustTypeMarker::CompactOf(Box::new(prim("u64")))
        ))))
    );
}
