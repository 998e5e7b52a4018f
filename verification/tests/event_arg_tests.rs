use desub::error::Error;
use desub::event_arg::EventArg;

#[test]
fn parses_vec_of_tuple() {
    let arg = EventArg::from_str("Vec<(AccountId, Balance)>").unwrap();
    let expected = EventArg::VecOf(Box::new(EventArg::Tuple(vec![
        EventArg::Primitive("AccountId".to_string()),
        EventArg::Primitive("Balance".to_string()),
    ])));
    assert_eq!(arg, expected);
}

#[test]
fn parses_bare_identifier() {
    let arg = EventArg::from_str("AccountId").unwrap();
    assert_eq!(arg, EventArg::Primitive("AccountId".to_string()));
}

#[test]
fn unclosed_vec_is_rejected() {
    match EventArg::from_str("Vec<u8") {
        Err(Error::InvalidEventArg(input, reason)) => {
            assert_eq!(input, "Vec<u8".to_string());
            assert_eq!(reason, "Expected closing `>` for `Vec`");
        },
        other => panic!("expected InvalidEventArg, got {:?}", other),
    }
}

#[test]
fn unclosed_tuple_is_rejected() {
    match EventArg::from_str("(AccountId, Balance") {
        Err(Error::InvalidEventArg(input, reason)) => {
            assert_eq!(input, "(AccountId, Balance".to_string());
            assert_eq!(reason, "Expecting closing `)` for tuple");
        },
        other => panic!("expected InvalidEventArg, got {:?}", other),
    }
}

#[test]
fn nested_failure_reports_the_failing_subterm() {
    match EventArg::from_str("Vec<(a, Vec<b)>") {
        Err(Error::InvalidEventArg(_, reason)) => {
            assert_eq!(reason, "Expected closing `>` for `Vec`");
        },
        other => panic!("expected InvalidEventArg, got {:?}", other),
    }
}

#[test]
fn render_then_parse_returns_the_argument() {
    let a = EventArg::VecOf(Box::new(EventArg::Tuple(vec![
        EventArg::Primitive("AccountId".to_string()),
        EventArg::VecOf(Box::new(EventArg::Primitive("Balance".to_string()))),
    ])));
    let text = a.render();
    assert_eq!(text, "Vec<(AccountId,Vec<Balance>)>".to_string());
    let b = EventArg::from_str(text.as_str()).unwrap();
    assert_eq!(a, b);
}

#[test]
fn render_of_primitive_is_identity() {
    let a = EventArg::Primitive("Hash".to_string());
    assert_eq!(a.render(), "Hash".to_string());
    assert_eq!(EventArg::from_str("Hash").unwrap(), a);
}

#[test]
fn tuple_whitespace_is_stripped() {
    let arg = EventArg::from_str("(  AccountId ,\tBalance )").unwrap();
    let expected = EventArg::Tuple(vec![
        EventArg::Primitive("AccountId".to_string()),
        EventArg::Primitive("Balance".to_string()),
    ]);
    assert_eq!(arg, expected);
}

#[test]
fn primitives_flattens_in_order() {
    let a = EventArg::VecOf(Box::new(EventArg::Tuple(vec![
        EventArg::Primitive("AccountId".to_string()),
        EventArg::VecOf(Box::new(EventArg::Primitive("Balance".to_string()))),
        EventArg::Primitive("Hash".to_string()),
    ])));
    assert_eq!(
        a.primitives(),
        vec!["AccountId".to_string(), "Balance".to_string(), "Hash".to_string()]
    );
}

#[test]
fn duplicate_copies_deeply() {
    let a = EventArg::Tuple(vec![
        EventArg::Primitive("A".to_string()),
        EventArg::VecOf(Box::new(EventArg::Primitive("B".to_string()))),
    ]);
    let b = a.duplicate();
    assert_eq!(a, b);
}

#[test]
fn event_tuple_split_respects_bracket_depth() {
    let arg = EventArg::from_str("(Vec<(AccountId, Balance)>, u32)").unwrap();
    let expected = EventArg::Tuple(vec![
        EventArg::VecOf(Box::new(EventArg::Tuple(vec![
            EventArg::Primitive("AccountId".to_string()),
            EventArg::Primitive("Balance".to_string()),
        ]))),
        EventArg::Primitive("u32".to_string()),
    ]);
    assert_eq!(arg, expected);
}

#[test]
fn nested_tuples_round_trip() {
    let a = EventArg::Tuple(vec![
        EventArg::Tuple(vec![
            EventArg::Primitive("AccountId".to_string()),
            EventArg::Primitive("Balance".to_string()),
        ]),
        EventArg::Primitive("Hash".to_string()),
    ]);
    let text = a.render();
    assert_eq!(text, "((AccountId,Balance),Hash)".to_string());
    let b = EventArg::from_str(text.as_str()).unwrap();
    assert_eq!(a, b);
}
