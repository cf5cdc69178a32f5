use sval_buffer::bench_data::small_key_map_data;
use sval_buffer::data::ContainerKind;
use sval_buffer::token::{Scalar, Token};
use sval_buffer::ValueBuf;

fn fmt<T: std::fmt::Debug + ?Sized>(v: &T) -> String {
    format!("{:?}", v)
}

#[test]
fn error_stays_recorded_after_later_calls() {
    let mut buf = ValueBuf::new();
    assert!(buf.text_begin(None).is_ok());
    assert!(buf.text_fragment_computed("ab").is_ok());
    assert!(buf.bool(true).is_err());
    // Calls made after the failure don't clear it.
    assert!(buf.text_end().is_ok());
    assert!(buf.i64(1).is_ok());
    assert!(buf.into_err().is_some());

    assert!(ValueBuf::new().into_err().is_none());

    let mut ok = ValueBuf::new();
    assert!(ok.i64(1).is_ok());
    assert!(ok.into_err().is_none());
}

#[test]
fn complete_follows_begins_and_ends() {
    let mut buf = ValueBuf::new();
    assert!(!buf.is_complete());
    assert!(buf.seq_begin(None).is_ok());
    assert!(!buf.is_complete());
    assert!(buf.seq_value_begin().is_ok());
    assert!(buf.text_begin(None).is_ok());
    assert!(buf.text_fragment("a").is_ok());
    assert!(!buf.is_complete());
    assert!(buf.text_end().is_ok());
    assert!(buf.seq_value_end().is_ok());
    assert!(!buf.is_complete());
    assert!(buf.seq_end().is_ok());
    assert!(buf.is_complete());
}

#[test]
fn single_fragment_inlined_up_to_the_limit() {
    let at_limit = "abcdefghijklmnopqrstuvwx";
    assert_eq!(24, at_limit.len());
    let over_limit = "abcdefghijklmnopqrstuvwxy";

    let mut buf = ValueBuf::new();
    assert!(buf.text_begin(Some(at_limit.len())).is_ok());
    assert!(buf.text_fragment(at_limit).is_ok());
    assert!(buf.text_end().is_ok());
    assert!(!buf.parts().is_borrowed());

    let mut buf = ValueBuf::new();
    assert!(buf.text_begin(Some(over_limit.len())).is_ok());
    assert!(buf.text_fragment(over_limit).is_ok());
    assert!(buf.text_end().is_ok());
    assert!(buf.parts().is_borrowed());

    // Once something is borrowed, small fragments are borrowed too.
    let mut buf = ValueBuf::new();
    assert!(buf.seq_begin(None).is_ok());
    assert!(buf.seq_value_begin().is_ok());
    assert!(buf.text_begin(None).is_ok());
    assert!(buf.text_fragment(over_limit).is_ok());
    assert!(buf.text_end().is_ok());
    assert!(buf.seq_value_end().is_ok());
    assert!(buf.seq_value_begin().is_ok());
    assert!(buf.binary_begin(None).is_ok());
    assert!(buf.binary_fragment(b"ab").is_ok());
    assert!(buf.binary_end().is_ok());
    assert!(buf.seq_value_end().is_ok());
    assert!(buf.seq_end().is_ok());
    let replayed = fmt(&buf.to_tokens());
    assert!(replayed.contains("BinaryFragment([97, 98])"), "{}", replayed);
}

#[test]
fn small_key_map_in_key_order() {
    let map = small_key_map_data();
    let tokens = map.to_tokens();
    let keys: Vec<String> = tokens
        .iter()
        .filter_map(|t| match t {
            Token::TextFragment(s) => Some(s.to_string()),
            _ => None,
        })
        .collect();

    let mut expected: Vec<String> = (0..32).map(|i| format!("key-{i}")).collect();
    expected.sort();
    assert_eq!(expected, keys);

    let values: Vec<u64> = tokens
        .iter()
        .filter_map(|t| match t {
            Token::Scalar(Scalar::U64(v)) => Some(*v),
            _ => None,
        })
        .collect();
    let expected_values: Vec<u64> = expected.iter().map(|k| k[4..].parse().unwrap()).collect();
    assert_eq!(expected_values, values);

    assert!(matches!(tokens.first(), Some(Token::Begin(ContainerKind::Mapping, _, Some(32)))));
    assert!(matches!(tokens.last(), Some(Token::End(ContainerKind::Mapping, _))));

    let buf = ValueBuf::collect(&tokens).unwrap();
    assert!(buf.is_complete());
    let owned = buf.into_owned().unwrap();
    assert!(!owned.parts().is_borrowed());
}

#[test]
fn replay_keeps_primitives_in_order() {
    let tokens = vec![
        Token::Begin(ContainerKind::Sequence, sval_buffer::data::Meta::empty(), None),
        Token::Begin(ContainerKind::SeqValue, sval_buffer::data::Meta::empty(), None),
        Token::Scalar(Scalar::I32(3)),
        Token::End(ContainerKind::SeqValue, sval_buffer::data::Meta::empty()),
        Token::Begin(ContainerKind::SeqValue, sval_buffer::data::Meta::empty(), None),
        Token::TextBegin(None),
        Token::TextFragment("x"),
        Token::TextEnd,
        Token::End(ContainerKind::SeqValue, sval_buffer::data::Meta::empty()),
        Token::Begin(ContainerKind::SeqValue, sval_buffer::data::Meta::empty(), None),
        Token::Scalar(Scalar::Bool(false)),
        Token::End(ContainerKind::SeqValue, sval_buffer::data::Meta::empty()),
        Token::End(ContainerKind::Sequence, sval_buffer::data::Meta::empty()),
    ];
    let buf = ValueBuf::collect(&tokens).unwrap();
    let scalars: Vec<String> = buf
        .to_tokens()
        .iter()
        .filter_map(|t| match t {
            Token::Scalar(s) => Some(fmt(s)),
            _ => None,
        })
        .collect();
    assert_eq!(vec!["I32(3)".to_string(), "Bool(false)".to_string()], scalars);

    // A buffer that holds nothing streams back out as null.
    let empty = ValueBuf::new();
    assert_eq!("[Scalar(Null)]", fmt(&empty.to_tokens()));
}
