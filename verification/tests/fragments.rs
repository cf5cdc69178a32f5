use sval_buffer::fragments::{BinaryBuf, TextBuf};
use sval_buffer::error::{Error, ErrorKind};
use sval_buffer::token::{Scalar, Token};

#[test]
fn text_buf_empty() {
    assert_eq!("", TextBuf::new().as_borrowed_str().unwrap());
}

#[test]
fn binary_buf_empty() {
    assert_eq!(&[] as &[u8], BinaryBuf::new().as_borrowed_slice().unwrap());
}

#[test]
fn text_fragment_replace() {
    let mut buf = TextBuf::new();

    assert_eq!("", buf.as_str());
    assert_eq!(Some(""), buf.as_borrowed_str());

    buf.push_fragment("abc").unwrap();

    assert_eq!("abc", buf.as_str());
    assert_eq!(Some("abc"), buf.as_borrowed_str());
}

#[test]
fn text_fragment_clear() {
    let mut buf = TextBuf::new();

    buf.push_fragment("abc").unwrap();
    buf.clear();

    assert_eq!("", buf.as_str());
}

#[test]
fn binary_fragment_replace() {
    let mut buf = BinaryBuf::new();

    assert_eq!(b"" as &[u8], buf.as_slice());
    assert_eq!(Some(b"" as &[u8]), buf.as_borrowed_slice());

    buf.push_fragment(b"abc").unwrap();

    assert_eq!(b"abc", buf.as_slice());
    assert_eq!(Some(b"abc" as &[u8]), buf.as_borrowed_slice());
}

#[test]
fn binary_fragment_clear() {
    let mut buf = BinaryBuf::new();

    buf.push_fragment(b"abc").unwrap();
    buf.clear();

    assert_eq!(b"", buf.as_slice());
}

#[test]
fn text_fragment_computed() {
    let mut buf = TextBuf::new();

    buf.push_fragment_computed("abc").unwrap();

    assert_eq!("abc", buf.as_str());
    assert_eq!(None, buf.as_borrowed_str());
}

#[test]
fn binary_fragment_computed() {
    let mut buf = BinaryBuf::new();

    buf.push_fragment_computed(b"abc").unwrap();

    assert_eq!(b"abc" as &[u8], buf.as_slice());
    assert_eq!(None, buf.as_borrowed_slice());
}

#[test]
fn text_fragment_extend() {
    let mut buf = TextBuf::new();

    buf.push_fragment("abc").unwrap();
    buf.push_fragment("def").unwrap();

    assert_eq!("abcdef", buf.as_str());
    assert_eq!(None, buf.as_borrowed_str());
}

#[test]
fn binary_fragment_extend() {
    let mut buf = BinaryBuf::new();

    buf.push_fragment(b"abc").unwrap();
    buf.push_fragment(b"def").unwrap();

    assert_eq!(b"abcdef" as &[u8], buf.as_slice());
    assert_eq!(None, buf.as_borrowed_slice());
}

#[test]
fn text_collect_joins_fragments() {
    let tokens = vec![
        Token::TextBegin(None),
        Token::TextFragment("ab"),
        Token::TextFragmentComputed("cd".to_owned()),
        Token::TextEnd,
    ];
    let buf = TextBuf::collect(&tokens).unwrap();
    assert_eq!("abcd", buf.as_str());
    assert_eq!(None, buf.as_borrowed_str());
}

fn debug<T: std::fmt::Debug>(v: &T) -> String {
    format!("{:?}", v)
}

#[test]
fn stream_text_buf() {
    let mut buf = TextBuf::new();
    buf.push_fragment("abc").unwrap();

    let expected = [Token::TextBegin(Some(3)), Token::TextFragment("abc"), Token::TextEnd];
    assert_eq!(debug(&expected.as_slice()), debug(&buf.stream().as_slice()));
    assert_eq!(debug(&expected.as_slice()), debug(&buf.stream_ref().as_slice()));
}

#[test]
fn stream_binary_buf() {
    let mut buf = BinaryBuf::new();
    buf.push_fragment(b"abc").unwrap();

    let expected = [Token::BinaryBegin(Some(3)), Token::BinaryFragment(b"abc"), Token::BinaryEnd];
    assert_eq!(debug(&expected.as_slice()), debug(&buf.stream().as_slice()));
    assert_eq!(debug(&expected.as_slice()), debug(&buf.stream_ref().as_slice()));
}

#[test]
fn stream_ref_computed_text_buf() {
    let mut buf = TextBuf::new();
    buf.push_fragment("ab").unwrap();
    buf.push_fragment_computed("cd").unwrap();

    let expected = [
        Token::TextBegin(Some(4)),
        Token::TextFragmentComputed("abcd".to_owned()),
        Token::TextEnd,
    ];
    assert_eq!(debug(&expected.as_slice()), debug(&buf.stream_ref().as_slice()));
}

#[test]
fn text_buf_from_and_default() {
    let buf = TextBuf::from("abc");
    assert_eq!(Some("abc"), buf.as_borrowed_str());
    assert_eq!("", TextBuf::default().as_str());

    let buf = BinaryBuf::from(b"abc" as &[u8]);
    assert_eq!(Some(b"abc" as &[u8]), buf.as_borrowed_slice());
    assert_eq!(b"" as &[u8], BinaryBuf::default().as_slice());
}

#[test]
fn text_collect_rejects_numbers() {
    let err = TextBuf::collect(&[Token::Scalar(Scalar::I32(1))]).unwrap_err();
    assert!(matches!(err, Error(ErrorKind::Unsupported { actual: "integer", expected: "text" })));
    assert_eq!("unexpected integer, expected text", err.message());
}

#[test]
fn fragment_bufs_replay_losslessly() {
    let mut borrowed = TextBuf::new();
    borrowed.push_fragment("abc").unwrap();
    let mut owned = TextBuf::new();
    owned.push_fragment("ab").unwrap();
    owned.push_fragment_computed("c").unwrap();

    for buf in [borrowed, owned] {
        let tokens = buf.stream_ref();
        let replayed = TextBuf::collect(&tokens).unwrap();
        assert_eq!(buf.as_str(), replayed.as_str());
        assert_eq!(buf.as_borrowed_str().is_some(), replayed.as_borrowed_str().is_some());
    }

    let mut bytes = BinaryBuf::new();
    bytes.push_fragment(b"ab").unwrap();
    bytes.push_fragment(b"c").unwrap();
    let tokens = bytes.stream_ref();
    let replayed = BinaryBuf::collect(&tokens).unwrap();
    assert_eq!(b"abc" as &[u8], replayed.as_slice());
    assert_eq!(None, replayed.as_borrowed_slice());
}

#[test]
fn text_buf_wide_integers_as_decimal_text() {
    let buf = TextBuf::collect(&[Token::Scalar(Scalar::U64(u64::MAX))]).unwrap();
    assert_eq!("18446744073709551615", buf.as_str());

    let buf = TextBuf::collect(&[Token::Scalar(Scalar::I128(i128::MIN))]).unwrap();
    assert_eq!("-170141183460469231731687303715884105728", buf.as_str());

    let buf = TextBuf::collect(&[Token::Scalar(Scalar::U128(9223372036854775808))]).unwrap();
    assert_eq!("9223372036854775808", buf.as_str());

    // Integers that fit in 64 bits are still refused.
    let err = TextBuf::collect(&[Token::Scalar(Scalar::U64(1))]).unwrap_err();
    assert!(matches!(err, Error(ErrorKind::Unsupported { actual: "integer", expected: "text" })));
}

#[test]
fn binary_buf_wide_integers_refused_as_text() {
    let err = BinaryBuf::collect(&[Token::Scalar(Scalar::U64(u64::MAX))]).unwrap_err();
    assert!(matches!(err, Error(ErrorKind::Unsupported { actual: "text", expected: "binary" })));
}

fn tag_token(tag: Option<&'static str>, label: Option<sval_buffer::data::Label<'static>>) -> Token<'static> {
    Token::Tag(sval_buffer::data::Meta { tag: tag.map(sval_buffer::data::Tag::new), label, index: None })
}

#[test]
fn text_buf_labelled_tag_is_its_label() {
    let buf = TextBuf::collect(&[tag_token(None, Some(sval_buffer::data::Label::new("A")))]).unwrap();
    assert_eq!("A", buf.as_str());
    assert_eq!(Some("A"), buf.as_borrowed_str());

    let text = String::from("computed");
    let label = sval_buffer::data::Label::borrowed(text.as_str()).to_owned();
    let buf = TextBuf::collect(&[tag_token(Some("UNIT"), Some(label))]).unwrap();
    assert_eq!("computed", buf.as_str());
    assert_eq!(None, buf.as_borrowed_str());
}

#[test]
fn text_buf_unlabelled_or_none_tag_is_null() {
    let err = TextBuf::collect(&[tag_token(None, None)]).unwrap_err();
    assert!(matches!(err, Error(ErrorKind::Unsupported { actual: "null", expected: "text" })));

    let err = TextBuf::collect(&[tag_token(Some("RUST_OPTION_NONE"), Some(sval_buffer::data::Label::new("None")))])
        .unwrap_err();
    assert!(matches!(err, Error(ErrorKind::Unsupported { actual: "null", expected: "text" })));
}

#[test]
fn binary_buf_labelled_tag_refused_as_text() {
    let err = BinaryBuf::collect(&[tag_token(None, Some(sval_buffer::data::Label::new("A")))]).unwrap_err();
    assert!(matches!(err, Error(ErrorKind::Unsupported { actual: "text", expected: "binary" })));
    let err = BinaryBuf::collect(&[tag_token(None, None)]).unwrap_err();
    assert!(matches!(err, Error(ErrorKind::Unsupported { actual: "null", expected: "binary" })));
}
