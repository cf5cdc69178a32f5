use sval_buffer::data::{ContainerKind, Index, Label, Meta, Tag};
use sval_buffer::error::{Error, ErrorKind};
use sval_buffer::token::{Scalar, Token};
use sval_buffer::value::part::{BinaryPart, Kind, Part, TextPart, KIND_MASK, TAG_BORROWED, TAG_OWNED};
use sval_buffer::value::parts::Parts;
use sval_buffer::{Value, ValueBuf};

fn debug<T: std::fmt::Debug>(v: &T) -> String {
    format!("{:?}", v)
}

fn tag_str(tag: &Option<Tag>) -> String {
    match tag {
        Some(t) => format!("Some({})", t.data),
        None => "None".to_owned(),
    }
}

fn label_str(label: &Option<Label>) -> String {
    match label {
        Some(l) => format!("Some({:?})", l.as_str()),
        None => "None".to_owned(),
    }
}

fn index_str(index: &Option<Index>) -> String {
    match index {
        Some(i) => format!("Some({})", i.value),
        None => "None".to_owned(),
    }
}

// A description of a part, in the shape the buffer's own decoding gives it.
fn describe(part: &Part) -> String {
    match part {
        Part::Scalar(s) => debug(s),
        Part::Tag(m) => format!(
            "Tag {{ tag: {}, label: {}, index: {} }}",
            tag_str(&m.tag),
            label_str(&m.label),
            index_str(&m.index)
        ),
        Part::TagHint(t) => format!("TagHint {{ tag: {} }}", t.data),
        Part::Text(TextPart::Borrowed(s)) => format!("Text({:?})", s),
        Part::Text(TextPart::Inline(s)) => format!("Text({:?})", s),
        Part::Binary(BinaryPart::Borrowed(b)) => format!("Binary({:?})", b),
        Part::Binary(BinaryPart::Inline(b)) => format!("Binary({:?})", b),
        Part::Container(h) => format!(
            "{:?} {{ num_parts: {}, num_entries: {}, tag: {}, label: {}, index: {} }}",
            h.kind,
            h.len,
            h.num_entries,
            tag_str(&h.meta.tag),
            label_str(&h.meta.label),
            index_str(&h.meta.index)
        ),
    }
}

fn decode(parts: &Parts) -> Vec<String> {
    (0..parts.len()).map(|i| describe(parts.get(i))).collect()
}

fn container(
    kind: &str,
    num_parts: u32,
    num_entries: u32,
    tag: Option<&str>,
    label: Option<&str>,
    index: Option<i64>,
) -> String {
    format!(
        "{} {{ num_parts: {}, num_entries: {}, tag: {}, label: {}, index: {} }}",
        kind,
        num_parts,
        num_entries,
        match tag {
            Some(t) => format!("Some({})", t),
            None => "None".to_owned(),
        },
        match label {
            Some(l) => format!("Some({:?})", l),
            None => "None".to_owned(),
        },
        match index {
            Some(i) => format!("Some({})", i),
            None => "None".to_owned(),
        }
    )
}

fn tag_part(tag: Option<&str>, label: Option<&str>, index: Option<i64>) -> String {
    format!(
        "Tag {{ tag: {}, label: {}, index: {} }}",
        match tag {
            Some(t) => format!("Some({})", t),
            None => "None".to_owned(),
        },
        match label {
            Some(l) => format!("Some({:?})", l),
            None => "None".to_owned(),
        },
        match index {
            Some(i) => format!("Some({})", i),
            None => "None".to_owned(),
        }
    )
}

fn scalar(s: Scalar) -> String {
    debug(&s)
}

fn meta(tag: Option<Tag>, label: Option<&'static str>, index: Option<Index>) -> Meta<'static> {
    Meta {
        tag,
        label: label.map(Label::new),
        index,
    }
}

fn begin(kind: ContainerKind, m: Meta<'static>, hint: Option<usize>) -> Token<'static> {
    Token::Begin(kind, m, hint)
}

fn end(kind: ContainerKind, m: Meta<'static>) -> Token<'static> {
    Token::End(kind, m)
}

fn text(s: &str) -> Vec<Token<'_>> {
    vec![Token::TextBegin(Some(s.len())), Token::TextFragment(s), Token::TextEnd]
}

fn binary(b: &[u8]) -> Vec<Token<'_>> {
    vec![Token::BinaryBegin(Some(b.len())), Token::BinaryFragment(b), Token::BinaryEnd]
}

fn i32_token(v: i32) -> Token<'static> {
    Token::Scalar(Scalar::I32(v))
}

fn seq_of<'a>(items: Vec<Vec<Token<'a>>>) -> Vec<Token<'a>> {
    let mut ts = vec![begin(ContainerKind::Sequence, Meta::empty(), Some(items.len()))];
    for item in items {
        ts.push(begin(ContainerKind::SeqValue, Meta::empty(), None));
        ts.extend(item);
        ts.push(end(ContainerKind::SeqValue, Meta::empty()));
    }
    ts.push(end(ContainerKind::Sequence, Meta::empty()));
    ts
}

const RUST_OPTION_NONE: Tag = Tag { data: "RUST_OPTION_NONE" };
const RUST_OPTION_SOME: Tag = Tag { data: "RUST_OPTION_SOME" };

#[test]
fn is_send_sync() {
    fn assert<T: Send + Sync>() {}

    assert::<ValueBuf>();
    assert::<Value>();
}

#[test]
fn empty_is_complete() {
    assert!(!ValueBuf::new().is_complete());
}

#[test]
fn primitive_is_complete() {
    assert!(ValueBuf::collect(&[i32_token(42)]).unwrap().is_complete());
}

#[test]
fn text_is_complete() {
    let mut buf = ValueBuf::new();

    buf.text_begin(None).unwrap();

    assert!(!buf.is_complete());

    buf.text_end().unwrap();

    assert!(buf.is_complete());
}

#[test]
fn binary_is_complete() {
    let mut buf = ValueBuf::new();

    buf.binary_begin(None).unwrap();

    assert!(!buf.is_complete());

    buf.binary_end().unwrap();

    assert!(buf.is_complete());
}

#[test]
fn map_is_complete() {
    let mut buf = ValueBuf::new();

    buf.map_begin(None).unwrap();

    assert!(!buf.is_complete());

    buf.map_end().unwrap();

    assert!(buf.is_complete());
}

#[test]
fn seq_is_complete() {
    let mut buf = ValueBuf::new();

    buf.seq_begin(None).unwrap();

    assert!(!buf.is_complete());

    buf.seq_end().unwrap();

    assert!(buf.is_complete());
}

#[test]
fn value_empty() {
    assert_eq!(
        debug(&vec![Token::Scalar(Scalar::Null)]),
        debug(&ValueBuf::new().to_tokens())
    );
}

#[test]
fn buffer_primitive() {
    let abc = text("abc");
    let abc_bytes = binary(b"abc");
    let empty_map = vec![
        begin(ContainerKind::Mapping, Meta::empty(), Some(0)),
        end(ContainerKind::Mapping, Meta::empty()),
    ];
    let empty_seq = seq_of(vec![]);

    for (value, expected) in [
        (
            ValueBuf::collect(&[Token::Scalar(Scalar::Bool(true))]).unwrap(),
            vec![scalar(Scalar::Bool(true))],
        ),
        (ValueBuf::collect(&[Token::Scalar(Scalar::I8(1))]).unwrap(), vec![scalar(Scalar::I8(1))]),
        (ValueBuf::collect(&[Token::Scalar(Scalar::I16(2))]).unwrap(), vec![scalar(Scalar::I16(2))]),
        (ValueBuf::collect(&[Token::Scalar(Scalar::I32(3))]).unwrap(), vec![scalar(Scalar::I32(3))]),
        (ValueBuf::collect(&[Token::Scalar(Scalar::I64(4))]).unwrap(), vec![scalar(Scalar::I64(4))]),
        (ValueBuf::collect(&[Token::Scalar(Scalar::I128(5))]).unwrap(), vec![scalar(Scalar::I128(5))]),
        (ValueBuf::collect(&[Token::Scalar(Scalar::U8(1))]).unwrap(), vec![scalar(Scalar::U8(1))]),
        (ValueBuf::collect(&[Token::Scalar(Scalar::U16(2))]).unwrap(), vec![scalar(Scalar::U16(2))]),
        (ValueBuf::collect(&[Token::Scalar(Scalar::U32(3))]).unwrap(), vec![scalar(Scalar::U32(3))]),
        (ValueBuf::collect(&[Token::Scalar(Scalar::U64(4))]).unwrap(), vec![scalar(Scalar::U64(4))]),
        (ValueBuf::collect(&[Token::Scalar(Scalar::U128(5))]).unwrap(), vec![scalar(Scalar::U128(5))]),
        (
            ValueBuf::collect(&[Token::Scalar(Scalar::F32(3.14f32.to_bits()))]).unwrap(),
            vec![scalar(Scalar::F32(3.14f32.to_bits()))],
        ),
        (
            ValueBuf::collect(&[Token::Scalar(Scalar::F64(3.1415f64.to_bits()))]).unwrap(),
            vec![scalar(Scalar::F64(3.1415f64.to_bits()))],
        ),
        (ValueBuf::collect(&abc).unwrap(), vec!["Text(\"abc\")".to_owned()]),
        (ValueBuf::collect(&abc_bytes).unwrap(), vec!["Binary([97, 98, 99])".to_owned()]),
        (
            ValueBuf::collect(&empty_map).unwrap(),
            vec![container("Mapping", 0, 0, None, None, None)],
        ),
        (
            ValueBuf::collect(&empty_seq).unwrap(),
            vec![container("Sequence", 0, 0, None, None, None)],
        ),
    ] {
        assert_eq!(expected, decode(value.parts()), "{:?}", value);
    }
}

#[test]
fn buffer_empty_enum() {
    let mut buf = ValueBuf::new();

    buf.enum_begin(None, Some(&Label::new("Enum")), None).unwrap();
    buf.enum_end(None, Some(&Label::new("Enum")), None).unwrap();

    assert_eq!(
        vec![container("Enum", 0, 0, None, Some("Enum"), None)],
        decode(buf.parts())
    );
}

#[test]
fn buffer_empty_record() {
    let mut buf = ValueBuf::new();

    buf.record_begin(None, Some(&Label::new("Record")), None, Some(0)).unwrap();
    buf.record_end(None, Some(&Label::new("Record")), None).unwrap();

    assert_eq!(
        vec![container("Record", 0, 0, None, Some("Record"), None)],
        decode(buf.parts())
    );
}

#[test]
fn buffer_empty_tuple() {
    let mut buf = ValueBuf::new();

    buf.tuple_begin(None, Some(&Label::new("Tuple")), None, Some(0)).unwrap();
    buf.tuple_end(None, Some(&Label::new("Tuple")), None).unwrap();

    assert_eq!(
        vec![container("Tuple", 0, 0, None, Some("Tuple"), None)],
        decode(buf.parts())
    );
}

#[test]
fn buffer_reuse() {
    let mut buf = ValueBuf::new();

    buf.i32(42).unwrap();

    assert_eq!(
        decode(Value::collect(&[i32_token(42)]).unwrap().parts()),
        decode(buf.to_value().parts())
    );

    buf.clear();

    buf.bool(true).unwrap();

    assert_eq!(
        decode(Value::collect(&[Token::Scalar(Scalar::Bool(true))]).unwrap().parts()),
        decode(buf.to_value().parts())
    );
}

#[test]
fn buffer_computed_text() {
    // Computed fragments are buffered inline
    let mut buf = ValueBuf::new();

    buf.text_begin(None).unwrap();
    buf.text_fragment_computed("ab").unwrap();
    buf.text_fragment_computed("cd").unwrap();
    buf.text_end().unwrap();

    assert!(buf.is_complete());

    match buf.parts().get(0) {
        Part::Text(TextPart::Inline(text)) => assert_eq!("abcd", text.as_str()),
        _ => unreachable!(),
    }
}

#[test]
fn buffer_value_inside_text() {
    // A value streamed in the middle of a text string must fail
    let mut buf = ValueBuf::new();

    buf.text_begin(None).unwrap();
    buf.text_fragment_computed("ab").unwrap();

    assert!(buf.bool(true).is_err());
}

#[test]
fn buffer_invalid() {
    // A value that fails before streaming anything, and one that ends a
    // container it never began: neither panics
    let _ = Value::collect(&[]);
    let _ = Value::collect_owned(&[]);

    let unbalanced = [end(ContainerKind::Sequence, Meta::empty())];
    assert!(Value::collect(&unbalanced).is_err());
    assert!(Value::collect_owned(&unbalanced).is_err());
}

#[test]
fn collect_owned() {
    let short_lived = String::from("abc");

    let buf = ValueBuf::collect_owned(&text(&short_lived)).unwrap();
    drop(short_lived);

    match buf.parts().get(0) {
        Part::Text(TextPart::Inline(text)) => assert_eq!("abc", text.as_str()),
        _ => unreachable!(),
    }
}

#[test]
fn into_owned() {
    // Long enough that it's buffered as borrowed rather than inlined
    let short_lived = String::from("a value too long to buffer inline");

    let owned = {
        let tokens = text(&short_lived);
        let buf = ValueBuf::collect(&tokens).unwrap();
        assert!(buf.parts().is_borrowed());

        buf.into_owned().unwrap()
    };
    drop(short_lived);

    // The buffer is rebuilt into a single allocation of exactly the
    // required size
    assert_eq!(owned.parts().len(), owned.parts().capacity());

    match owned.parts().get(0) {
        Part::Text(TextPart::Inline(text)) => {
            assert_eq!("a value too long to buffer inline", text.as_str())
        }
        _ => unreachable!(),
    }
}

#[test]
fn small_borrowed_text_inlined() {
    // Small borrowed fragments are copied into the buffer up front, so
    // nothing borrows and `into_owned` has nothing to convert
    let short_lived = String::from("abc");

    let owned = {
        let tokens = text(&short_lived);
        let buf = ValueBuf::collect(&tokens).unwrap();
        assert!(!buf.parts().is_borrowed());

        buf.into_owned().unwrap()
    };
    drop(short_lived);

    match owned.parts().get(0) {
        Part::Text(TextPart::Inline(text)) => assert_eq!("abc", text.as_str()),
        _ => unreachable!(),
    }
}

#[test]
fn small_borrowed_text_stays_borrowed_after_borrow() {
    // Once something is already borrowed, small fragments keep borrowing too
    let long = String::from("a value too long to buffer inline");
    let small = String::from("abc");

    let mut tokens = vec![begin(ContainerKind::Tuple, Meta::empty(), Some(2))];
    for (i, s) in [&long, &small].into_iter().enumerate() {
        let m = || meta(None, None, Some(Index::new(i as i64)));
        tokens.push(begin(ContainerKind::TupleValue, m(), None));
        tokens.extend(text(s));
        tokens.push(end(ContainerKind::TupleValue, m()));
    }
    tokens.push(end(ContainerKind::Tuple, Meta::empty()));

    let buf = ValueBuf::collect(&tokens).unwrap();

    assert!(buf.parts().is_borrowed());

    // The small string is the second tuple value's payload
    match buf.parts().get(4) {
        Part::Text(TextPart::Borrowed(text)) => assert_eq!("abc", *text),
        _ => unreachable!(),
    }
}

#[test]
fn into_owned_binary_clone_and_drop() {
    let short_lived = vec![1u8, 2, 3];

    let owned = {
        let tokens = binary(&short_lived);
        ValueBuf::collect(&tokens).unwrap().into_owned().unwrap()
    };
    let cloned = owned.to_value();
    drop(short_lived);

    for parts in [owned.parts(), cloned.parts()] {
        match parts.get(0) {
            Part::Binary(BinaryPart::Inline(binary)) => assert_eq!(&[1, 2, 3], binary.as_slice()),
            _ => unreachable!(),
        }
    }

    drop(cloned);
    drop(owned);
}

fn nested_tokens<'a>(id: i32, title: &'a str, attributes: &[&'a str]) -> Vec<Token<'a>> {
    let field = |name: &'static str, i: i64| meta(None, Some(name), Some(Index::new(i)));
    let mut ts = vec![begin(
        ContainerKind::RecordTuple,
        meta(None, Some("Nested"), None),
        Some(3),
    )];
    ts.push(begin(ContainerKind::RecordTupleValue, field("id", 0), None));
    ts.push(i32_token(id));
    ts.push(end(ContainerKind::RecordTupleValue, field("id", 0)));
    ts.push(begin(ContainerKind::RecordTupleValue, field("title", 1), None));
    ts.extend(text(title));
    ts.push(end(ContainerKind::RecordTupleValue, field("title", 1)));
    ts.push(begin(ContainerKind::RecordTupleValue, field("attributes", 2), None));
    ts.extend(seq_of(attributes.iter().map(|a| text(a)).collect()));
    ts.push(end(ContainerKind::RecordTupleValue, field("attributes", 2)));
    ts.push(end(ContainerKind::RecordTuple, meta(None, Some("Nested"), None)));
    ts
}

#[test]
fn into_owned_nested() {
    // Borrowed text nested inside containers
    let title = String::from("A very important document");
    let attributes = [String::from("#1"), String::from("a longer attribute")];

    let (expected, owned) = {
        let tokens = nested_tokens(42, &title, &[&attributes[0], &attributes[1]]);

        // Fully-computed collection is already owned; converting borrowed
        // data must produce the same value
        let expected = ValueBuf::collect_owned(&tokens).unwrap();
        let owned = ValueBuf::collect(&tokens).unwrap().into_owned().unwrap();
        (expected, owned)
    };

    assert_eq!(decode(expected.parts()), decode(owned.parts()));

    drop(title);
    drop(attributes);

    // The owned buffer must still stream correctly
    let roundtrip = ValueBuf::collect(&owned.to_tokens()).unwrap();
    assert_eq!(decode(owned.parts()), decode(roundtrip.parts()));
}

#[test]
fn text_mixed_fragments() {
    // A borrowed fragment followed by more fragments is moved into a
    // single inline part
    let mut buf = ValueBuf::new();

    buf.text_begin(None).unwrap();
    buf.text_fragment("borrowed").unwrap();
    buf.text_fragment_computed(" computed ").unwrap();
    buf.text_fragment("borrowed").unwrap();
    buf.text_end().unwrap();

    match buf.parts().get(0) {
        Part::Text(TextPart::Inline(text)) => {
            assert_eq!("borrowed computed borrowed", text.as_str())
        }
        _ => unreachable!(),
    }

    // The buffer owns nothing that needs dropping or converting
    assert!(!buf.parts().is_owned());
    assert!(!buf.parts().is_borrowed());
}

#[test]
fn incomplete_buffering_is_safe_to_walk() {
    // A value abandoned in the middle of a text string
    let computed = String::from("computed");

    let mut buf = ValueBuf::new();
    buf.record_begin(None, Some(&Label::borrowed(&computed)), None, None)
        .unwrap();
    buf.record_value_begin(None, &Label::borrowed(&computed)).unwrap();
    buf.text_begin(None).unwrap();
    buf.text_fragment_computed("nönsense \u{9F} bytes ÿ").unwrap();

    assert!(!buf.is_complete());

    let value = buf.to_value();

    let tokens = value.to_tokens();
    assert!(!tokens.is_empty());

    let owned = value.into_owned().unwrap();

    drop(owned);
    drop(buf);
}

#[test]
fn incomplete_buffering_reuse() {
    let mut buf = ValueBuf::new();

    buf.text_begin(None).unwrap();
    buf.text_fragment_computed("abandoned").unwrap();

    buf.clear();
    buf.i32(42).unwrap();

    assert!(buf.is_complete());
    assert_eq!(
        decode(ValueBuf::collect(&[i32_token(42)]).unwrap().parts()),
        decode(buf.parts())
    );
}

#[test]
fn owned_clone_and_drop() {
    let short_lived = String::from("a computed string");
    let buf = ValueBuf::collect_owned(&text(&short_lived)).unwrap();
    drop(short_lived);

    let cloned = buf.to_value();

    assert_eq!(decode(buf.parts()), decode(cloned.parts()));

    drop(cloned);
    drop(buf);
}

#[test]
fn owned_label() {
    let short_lived = String::from("field");

    let owned = {
        let mut buf = ValueBuf::new();
        buf.record_begin(None, Some(&Label::new("R")), None, Some(1)).unwrap();
        buf.record_value_begin(None, &Label::borrowed(&short_lived)).unwrap();
        buf.i32(1).unwrap();
        buf.record_value_end(None, &Label::borrowed(&short_lived)).unwrap();
        buf.record_end(None, Some(&Label::new("R")), None).unwrap();

        buf.into_owned().unwrap()
    };
    drop(short_lived);

    let roundtrip = ValueBuf::collect(&owned.to_tokens()).unwrap();
    assert_eq!(decode(owned.parts()), decode(roundtrip.parts()));
}

#[test]
fn computed_text_multi_fragment() {
    let mut buf = ValueBuf::new();
    buf.text_begin(None).unwrap();
    buf.text_fragment_computed("ab").unwrap();
    buf.text_fragment_computed("cd").unwrap();
    buf.text_end().unwrap();

    match buf.parts().get(0) {
        Part::Text(TextPart::Inline(text)) => assert_eq!("abcd", text.as_str()),
        _ => unreachable!(),
    }
}

#[test]
fn buffer_option() {
    let none = [Token::Tag(meta(Some(RUST_OPTION_NONE), Some("None"), Some(Index::new(0))))];

    let expected = vec![tag_part(Some("RUST_OPTION_NONE"), Some("None"), Some(0))];

    assert_eq!(expected, decode(ValueBuf::collect(&none).unwrap().parts()));

    let some_meta = || meta(Some(RUST_OPTION_SOME), Some("Some"), Some(Index::new(1)));
    let some = [
        begin(ContainerKind::Tagged, some_meta(), None),
        i32_token(42),
        end(ContainerKind::Tagged, some_meta()),
    ];

    let expected = vec![
        container("Tagged", 1, 0, Some("RUST_OPTION_SOME"), Some("Some"), Some(1)),
        scalar(Scalar::I32(42)),
    ];

    assert_eq!(expected, decode(ValueBuf::collect(&some).unwrap().parts()));
}

#[test]
fn buffer_map() {
    let mut value = ValueBuf::new();

    value.map_begin(Some(2)).unwrap();

    value.map_key_begin().unwrap();
    value.i32(0).unwrap();
    value.map_key_end().unwrap();

    value.map_value_begin().unwrap();
    value.bool(false).unwrap();
    value.map_value_end().unwrap();

    value.map_key_begin().unwrap();
    value.i32(1).unwrap();
    value.map_key_end().unwrap();

    value.map_value_begin().unwrap();
    value.bool(true).unwrap();
    value.map_value_end().unwrap();

    value.map_end().unwrap();

    let expected = vec![
        container("Mapping", 8, 2, None, None, None),
        container("MapKey", 1, 0, None, None, None),
        scalar(Scalar::I32(0)),
        container("MapValue", 1, 0, None, None, None),
        scalar(Scalar::Bool(false)),
        container("MapKey", 1, 0, None, None, None),
        scalar(Scalar::I32(1)),
        container("MapValue", 1, 0, None, None, None),
        scalar(Scalar::Bool(true)),
    ];

    assert_eq!(expected, decode(value.parts()));
}

#[test]
fn buffer_seq() {
    let mut value = ValueBuf::new();

    value.seq_begin(Some(2)).unwrap();

    value.seq_value_begin().unwrap();
    value.bool(false).unwrap();
    value.seq_value_end().unwrap();

    value.seq_value_begin().unwrap();
    value.bool(true).unwrap();
    value.seq_value_end().unwrap();

    value.seq_end().unwrap();

    let expected = vec![
        container("Sequence", 4, 2, None, None, None),
        container("SeqValue", 1, 0, None, None, None),
        scalar(Scalar::Bool(false)),
        container("SeqValue", 1, 0, None, None, None),
        scalar(Scalar::Bool(true)),
    ];

    assert_eq!(expected, decode(value.parts()));
}

#[test]
fn buffer_record() {
    let mut value = ValueBuf::new();

    value
        .record_begin(
            Some(Tag::new("test")),
            Some(&Label::new("A")),
            Some(Index::new(1)),
            Some(2),
        )
        .unwrap();

    value.record_value_begin(None, &Label::new("a")).unwrap();
    value.bool(false).unwrap();
    value.record_value_end(None, &Label::new("a")).unwrap();

    value.record_value_begin(None, &Label::new("b")).unwrap();
    value.bool(true).unwrap();
    value.record_value_end(None, &Label::new("b")).unwrap();

    value
        .record_end(Some(Tag::new("test")), Some(&Label::new("A")), Some(Index::new(1)))
        .unwrap();

    let expected = vec![
        container("Record", 4, 2, Some("test"), Some("A"), Some(1)),
        container("RecordValue", 1, 0, None, Some("a"), None),
        scalar(Scalar::Bool(false)),
        container("RecordValue", 1, 0, None, Some("b"), None),
        scalar(Scalar::Bool(true)),
    ];

    assert_eq!(expected, decode(value.parts()));
}

#[test]
fn buffer_tuple() {
    let mut value = ValueBuf::new();

    value
        .tuple_begin(
            Some(Tag::new("test")),
            Some(&Label::new("A")),
            Some(Index::new(1)),
            Some(2),
        )
        .unwrap();

    value.tuple_value_begin(None, Index::new(0)).unwrap();
    value.bool(false).unwrap();
    value.tuple_value_end(None, Index::new(0)).unwrap();

    value.tuple_value_begin(None, Index::new(1)).unwrap();
    value.bool(true).unwrap();
    value.tuple_value_end(None, Index::new(1)).unwrap();

    value
        .tuple_end(Some(Tag::new("test")), Some(&Label::new("A")), Some(Index::new(1)))
        .unwrap();

    let expected = vec![
        container("Tuple", 4, 2, Some("test"), Some("A"), Some(1)),
        container("TupleValue", 1, 0, None, None, Some(0)),
        scalar(Scalar::Bool(false)),
        container("TupleValue", 1, 0, None, None, Some(1)),
        scalar(Scalar::Bool(true)),
    ];

    assert_eq!(expected, decode(value.parts()));
}

#[test]
fn buffer_record_tuple() {
    let mut value = ValueBuf::new();

    value
        .record_tuple_begin(
            Some(Tag::new("test")),
            Some(&Label::new("A")),
            Some(Index::new(1)),
            Some(2),
        )
        .unwrap();

    value
        .record_tuple_value_begin(None, &Label::new("a"), Index::new(0))
        .unwrap();
    value.bool(false).unwrap();
    value
        .record_tuple_value_end(None, &Label::new("a"), Index::new(0))
        .unwrap();

    value
        .record_tuple_value_begin(None, &Label::new("b"), Index::new(1))
        .unwrap();
    value.bool(true).unwrap();
    value
        .record_tuple_value_end(None, &Label::new("b"), Index::new(1))
        .unwrap();

    value
        .record_tuple_end(Some(Tag::new("test")), Some(&Label::new("A")), Some(Index::new(1)))
        .unwrap();

    let expected = vec![
        container("RecordTuple", 4, 2, Some("test"), Some("A"), Some(1)),
        container("RecordTupleValue", 1, 0, None, Some("a"), Some(0)),
        scalar(Scalar::Bool(false)),
        container("RecordTupleValue", 1, 0, None, Some("b"), Some(1)),
        scalar(Scalar::Bool(true)),
    ];

    assert_eq!(expected, decode(value.parts()));
}

#[test]
fn buffer_enum() {
    let mut value = ValueBuf::new();

    value
        .enum_begin(Some(Tag::new("test")), Some(&Label::new("A")), Some(Index::new(1)))
        .unwrap();

    value
        .tag(None, Some(&Label::new("B")), Some(Index::new(0)))
        .unwrap();

    value
        .enum_end(Some(Tag::new("test")), Some(&Label::new("A")), Some(Index::new(1)))
        .unwrap();

    let expected = vec![
        container("Enum", 1, 0, Some("test"), Some("A"), Some(1)),
        tag_part(None, Some("B"), Some(0)),
    ];

    assert_eq!(expected, decode(value.parts()));
}

#[test]
fn buffer_tag_hints() {
    let mut value = ValueBuf::new();

    value.tag_hint(Tag::new("test")).unwrap();

    value.seq_begin(Some(2)).unwrap();

    value.seq_value_begin().unwrap();
    value.tag_hint(Tag::new("test")).unwrap();
    value.bool(false).unwrap();
    value.seq_value_end().unwrap();

    value.seq_value_begin().unwrap();
    value.bool(true).unwrap();
    value.seq_value_end().unwrap();

    value.seq_end().unwrap();

    value.tag_hint(Tag::new("test")).unwrap();

    let expected = vec![
        "TagHint { tag: test }".to_owned(),
        container("Sequence", 5, 2, None, None, None),
        container("SeqValue", 2, 0, None, None, None),
        "TagHint { tag: test }".to_owned(),
        scalar(Scalar::Bool(false)),
        container("SeqValue", 1, 0, None, None, None),
        scalar(Scalar::Bool(true)),
        "TagHint { tag: test }".to_owned(),
    ];

    assert_eq!(expected, decode(value.parts()));
}

#[test]
fn buffer_roundtrip() {
    let ints = |vs: &[i32]| seq_of(vs.iter().map(|v| vec![i32_token(*v)]).collect());

    let record_field = |name: &'static str, i: i64| meta(None, Some(name), Some(Index::new(i)));
    let record = vec![
        begin(ContainerKind::RecordTuple, meta(None, Some("Record"), None), Some(2)),
        begin(ContainerKind::RecordTupleValue, record_field("a", 0), None),
        i32_token(42),
        end(ContainerKind::RecordTupleValue, record_field("a", 0)),
        begin(ContainerKind::RecordTupleValue, record_field("b", 1), None),
        Token::Scalar(Scalar::Bool(true)),
        end(ContainerKind::RecordTupleValue, record_field("b", 1)),
        end(ContainerKind::RecordTuple, meta(None, Some("Record"), None)),
    ];

    let tuple_field = |i: i64| meta(None, None, Some(Index::new(i)));
    let tuple = vec![
        begin(ContainerKind::Tuple, meta(None, Some("Tuple"), None), Some(2)),
        begin(ContainerKind::TupleValue, tuple_field(0), None),
        i32_token(42),
        end(ContainerKind::TupleValue, tuple_field(0)),
        begin(ContainerKind::TupleValue, tuple_field(1), None),
        Token::Scalar(Scalar::Bool(true)),
        end(ContainerKind::TupleValue, tuple_field(1)),
        end(ContainerKind::Tuple, meta(None, Some("Tuple"), None)),
    ];

    let enum_a = vec![
        begin(ContainerKind::Enum, meta(None, Some("Enum"), None), None),
        Token::Tag(meta(None, Some("A"), Some(Index::new(0)))),
        end(ContainerKind::Enum, meta(None, Some("Enum"), None)),
    ];

    for value_1 in [
        ValueBuf::collect(&[i32_token(42)]).unwrap(),
        ValueBuf::collect(&seq_of(vec![
            seq_of(vec![]),
            seq_of(vec![ints(&[1, 2, 3]), ints(&[4])]),
            seq_of(vec![ints(&[5, 6]), ints(&[7, 8, 9])]),
        ]))
        .unwrap(),
        ValueBuf::collect(&record).unwrap(),
        ValueBuf::collect(&tuple).unwrap(),
        ValueBuf::collect(&enum_a).unwrap(),
    ] {
        let value_2 = ValueBuf::collect(&value_1.to_tokens()).unwrap();

        assert_eq!(decode(value_1.parts()), decode(value_2.parts()), "{:?}", value_1);
    }
}

#[test]
fn into_owned_streams_computed_tokens() {
    // Making a buffer owned keeps what it streams, with fragments computed
    let long = String::from("a value too long to buffer inline");
    let tokens = text(&long);

    let buf = ValueBuf::collect(&tokens).unwrap();
    let before = buf.to_tokens();
    assert!(matches!(before[1], Token::TextFragment(_)));

    let computed: Vec<Token> = before.iter().map(|t| t.to_computed()).collect();
    let owned = buf.into_owned().unwrap();

    assert_eq!(debug(&computed), debug(&owned.to_tokens()));
    assert!(!owned.parts().is_borrowed());
}

#[test]
fn collect_reports_the_error_that_stopped_it() {
    let tokens = [Token::TextBegin(None), Token::Scalar(Scalar::Bool(true))];
    let err = ValueBuf::collect(&tokens).unwrap_err();
    assert!(matches!(
        err,
        Error(ErrorKind::InvalidValue {
            reason: "attempt to buffer value instead of text or binary"
        })
    ));
    assert_eq!(
        "the value being buffered is invalid: attempt to buffer value instead of text or binary",
        err.message()
    );

    let tokens = [Token::TextFragment("abc")];
    let err = ValueBuf::collect(&tokens).unwrap_err();
    assert!(matches!(err, Error(ErrorKind::OutsideContainer { method: "text" })));
    assert_eq!("expected a fragment while buffering text", err.message());
}

#[test]
fn stream_to_value_buffers_tokens() {
    let tokens = text("abc");
    let buf = sval_buffer::stream_to_value(&tokens).unwrap();
    assert_eq!(vec!["Text(\"abc\")".to_owned()], decode(buf.parts()));

    let buf = sval_buffer::stream_to_value_owned(&tokens).unwrap();
    match buf.parts().get(0) {
        Part::Text(TextPart::Inline(text)) => assert_eq!("abc", text.as_str()),
        _ => unreachable!(),
    }
}

#[test]
fn tag_bytes_read_back_their_kind() {
    for k in [
        Kind::Null,
        Kind::Bool,
        Kind::I128,
        Kind::F64,
        Kind::Tag,
        Kind::Text,
        Kind::Binary,
        Kind::RecordTupleValue,
        Kind::Mapping,
        Kind::RecordTuple,
    ] {
        for (owned, borrowed) in [(false, false), (true, false), (false, true), (true, true)] {
            let tag = k.to_tag_byte(owned, borrowed);
            assert_eq!(k, Kind::from_tag_byte(tag));
            assert_eq!(owned, tag & TAG_OWNED != 0);
            assert_eq!(borrowed, tag & TAG_BORROWED != 0);
            assert!(tag & KIND_MASK <= 30);
        }
    }
    assert_eq!(30, Kind::RecordTuple.to_code());
    assert!(Kind::Text.is_container());
    assert!(!Kind::Tag.is_container());
    assert!(Kind::Mapping.is_entry_tracking());
    assert!(!Kind::MapKey.is_entry_tracking());
}
