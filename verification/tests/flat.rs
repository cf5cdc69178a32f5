use std::borrow::Cow;

use sval_buffer::data::{ContainerKind, Index, Label, Meta, Tag};
use sval_buffer::error::{Error, ErrorKind};
use sval_buffer::stream::flat::{
    buffer_or_begin, buffer_or_end, buffer_or_with, flatten, FlatStream, mark_field, mark_index, mark_map, take_end, take_enum,
    value_with, BeginStep, BufferKind, EndStep, EndTarget, EnumEnd, FlatState, ValueRoute,
};
use sval_buffer::stream::{Stream, StreamEnum, StreamMap, StreamRecord, StreamSeq, StreamTuple};
use sval_buffer::token::{Scalar, Token};

// A recursive value built from what the flattening stream hands out.

#[derive(Debug, PartialEq, Clone)]
struct TagV {
    tag: Option<&'static str>,
    label: Option<String>,
    index: Option<i64>,
}

impl TagV {
    fn new(tag: Option<Tag>, label: Option<&Label>, index: Option<Index>) -> TagV {
        TagV { tag: tag.map(|t| t.data), label: label.map(|l| l.as_str().to_string()), index: index.map(|i| i.value) }
    }

    fn labeled(label: &str, index: Option<i64>) -> TagV {
        TagV { tag: None, label: Some(label.to_string()), index }
    }
}

#[derive(Debug, PartialEq)]
enum Value<'sval> {
    Null,
    Bool(bool),
    I64(i64),
    F64(f64),
    Binary(Cow<'sval, [u8]>),
    Text(Cow<'sval, str>),
    Tag(TagV),
    Tagged(TagV, Box<Value<'sval>>),
    Sequence(Vec<Value<'sval>>),
    Mapping(Vec<(Value<'sval>, Value<'sval>)>),
    Tuple(TagV, Vec<(i64, Value<'sval>)>),
    Record(TagV, Vec<(String, Value<'sval>)>),
    Enum(TagV, Option<Box<Variant<'sval>>>),
}

#[derive(Debug, PartialEq)]
enum Variant<'sval> {
    Tag(TagV),
    Tagged(TagV, Box<Value<'sval>>),
    Tuple(TagV, Vec<(i64, Value<'sval>)>),
    Record(TagV, Vec<(String, Value<'sval>)>),
    Enum(Box<Value<'sval>>),
}

#[derive(Default)]
struct ToValue;

struct ToSeq<'sval>(Vec<Value<'sval>>);

struct ToMap<'sval> {
    key: Option<Value<'sval>>,
    entries: Vec<(Value<'sval>, Value<'sval>)>,
}

struct ToTuple<'sval>(TagV, Vec<(i64, Value<'sval>)>);

struct ToRecord<'sval>(TagV, Vec<(String, Value<'sval>)>);

/// An enum stream, with the tags of the enums it is nested in, outermost first.
struct ToEnum {
    tags: Vec<TagV>,
}

struct ToEnumTuple<'sval>(Vec<TagV>, ToTuple<'sval>);

struct ToEnumRecord<'sval>(Vec<TagV>, ToRecord<'sval>);

fn wrap<'sval>(tags: &[TagV], variant: Option<Variant<'sval>>) -> Value<'sval> {
    let mut value = Value::Enum(tags[tags.len() - 1].clone(), variant.map(Box::new));
    for tag in tags[..tags.len() - 1].iter().rev() {
        value = Value::Enum(tag.clone(), Some(Box::new(Variant::Enum(Box::new(value)))));
    }
    value
}

fn to_value<'sval>(tokens: &[Token<'sval>]) -> Result<Value<'sval>, Error> {
    flatten(ToValue, tokens)
}

impl<'sval> Stream<'sval> for ToValue {
    type Ok = Value<'sval>;
    type Sequence = ToSeq<'sval>;
    type Mapping = ToMap<'sval>;
    type Tuple = ToTuple<'sval>;
    type Record = ToRecord<'sval>;
    type Enum = ToEnum;

    fn value_computed(self, value: &[Token<'sval>]) -> Result<Value<'sval>, Error> {
        to_value(value)
    }

    fn null(self) -> Result<Value<'sval>, Error> {
        Ok(Value::Null)
    }

    fn bool(self, value: bool) -> Result<Value<'sval>, Error> {
        Ok(Value::Bool(value))
    }

    fn i64(self, value: i64) -> Result<Value<'sval>, Error> {
        Ok(Value::I64(value))
    }

    fn f32_bits(self, bits: u32) -> Result<Value<'sval>, Error> {
        Ok(Value::F64(f32::from_bits(bits) as f64))
    }

    fn f64_bits(self, bits: u64) -> Result<Value<'sval>, Error> {
        Ok(Value::F64(f64::from_bits(bits)))
    }

    fn text(self, text: &'sval str) -> Result<Value<'sval>, Error> {
        Ok(Value::Text(Cow::Borrowed(text)))
    }

    fn text_computed(self, text: &str) -> Result<Value<'sval>, Error> {
        Ok(Value::Text(Cow::Owned(text.to_string())))
    }

    fn binary(self, binary: &'sval [u8]) -> Result<Value<'sval>, Error> {
        Ok(Value::Binary(Cow::Borrowed(binary)))
    }

    fn binary_computed(self, binary: &[u8]) -> Result<Value<'sval>, Error> {
        Ok(Value::Binary(Cow::Owned(binary.to_vec())))
    }

    fn tag(self, tag: Option<Tag>, label: Option<&Label>, index: Option<Index>) -> Result<Value<'sval>, Error> {
        Ok(Value::Tag(TagV::new(tag, label, index)))
    }

    fn tagged_computed(
        self,
        tag: Option<Tag>,
        label: Option<&Label>,
        index: Option<Index>,
        value: &[Token<'sval>],
    ) -> Result<Value<'sval>, Error> {
        Ok(Value::Tagged(TagV::new(tag, label, index), Box::new(to_value(value)?)))
    }

    fn seq_begin(self, _: Option<usize>) -> Result<ToSeq<'sval>, Error> {
        Ok(ToSeq(Vec::new()))
    }

    fn map_begin(self, _: Option<usize>) -> Result<ToMap<'sval>, Error> {
        Ok(ToMap { key: None, entries: Vec::new() })
    }

    fn tuple_begin(
        self,
        tag: Option<Tag>,
        label: Option<&Label>,
        index: Option<Index>,
        _: Option<usize>,
    ) -> Result<ToTuple<'sval>, Error> {
        Ok(ToTuple(TagV::new(tag, label, index), Vec::new()))
    }

    fn record_begin(
        self,
        tag: Option<Tag>,
        label: Option<&Label>,
        index: Option<Index>,
        _: Option<usize>,
    ) -> Result<ToRecord<'sval>, Error> {
        Ok(ToRecord(TagV::new(tag, label, index), Vec::new()))
    }

    fn enum_begin(self, tag: Option<Tag>, label: Option<&Label>, index: Option<Index>) -> Result<ToEnum, Error> {
        Ok(ToEnum { tags: vec![TagV::new(tag, label, index)] })
    }
}

impl<'sval> StreamSeq<'sval> for ToSeq<'sval> {
    type Ok = Value<'sval>;

    fn value_computed(&mut self, value: &[Token<'sval>]) -> Result<(), Error> {
        self.0.push(to_value(value)?);
        Ok(())
    }

    fn end(self) -> Result<Value<'sval>, Error> {
        Ok(Value::Sequence(self.0))
    }
}

impl<'sval> StreamMap<'sval> for ToMap<'sval> {
    type Ok = Value<'sval>;

    fn key_computed(&mut self, key: &[Token<'sval>]) -> Result<(), Error> {
        self.key = Some(to_value(key)?);
        Ok(())
    }

    fn value_computed(&mut self, value: &[Token<'sval>]) -> Result<(), Error> {
        let key = self.key.take().unwrap();
        self.entries.push((key, to_value(value)?));
        Ok(())
    }

    fn end(self) -> Result<Value<'sval>, Error> {
        Ok(Value::Mapping(self.entries))
    }
}

impl<'sval> StreamTuple<'sval> for ToTuple<'sval> {
    type Ok = Value<'sval>;

    fn value_computed(&mut self, _: Option<Tag>, index: Index, value: &[Token<'sval>]) -> Result<(), Error> {
        self.1.push((index.value, to_value(value)?));
        Ok(())
    }

    fn end(self) -> Result<Value<'sval>, Error> {
        Ok(Value::Tuple(self.0, self.1))
    }
}

impl<'sval> StreamRecord<'sval> for ToRecord<'sval> {
    type Ok = Value<'sval>;

    fn value_computed(&mut self, _: Option<Tag>, label: &Label, value: &[Token<'sval>]) -> Result<(), Error> {
        self.1.push((label.as_str().to_string(), to_value(value)?));
        Ok(())
    }

    fn end(self) -> Result<Value<'sval>, Error> {
        Ok(Value::Record(self.0, self.1))
    }
}

impl<'sval> StreamTuple<'sval> for ToEnumTuple<'sval> {
    type Ok = Value<'sval>;

    fn value_computed(&mut self, tag: Option<Tag>, index: Index, value: &[Token<'sval>]) -> Result<(), Error> {
        self.1.value_computed(tag, index, value)
    }

    fn end(self) -> Result<Value<'sval>, Error> {
        let ToTuple(tag, entries) = self.1;
        Ok(wrap(&self.0, Some(Variant::Tuple(tag, entries))))
    }
}

impl<'sval> StreamRecord<'sval> for ToEnumRecord<'sval> {
    type Ok = Value<'sval>;

    fn value_computed(&mut self, tag: Option<Tag>, label: &Label, value: &[Token<'sval>]) -> Result<(), Error> {
        self.1.value_computed(tag, label, value)
    }

    fn end(self) -> Result<Value<'sval>, Error> {
        let ToRecord(tag, entries) = self.1;
        Ok(wrap(&self.0, Some(Variant::Record(tag, entries))))
    }
}

impl<'sval> StreamEnum<'sval> for ToEnum {
    type Ok = Value<'sval>;
    type Tuple = ToEnumTuple<'sval>;
    type Record = ToEnumRecord<'sval>;

    fn tag(self, tag: Option<Tag>, label: Option<&Label>, index: Option<Index>) -> Result<Value<'sval>, Error> {
        Ok(wrap(&self.tags, Some(Variant::Tag(TagV::new(tag, label, index)))))
    }

    fn tagged_computed(
        self,
        tag: Option<Tag>,
        label: Option<&Label>,
        index: Option<Index>,
        value: &[Token<'sval>],
    ) -> Result<Value<'sval>, Error> {
        let value = to_value(value)?;
        Ok(wrap(&self.tags, Some(Variant::Tagged(TagV::new(tag, label, index), Box::new(value)))))
    }

    fn tuple_begin(
        self,
        tag: Option<Tag>,
        label: Option<&Label>,
        index: Option<Index>,
        _: Option<usize>,
    ) -> Result<ToEnumTuple<'sval>, Error> {
        Ok(ToEnumTuple(self.tags, ToTuple(TagV::new(tag, label, index), Vec::new())))
    }

    fn record_begin(
        self,
        tag: Option<Tag>,
        label: Option<&Label>,
        index: Option<Index>,
        _: Option<usize>,
    ) -> Result<ToEnumRecord<'sval>, Error> {
        Ok(ToEnumRecord(self.tags, ToRecord(TagV::new(tag, label, index), Vec::new())))
    }

    fn nested(self, tag: Option<Tag>, label: Option<&Label>, index: Option<Index>) -> Result<ToEnum, Error> {
        let mut tags = self.tags;
        tags.push(TagV::new(tag, label, index));
        Ok(ToEnum { tags })
    }

    fn end(self) -> Result<Value<'sval>, Error> {
        Ok(wrap(&self.tags, None))
    }
}

// Flat calls, as tokens.

fn meta(label: Option<&'static str>, index: Option<i64>) -> Meta<'static> {
    Meta { tag: None, label: label.map(Label::new), index: index.map(Index::new) }
}

fn begin(kind: ContainerKind, label: Option<&'static str>, index: Option<i64>) -> Token<'static> {
    Token::Begin(kind, meta(label, index), None)
}

fn end(kind: ContainerKind, label: Option<&'static str>, index: Option<i64>) -> Token<'static> {
    Token::End(kind, meta(label, index))
}

fn i64_token(v: i64) -> Token<'static> {
    Token::Scalar(Scalar::I64(v))
}

fn text(s: &str) -> Vec<Token<'_>> {
    vec![Token::TextBegin(Some(s.len())), Token::TextFragment(s), Token::TextEnd]
}

fn record_value(label: &'static str, value: Token<'static>) -> Vec<Token<'static>> {
    vec![
        begin(ContainerKind::RecordValue, Some(label), None),
        value,
        end(ContainerKind::RecordValue, Some(label), None),
    ]
}

fn tuple_value(index: i64, value: Token<'static>) -> Vec<Token<'static>> {
    vec![
        begin(ContainerKind::TupleValue, None, Some(index)),
        value,
        end(ContainerKind::TupleValue, None, Some(index)),
    ]
}

fn reason<T>(r: Result<T, Error>) -> &'static str {
    match r {
        Err(Error(ErrorKind::InvalidValue { reason })) => reason,
        Err(e) => panic!("unexpected {:?}", e),
        Ok(_) => panic!("unexpected success"),
    }
}

#[test]
fn stream_primitive() {
    assert_eq!(Value::Null, to_value(&[Token::Scalar(Scalar::Null)]).unwrap());
    assert_eq!(Value::I64(42), to_value(&[i64_token(42)]).unwrap());
    assert_eq!(Value::F64(42.1), to_value(&[Token::Scalar(Scalar::F64(42.1f64.to_bits()))]).unwrap());
    assert_eq!(Value::Bool(true), to_value(&[Token::Scalar(Scalar::Bool(true))]).unwrap());
}

#[test]
fn stream_text_borrowed() {
    let v = to_value(&text("borrowed")).unwrap();
    assert_eq!(Value::Text(Cow::Borrowed("borrowed")), v);
    assert!(matches!(v, Value::Text(Cow::Borrowed(_))));
}

#[test]
fn stream_binary_borrowed() {
    let tokens = vec![Token::BinaryBegin(Some(8)), Token::BinaryFragment(b"borrowed"), Token::BinaryEnd];
    let v = to_value(&tokens).unwrap();
    assert_eq!(Value::Binary(Cow::Borrowed(b"borrowed")), v);
    assert!(matches!(v, Value::Binary(Cow::Borrowed(_))));
}

#[test]
fn stream_seq() {
    let mut tokens = vec![Token::Begin(ContainerKind::Sequence, Meta::empty(), Some(3))];
    for i in [1, 2, 3] {
        tokens.push(begin(ContainerKind::SeqValue, None, None));
        tokens.push(Token::Scalar(Scalar::I32(i)));
        tokens.push(end(ContainerKind::SeqValue, None, None));
    }
    tokens.push(end(ContainerKind::Sequence, None, None));

    assert_eq!(Value::Sequence(vec![Value::I64(1), Value::I64(2), Value::I64(3)]), to_value(&tokens).unwrap());
}

#[test]
fn stream_map() {
    let mut tokens = vec![Token::Begin(ContainerKind::Mapping, Meta::empty(), Some(3))];
    for (k, v) in [("a", 1), ("b", 2), ("c", 3)] {
        tokens.push(begin(ContainerKind::MapKey, None, None));
        tokens.extend(text(k));
        tokens.push(end(ContainerKind::MapKey, None, None));
        tokens.push(begin(ContainerKind::MapValue, None, None));
        tokens.push(Token::Scalar(Scalar::I32(v)));
        tokens.push(end(ContainerKind::MapValue, None, None));
    }
    tokens.push(end(ContainerKind::Mapping, None, None));

    assert_eq!(
        Value::Mapping(vec![
            (Value::Text(Cow::Borrowed("a")), Value::I64(1)),
            (Value::Text(Cow::Borrowed("b")), Value::I64(2)),
            (Value::Text(Cow::Borrowed("c")), Value::I64(3)),
        ]),
        to_value(&tokens).unwrap()
    );
}

#[test]
fn stream_tuple() {
    let mut tokens = vec![begin(ContainerKind::Tuple, Some("Tuple"), None)];
    tokens.extend(tuple_value(0, i64_token(1)));
    tokens.extend(tuple_value(1, Token::Scalar(Scalar::Bool(true))));
    tokens.push(end(ContainerKind::Tuple, Some("Tuple"), None));

    assert_eq!(
        Value::Tuple(TagV::labeled("Tuple", None), vec![(0, Value::I64(1)), (1, Value::Bool(true))]),
        to_value(&tokens).unwrap()
    );
}

#[test]
fn stream_enum_tuple_variant() {
    let mut tokens = vec![begin(ContainerKind::Enum, Some("Enum"), None)];
    tokens.push(begin(ContainerKind::Tuple, Some("Tuple"), Some(0)));
    tokens.extend(tuple_value(0, i64_token(1)));
    tokens.extend(tuple_value(1, Token::Scalar(Scalar::Bool(true))));
    tokens.push(end(ContainerKind::Tuple, Some("Tuple"), Some(0)));
    tokens.push(end(ContainerKind::Enum, Some("Enum"), None));

    assert_eq!(
        Value::Enum(
            TagV::labeled("Enum", None),
            Some(Box::new(Variant::Tuple(
                TagV::labeled("Tuple", Some(0)),
                vec![(0, Value::I64(1)), (1, Value::Bool(true))]
            )))
        ),
        to_value(&tokens).unwrap()
    );
}

#[test]
fn stream_record() {
    let mut tokens = vec![begin(ContainerKind::Record, Some("Record"), None)];
    tokens.extend(record_value("a", i64_token(1)));
    tokens.extend(record_value("b", Token::Scalar(Scalar::Bool(true))));
    tokens.push(end(ContainerKind::Record, Some("Record"), None));

    assert_eq!(
        Value::Record(
            TagV::labeled("Record", None),
            vec![("a".to_string(), Value::I64(1)), ("b".to_string(), Value::Bool(true))]
        ),
        to_value(&tokens).unwrap()
    );
}

#[test]
fn stream_enum_record_variant() {
    let mut tokens = vec![begin(ContainerKind::Enum, Some("Enum"), None)];
    tokens.push(begin(ContainerKind::Record, Some("Record"), Some(0)));
    tokens.extend(record_value("a", i64_token(1)));
    tokens.extend(record_value("b", Token::Scalar(Scalar::Bool(true))));
    tokens.push(end(ContainerKind::Record, Some("Record"), Some(0)));
    tokens.push(end(ContainerKind::Enum, Some("Enum"), None));

    assert_eq!(
        Value::Enum(
            TagV::labeled("Enum", None),
            Some(Box::new(Variant::Record(
                TagV::labeled("Record", Some(0)),
                vec![("a".to_string(), Value::I64(1)), ("b".to_string(), Value::Bool(true))]
            )))
        ),
        to_value(&tokens).unwrap()
    );
}

#[test]
fn stream_text_owned() {
    let tokens = vec![
        Token::TextBegin(None),
        Token::TextFragment("ow"),
        Token::TextFragment("ned"),
        Token::TextEnd,
    ];
    let v = to_value(&tokens).unwrap();
    assert_eq!(Value::Text(Cow::Owned("owned".into())), v);
    assert!(matches!(v, Value::Text(Cow::Owned(_))));
}

#[test]
fn stream_binary_owned() {
    let tokens = vec![
        Token::BinaryBegin(None),
        Token::BinaryFragment(b"ow"),
        Token::BinaryFragment(b"ned"),
        Token::BinaryEnd,
    ];
    let v = to_value(&tokens).unwrap();
    assert_eq!(Value::Binary(Cow::Owned(b"owned".to_vec())), v);
    assert!(matches!(v, Value::Binary(Cow::Owned(_))));
}

fn nested_enums(layers: &[&'static str]) -> Vec<Token<'static>> {
    let mut tokens = Vec::new();
    for l in layers {
        tokens.push(begin(ContainerKind::Enum, Some(l), None));
    }
    tokens.push(begin(ContainerKind::Tagged, Some("Value"), None));
    tokens.push(i64_token(42));
    tokens.push(end(ContainerKind::Tagged, Some("Value"), None));
    for l in layers.iter().rev() {
        tokens.push(end(ContainerKind::Enum, Some(l), None));
    }
    tokens
}

fn expected_nested(layers: &[&'static str]) -> Value<'static> {
    let tags: Vec<TagV> = layers.iter().map(|l| TagV::labeled(l, None)).collect();
    let mut value = Value::Enum(
        tags[tags.len() - 1].clone(),
        Some(Box::new(Variant::Tagged(TagV::labeled("Value", None), Box::new(Value::I64(42))))),
    );
    for tag in tags[..tags.len() - 1].iter().rev() {
        value = Value::Enum(tag.clone(), Some(Box::new(Variant::Enum(Box::new(value)))));
    }
    value
}

#[test]
fn stream_enum_nested_value() {
    let layers = ["Layer1", "Layer2"];
    assert_eq!(expected_nested(&layers), to_value(&nested_enums(&layers)).unwrap());
}

#[test]
fn stream_deeply_nested_enum() {
    let layers = ["Layer1", "Layer2", "Layer3", "Layer4", "Layer5", "Layer6", "Layer7"];
    assert_eq!(expected_nested(&layers), to_value(&nested_enums(&layers)).unwrap());
}

#[test]
fn stream_nested_containers_are_buffered() {
    let mut tokens = vec![Token::Begin(ContainerKind::Sequence, Meta::empty(), None)];
    tokens.push(begin(ContainerKind::SeqValue, None, None));
    tokens.push(Token::Begin(ContainerKind::Sequence, Meta::empty(), None));
    tokens.push(begin(ContainerKind::SeqValue, None, None));
    tokens.push(i64_token(1));
    tokens.push(end(ContainerKind::SeqValue, None, None));
    tokens.push(end(ContainerKind::Sequence, None, None));
    tokens.push(end(ContainerKind::SeqValue, None, None));
    tokens.push(begin(ContainerKind::SeqValue, None, None));
    tokens.extend(text("x"));
    tokens.push(end(ContainerKind::SeqValue, None, None));
    tokens.push(end(ContainerKind::Sequence, None, None));

    assert_eq!(
        Value::Sequence(vec![Value::Sequence(vec![Value::I64(1)]), Value::Text(Cow::Borrowed("x"))]),
        to_value(&tokens).unwrap()
    );
}

#[test]
fn stream_tagged_value() {
    let tokens = vec![
        begin(ContainerKind::Tagged, Some("Id"), None),
        i64_token(7),
        end(ContainerKind::Tagged, Some("Id"), None),
    ];
    assert_eq!(
        Value::Tagged(TagV::labeled("Id", None), Box::new(Value::I64(7))),
        to_value(&tokens).unwrap()
    );
}

#[test]
fn stream_wide_integer_as_number_text() {
    let v = to_value(&[Token::Scalar(Scalar::U64(u64::MAX))]).unwrap();
    assert_eq!(
        Value::Tagged(
            TagV { tag: Some("NUMBER"), label: None, index: None },
            Box::new(Value::Text(Cow::Owned("18446744073709551615".to_string())))
        ),
        v
    );
}

#[test]
fn stream_incomplete_and_completed() {
    assert_eq!("incomplete stream", reason(to_value(&[])));
    assert_eq!(
        "cannot stream value; the stream is already completed",
        reason(to_value(&[i64_token(1), i64_token(2)]))
    );
    assert_eq!(
        "cannot stream value; the stream is already completed",
        reason(to_value(&[
            Token::Begin(ContainerKind::Sequence, Meta::empty(), None),
            end(ContainerKind::Sequence, None, None),
            i64_token(2),
        ]))
    );
}

#[test]
fn decisions_route_values() {
    assert!(matches!(value_with(FlatState::Any(true)), (FlatState::Any(false), Ok(ValueRoute::Any))));
    assert!(matches!(value_with(FlatState::Sequence(true)), (FlatState::Sequence(true), Ok(ValueRoute::SeqValue))));
    assert!(matches!(value_with(FlatState::Mapping(true, true)), (_, Ok(ValueRoute::MapKey))));
    assert!(matches!(value_with(FlatState::Mapping(true, false)), (_, Ok(ValueRoute::MapValue))));
    assert!(matches!(value_with(FlatState::Tuple(true, Some((None, Index::new(0))))), (_, Ok(ValueRoute::TupleValue))));
    assert_eq!(
        "cannot stream a record; the field label is missing",
        reason(value_with(FlatState::Record(true, None)).1)
    );
    assert_eq!(
        "cannot stream a tuple; the field index is missing",
        reason(value_with(FlatState::Tuple(true, None)).1)
    );
    assert_eq!(
        "cannot stream value; the stream is already completed",
        reason(value_with(FlatState::Any(false)).1)
    );
}

#[test]
fn decisions_begin_and_end() {
    assert!(matches!(buffer_or_begin(Some(BufferKind::Value), &FlatState::Any(true)), BeginStep::Buffer));
    assert!(matches!(buffer_or_begin(None, &FlatState::Any(true)), BeginStep::Any));
    assert!(matches!(buffer_or_begin(None, &FlatState::Enum(true)), BeginStep::Enum));
    assert!(matches!(buffer_or_begin(None, &FlatState::Sequence(true)), BeginStep::StartBuffer));
    assert!(matches!(buffer_or_begin(Some(BufferKind::Text), &FlatState::Any(true)), BeginStep::Fail(_)));
    assert!(matches!(buffer_or_end(None), EndStep::Transition));
    assert!(matches!(buffer_or_end(Some(BufferKind::Value)), EndStep::Buffer));
    assert!(matches!(buffer_or_end(Some(BufferKind::Binary)), EndStep::Fail(_)));
    assert!(buffer_or_with(Some(BufferKind::Value)));
    assert!(!buffer_or_with(Some(BufferKind::Text)));
    assert!(take_end(None, &FlatState::Tuple(true, None), EndTarget::Tuple).is_ok());
    assert_eq!(
        "cannot end a map; the stream is already completed",
        reason(take_end(None, &FlatState::Mapping(false, true), EndTarget::Mapping))
    );
    assert!(matches!(take_enum(None, &FlatState::Enum(true)), EnumEnd::End));
    assert!(matches!(take_enum(None, &FlatState::Done), EnumEnd::Finish));
}

#[test]
fn decisions_mark_entries() {
    let mut state = FlatState::Mapping(true, true);
    assert!(mark_map(None, &mut state, false).is_ok());
    assert!(matches!(state, FlatState::Mapping(true, false)));

    let mut state = FlatState::Record(true, None);
    assert!(mark_field(None, &mut state, Some((None, Label::new("a")))).is_ok());
    assert!(matches!(&state, FlatState::Record(true, Some((None, l))) if l.as_str() == "a"));

    let mut state = FlatState::Tuple(true, None);
    assert!(mark_index(None, &mut state, Some((None, Index::new(3)))).is_ok());
    assert!(matches!(state, FlatState::Tuple(true, Some((None, i))) if i.value == 3));

    let mut state = FlatState::Sequence(true);
    assert!(mark_index(None, &mut state, None).is_err());
    assert!(matches!(state, FlatState::Sequence(true)));
}

#[test]
fn stream_refuses_malformed_input() {
    assert_eq!("cannot end buffering text; no active text buffer", reason(to_value(&[Token::TextEnd])));
    assert_eq!("cannot buffer binary; no active binary buffer", reason(to_value(&[Token::BinaryFragment(b"a")])));
    assert_eq!(
        "cannot end a sequence; invalid stream state",
        reason(to_value(&[end(ContainerKind::Sequence, None, None)]))
    );
    assert_eq!(
        "cannot begin buffering; a buffer is already active",
        reason(to_value(&[Token::TextBegin(None), Token::BinaryBegin(None)]))
    );
    assert_eq!(
        "sequences cannot be used as enum variants",
        reason(to_value(&[
            begin(ContainerKind::Enum, Some("Enum"), None),
            Token::Begin(ContainerKind::Sequence, Meta::empty(), None),
        ]))
    );
    assert_eq!(
        "enum variants must be wrapped in a tag-carrying value",
        reason(to_value(&[begin(ContainerKind::Enum, Some("Enum"), None), i64_token(1)]))
    );
    assert_eq!(
        "cannot stream a map; invalid stream state",
        reason(to_value(&[begin(ContainerKind::MapKey, None, None)]))
    );
    // A tagged value that never gets its value is incomplete.
    assert_eq!(
        "incomplete stream",
        reason(to_value(&[begin(ContainerKind::Tagged, Some("Id"), None), end(ContainerKind::Tagged, Some("Id"), None)]))
    );
}

#[test]
fn stream_unit_variant_and_tag() {
    let tokens = vec![Token::Tag(meta(Some("Unit"), Some(3)))];
    assert_eq!(Value::Tag(TagV::labeled("Unit", Some(3))), to_value(&tokens).unwrap());

    let mut tokens = vec![begin(ContainerKind::Enum, Some("Enum"), None)];
    tokens.push(end(ContainerKind::Enum, Some("Enum"), None));
    assert_eq!(Value::Enum(TagV::labeled("Enum", None), None), to_value(&tokens).unwrap());
}

#[test]
fn flat_stream_token_by_token() {
    let mut flat = FlatStream::new(ToValue);
    assert!(flat.token(&Token::Begin(ContainerKind::Sequence, Meta::empty(), None)).is_ok());
    assert!(flat.token(&begin(ContainerKind::SeqValue, None, None)).is_ok());
    assert!(flat.token(&i64_token(5)).is_ok());
    assert!(flat.token(&end(ContainerKind::SeqValue, None, None)).is_ok());
    assert!(flat.token(&end(ContainerKind::Sequence, None, None)).is_ok());
    assert_eq!(Value::Sequence(vec![Value::I64(5)]), flat.finish().unwrap());

    // Once a call fails, the stream takes no more, and its result is the failure.
    let mut flat = FlatStream::new(ToValue);
    assert!(flat.token(&Token::TextEnd).is_err());
    assert!(flat.token(&i64_token(1)).is_err());
    assert_eq!("cannot end buffering text; no active text buffer", reason(flat.finish()));

    let mut flat = FlatStream::new(ToValue);
    assert!(flat.write(&[i64_token(1)]).is_ok());
    assert_eq!(Value::I64(1), flat.finish().unwrap());
}
