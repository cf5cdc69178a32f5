//! Recursive streams: a value written as nested containers, each with a
//! stream of its own, rather than as a flat sequence of calls. The
//! flattening stream in `flat` turns flat calls into calls on these
//! streams, and `flat_laws` states what it writes for primitives, binary,
//! maps, tuples and enum variants; `flat_enum` unwinds nested enum variants; `Unsupported`
//! is a stream that refuses everything.
use vstd::prelude::*;

use core::marker::PhantomData;

use crate::data::{Index, Label, LabelView, MetaView, Tag};
use crate::fragments::text_tokens;
use crate::number::{fits_i64, fits_i64_exec, number_text, scalar_decimal};
use crate::token::{tokens_view, Scalar, Token, TokenView};
use crate::value::buf::label_view;
use flat::CallView;
use flat_enum::NestedVariantView;
use crate::error::{Error, ErrorKind};

pub mod flat;
pub mod flat_enum;
pub mod flat_laws;

verus! {

pub open spec fn unsupported_err(reason: &'static str) -> Error {
    Error(ErrorKind::InvalidValue { reason })
}

/// The metadata given by a tag, a label and an index.
pub open spec fn meta_of(tag: Option<Tag>, label: Option<&Label>, index: Option<Index>) -> MetaView {
    MetaView { tag, label: label_view(label), index }
}

/// The enum variant given by a tag, a label and an index.
pub open spec fn variant_with(tag: Option<Tag>, label: Option<&Label>, index: Option<Index>) -> NestedVariantView {
    NestedVariantView { tag, label: label_view(label), index }
}

/// The metadata of a number given as its decimal text.
pub open spec fn number_meta() -> MetaView {
    MetaView { tag: Some(Tag { data: "NUMBER" }), label: None, index: None }
}

/// The call an integer reaches: the 64-bit integer call where it fits,
/// and otherwise its decimal text, tagged as a number.
pub open spec fn integer_call(n: int) -> CallView {
    if i64::MIN <= n <= i64::MAX {
        CallView::Scalar(Scalar::I64(n as i64))
    } else {
        CallView::Tagged(number_meta(), text_tokens(number_text(n), false))
    }
}

/// The call a primitive reaches: integers go as `integer_call` says,
/// everything else by its own call.
pub open spec fn scalar_call(x: Scalar) -> CallView {
    match x {
        Scalar::U8(v) => integer_call(v as int),
        Scalar::U16(v) => integer_call(v as int),
        Scalar::U32(v) => integer_call(v as int),
        Scalar::U64(v) => integer_call(v as int),
        Scalar::U128(v) => integer_call(v as int),
        Scalar::I8(v) => integer_call(v as int),
        Scalar::I16(v) => integer_call(v as int),
        Scalar::I32(v) => integer_call(v as int),
        Scalar::I64(v) => integer_call(v as int),
        Scalar::I128(v) => integer_call(v as int),
        _ => CallView::Scalar(x),
    }
}

/// A sequence stream after taking each byte as a value, in order.
pub open spec fn took_bytes<'sval, Q: StreamSeq<'sval>>(q: Q, bytes: Seq<u8>) -> Q
    decreases bytes.len(),
{
    if bytes.len() == 0 {
        q
    } else {
        took_bytes(q, bytes.drop_last()).seq_took(seq![TokenView::Scalar(Scalar::U8(bytes.last()))])
    }
}

/// What a stream gives for binary written as a sequence of its bytes.
pub open spec fn binary_written<'sval, S: Stream<'sval>>(s: S, bytes: Seq<u8>) -> S::Ok {
    took_bytes(s.opened_seq(Some(bytes.len() as usize)), bytes).seq_ended()
}

/// A stream that a value is written into, one container at a time.
///
/// A value given whole is a slice of the tokens it streams as. Floating
/// point numbers are given by their bits.
///
/// What the stream does is stated over its spec functions: what it gives
/// for a whole value, and the stream it hands out for each container. A
/// call that succeeds gives what they say; a stream that leaves them
/// unstated leaves what it gives unstated too.
pub trait Stream<'sval>: Sized {
    type Ok;

    type Sequence: StreamSeq<'sval, Ok = Self::Ok>;
    type Mapping: StreamMap<'sval, Ok = Self::Ok>;
    type Tuple: StreamTuple<'sval, Ok = Self::Ok>;
    type Record: StreamRecord<'sval, Ok = Self::Ok>;
    type Enum: StreamEnum<'sval, Ok = Self::Ok>;

    /// What the stream gives for a whole value handed over by a call.
    closed spec fn written(self, call: CallView) -> Self::Ok {
        arbitrary()
    }

    /// The sequence stream the stream hands out for a sequence.
    closed spec fn opened_seq(self, num_entries: Option<usize>) -> Self::Sequence {
        arbitrary()
    }

    /// The map stream the stream hands out for a map.
    closed spec fn opened_map(self, num_entries: Option<usize>) -> Self::Mapping {
        arbitrary()
    }

    /// The tuple stream the stream hands out for a tuple.
    closed spec fn opened_tuple(self, meta: MetaView, num_entries: Option<usize>) -> Self::Tuple {
        arbitrary()
    }

    /// The record stream the stream hands out for a record.
    closed spec fn opened_record(self, meta: MetaView, num_entries: Option<usize>) -> Self::Record {
        arbitrary()
    }

    /// The enum stream the stream hands out for an enum.
    closed spec fn opened_enum(self, meta: MetaView) -> Self::Enum {
        arbitrary()
    }

    /// A whole value. A stream that has no way of its own to take one can
    /// write it through its containers with `flat::flatten(self, value)`.
    fn value_computed(self, value: &[Token<'sval>]) -> (r: Result<Self::Ok, Error>)
        ensures
            r matches Ok(v) ==> v == self.written(CallView::Value(tokens_view(value@))),
    ;

    fn null(self) -> (r: Result<Self::Ok, Error>)
        ensures
            r matches Ok(v) ==> v == self.written(CallView::Scalar(Scalar::Null)),
    ;

    fn bool(self, value: bool) -> (r: Result<Self::Ok, Error>)
        ensures
            r matches Ok(v) ==> v == self.written(CallView::Scalar(Scalar::Bool(value))),
    ;

    fn i8(self, value: i8) -> (r: Result<Self::Ok, Error>)
        ensures
            r matches Ok(v) ==> v == self.written(integer_call(value as int)),
    {
        self.i16(value as i16)
    }

    fn i16(self, value: i16) -> (r: Result<Self::Ok, Error>)
        ensures
            r matches Ok(v) ==> v == self.written(integer_call(value as int)),
    {
        self.i32(value as i32)
    }

    fn i32(self, value: i32) -> (r: Result<Self::Ok, Error>)
        ensures
            r matches Ok(v) ==> v == self.written(integer_call(value as int)),
    {
        self.i64(value as i64)
    }

    fn i64(self, value: i64) -> (r: Result<Self::Ok, Error>)
        ensures
            r matches Ok(v) ==> v == self.written(integer_call(value as int)),
    ;

    /// An integer too wide for 64 bits goes as its decimal text, tagged as a number.
    fn i128(self, value: i128) -> (r: Result<Self::Ok, Error>)
        ensures
            r matches Ok(v) ==> v == self.written(integer_call(value as int)),
    {
        if fits_i64_exec(Scalar::I128(value)) {
            self.i64(value as i64)
        } else {
            let text = scalar_decimal(Scalar::I128(value));
            self.tagged_computed(Some(number_tag()), None, None, &number_tokens(text))
        }
    }

    fn u8(self, value: u8) -> (r: Result<Self::Ok, Error>)
        ensures
            r matches Ok(v) ==> v == self.written(integer_call(value as int)),
    {
        self.u16(value as u16)
    }

    fn u16(self, value: u16) -> (r: Result<Self::Ok, Error>)
        ensures
            r matches Ok(v) ==> v == self.written(integer_call(value as int)),
    {
        self.u32(value as u32)
    }

    fn u32(self, value: u32) -> (r: Result<Self::Ok, Error>)
        ensures
            r matches Ok(v) ==> v == self.written(integer_call(value as int)),
    {
        self.u64(value as u64)
    }

    fn u64(self, value: u64) -> (r: Result<Self::Ok, Error>)
        ensures
            r matches Ok(v) ==> v == self.written(integer_call(value as int)),
    {
        self.u128(value as u128)
    }

    /// An integer too wide for 64 bits goes as its decimal text, tagged as a number.
    fn u128(self, value: u128) -> (r: Result<Self::Ok, Error>)
        ensures
            r matches Ok(v) ==> v == self.written(integer_call(value as int)),
    {
        if fits_i64_exec(Scalar::U128(value)) {
            self.i64(value as i64)
        } else {
            let text = scalar_decimal(Scalar::U128(value));
            self.tagged_computed(Some(number_tag()), None, None, &number_tokens(text))
        }
    }

    fn f32_bits(self, bits: u32) -> (r: Result<Self::Ok, Error>)
        ensures
            r matches Ok(v) ==> v == self.written(CallView::Scalar(Scalar::F32(bits))),
    ;

    fn f64_bits(self, bits: u64) -> (r: Result<Self::Ok, Error>)
        ensures
            r matches Ok(v) ==> v == self.written(CallView::Scalar(Scalar::F64(bits))),
    ;

    fn text(self, text: &'sval str) -> (r: Result<Self::Ok, Error>)
        ensures
            r matches Ok(v) ==> v == self.written(CallView::Text(text@, false)),
    {
        self.text_computed(text)
    }

    fn text_computed(self, text: &str) -> (r: Result<Self::Ok, Error>)
        ensures
            r matches Ok(v) ==> v == self.written(CallView::Text(text@, false)),
    ;

    fn binary(self, binary: &'sval [u8]) -> (r: Result<Self::Ok, Error>)
        ensures
            r matches Ok(v) ==> v == took_bytes(self.opened_seq(Some(binary@.len() as usize)), binary@).seq_ended(),
    {
        self.binary_computed(binary)
    }

    /// Binary goes as a sequence of its bytes.
    fn binary_computed(self, binary: &[u8]) -> (r: Result<Self::Ok, Error>)
        ensures
            r matches Ok(v) ==> v == took_bytes(self.opened_seq(Some(binary@.len() as usize)), binary@).seq_ended(),
    {
        let ghost s0 = self;
        let mut seq = self.seq_begin(Some(binary.len()))?;
        let mut i: usize = 0;
        while i < binary.len()
            invariant
                i <= binary.len(),
                seq == took_bytes(s0.opened_seq(Some(binary@.len() as usize)), binary@.take(i as int)),
            decreases binary.len() - i,
        {
            let one = [Token::Scalar(Scalar::U8(binary[i]))];
            proof {
                assert(tokens_view(one@) =~= seq![TokenView::Scalar(Scalar::U8(binary@[i as int]))]);
                assert(binary@.take(i + 1).drop_last() =~= binary@.take(i as int));
                assert(binary@.take(i + 1).last() == binary@[i as int]);
            }
            seq.value_computed(&one)?;
            i = i + 1;
        }
        proof {
            assert(binary@.take(i as int) =~= binary@);
        }
        seq.end()
    }

    fn tag(self, tag: Option<Tag>, label: Option<&Label>, index: Option<Index>) -> (r: Result<Self::Ok, Error>)
        ensures
            r matches Ok(v) ==> v == self.written(CallView::Tag(meta_of(tag, label, index))),
    ;

    fn tagged(
        self,
        tag: Option<Tag>,
        label: Option<&Label>,
        index: Option<Index>,
        value: &[Token<'sval>],
    ) -> (r: Result<Self::Ok, Error>)
        ensures
            r matches Ok(v) ==> v == self.written(CallView::Tagged(meta_of(tag, label, index), tokens_view(value@))),
    {
        self.tagged_computed(tag, label, index, value)
    }

    fn tagged_computed(
        self,
        tag: Option<Tag>,
        label: Option<&Label>,
        index: Option<Index>,
        value: &[Token<'sval>],
    ) -> (r: Result<Self::Ok, Error>)
        ensures
            r matches Ok(v) ==> v == self.written(CallView::Tagged(meta_of(tag, label, index), tokens_view(value@))),
    ;

    fn seq_begin(self, num_entries: Option<usize>) -> (r: Result<Self::Sequence, Error>)
        ensures
            r matches Ok(q) ==> q == self.opened_seq(num_entries),
    ;

    fn map_begin(self, num_entries: Option<usize>) -> (r: Result<Self::Mapping, Error>)
        ensures
            r matches Ok(q) ==> q == self.opened_map(num_entries),
    ;

    fn tuple_begin(
        self,
        tag: Option<Tag>,
        label: Option<&Label>,
        index: Option<Index>,
        num_entries: Option<usize>,
    ) -> (r: Result<Self::Tuple, Error>)
        ensures
            r matches Ok(q) ==> q == self.opened_tuple(meta_of(tag, label, index), num_entries),
    ;

    fn record_begin(
        self,
        tag: Option<Tag>,
        label: Option<&Label>,
        index: Option<Index>,
        num_entries: Option<usize>,
    ) -> (r: Result<Self::Record, Error>)
        ensures
            r matches Ok(q) ==> q == self.opened_record(meta_of(tag, label, index), num_entries),
    ;

    fn enum_begin(self, tag: Option<Tag>, label: Option<&Label>, index: Option<Index>) -> (r: Result<Self::Enum, Error>)
        ensures
            r matches Ok(e) ==> e == self.opened_enum(meta_of(tag, label, index)),
    ;
}

/// A stream for a sequence.
pub trait StreamSeq<'sval>: Sized {
    type Ok;

    /// The stream after taking a value.
    closed spec fn seq_took(self, value: Seq<TokenView>) -> Self {
        arbitrary()
    }

    /// What the stream gives when the sequence ends.
    closed spec fn seq_ended(self) -> Self::Ok {
        arbitrary()
    }

    fn value(&mut self, value: &[Token<'sval>]) -> (r: Result<(), Error>)
        ensures
            r is Ok ==> *final(self) == old(self).seq_took(tokens_view(value@)),
    {
        self.value_computed(value)
    }

    fn value_computed(&mut self, value: &[Token<'sval>]) -> (r: Result<(), Error>)
        ensures
            r is Ok ==> *final(self) == old(self).seq_took(tokens_view(value@)),
    ;

    fn end(self) -> (r: Result<Self::Ok, Error>)
        ensures
            r matches Ok(v) ==> v == self.seq_ended(),
    ;
}

/// A stream for a map.
pub trait StreamMap<'sval>: Sized {
    type Ok;

    /// The stream after taking a key (`CallView::MapKey`) or a value
    /// (`CallView::MapValue`).
    closed spec fn map_took(self, call: CallView) -> Self {
        arbitrary()
    }

    /// What the stream gives when the map ends.
    closed spec fn map_ended(self) -> Self::Ok {
        arbitrary()
    }

    fn key(&mut self, key: &[Token<'sval>]) -> (r: Result<(), Error>)
        ensures
            r is Ok ==> *final(self) == old(self).map_took(CallView::MapKey(tokens_view(key@))),
    {
        self.key_computed(key)
    }

    fn key_computed(&mut self, key: &[Token<'sval>]) -> (r: Result<(), Error>)
        ensures
            r is Ok ==> *final(self) == old(self).map_took(CallView::MapKey(tokens_view(key@))),
    ;

    fn value(&mut self, value: &[Token<'sval>]) -> (r: Result<(), Error>)
        ensures
            r is Ok ==> *final(self) == old(self).map_took(CallView::MapValue(tokens_view(value@))),
    {
        self.value_computed(value)
    }

    fn value_computed(&mut self, value: &[Token<'sval>]) -> (r: Result<(), Error>)
        ensures
            r is Ok ==> *final(self) == old(self).map_took(CallView::MapValue(tokens_view(value@))),
    ;

    fn end(self) -> (r: Result<Self::Ok, Error>)
        ensures
            r matches Ok(v) ==> v == self.map_ended(),
    ;
}

/// A stream for a tuple.
pub trait StreamTuple<'sval>: Sized {
    type Ok;

    /// The stream after taking the value at an index.
    closed spec fn tuple_took(self, tag: Option<Tag>, index: Index, value: Seq<TokenView>) -> Self {
        arbitrary()
    }

    /// What the stream gives when the tuple ends.
    closed spec fn tuple_ended(self) -> Self::Ok {
        arbitrary()
    }

    fn value_computed(&mut self, tag: Option<Tag>, index: Index, value: &[Token<'sval>]) -> (r: Result<(), Error>)
        ensures
            r is Ok ==> *final(self) == old(self).tuple_took(tag, index, tokens_view(value@)),
    ;

    fn end(self) -> (r: Result<Self::Ok, Error>)
        ensures
            r matches Ok(v) ==> v == self.tuple_ended(),
    ;
}

/// A stream for a record.
pub trait StreamRecord<'sval>: Sized {
    type Ok;

    /// The stream after taking the value of a field.
    closed spec fn record_took(self, tag: Option<Tag>, label: LabelView, value: Seq<TokenView>) -> Self {
        arbitrary()
    }

    /// What the stream gives when the record ends.
    closed spec fn record_ended(self) -> Self::Ok {
        arbitrary()
    }

    fn value_computed(&mut self, tag: Option<Tag>, label: &Label, value: &[Token<'sval>]) -> (r: Result<(), Error>)
        ensures
            r is Ok ==> *final(self) == old(self).record_took(tag, label@, tokens_view(value@)),
    ;

    fn end(self) -> (r: Result<Self::Ok, Error>)
        ensures
            r matches Ok(v) ==> v == self.record_ended(),
    ;
}

/// A stream for an enum: its variant is a tag, a tagged value, a tuple, a
/// record, or another enum.
pub trait StreamEnum<'sval>: Sized {
    type Ok;

    type Tuple: StreamTuple<'sval, Ok = Self::Ok>;
    type Record: StreamRecord<'sval, Ok = Self::Ok>;

    /// What the stream gives for its variant, handed over by a call
    /// (`CallView::Tag`, `CallView::EnumTagged` or `CallView::EnumEnd`).
    closed spec fn enum_written(self, call: CallView) -> Self::Ok {
        arbitrary()
    }

    /// The enum stream handed out for a variant that is itself an enum.
    closed spec fn enum_nested(self, variant: NestedVariantView) -> Self {
        arbitrary()
    }

    /// The tuple stream handed out for a tuple variant.
    closed spec fn enum_opened_tuple(self, meta: MetaView, num_entries: Option<usize>) -> Self::Tuple {
        arbitrary()
    }

    /// The record stream handed out for a record variant.
    closed spec fn enum_opened_record(self, meta: MetaView, num_entries: Option<usize>) -> Self::Record {
        arbitrary()
    }

    fn tag(self, tag: Option<Tag>, label: Option<&Label>, index: Option<Index>) -> (r: Result<Self::Ok, Error>)
        ensures
            r matches Ok(v) ==> v == self.enum_written(CallView::Tag(meta_of(tag, label, index))),
    ;

    fn tagged(
        self,
        tag: Option<Tag>,
        label: Option<&Label>,
        index: Option<Index>,
        value: &[Token<'sval>],
    ) -> (r: Result<Self::Ok, Error>)
        ensures
            r matches Ok(v) ==> v == self.enum_written(CallView::EnumTagged(variant_with(tag, label, index), tokens_view(value@))),
    {
        self.tagged_computed(tag, label, index, value)
    }

    fn tagged_computed(
        self,
        tag: Option<Tag>,
        label: Option<&Label>,
        index: Option<Index>,
        value: &[Token<'sval>],
    ) -> (r: Result<Self::Ok, Error>)
        ensures
            r matches Ok(v) ==> v == self.enum_written(CallView::EnumTagged(variant_with(tag, label, index), tokens_view(value@))),
    ;

    fn tuple_begin(
        self,
        tag: Option<Tag>,
        label: Option<&Label>,
        index: Option<Index>,
        num_entries: Option<usize>,
    ) -> (r: Result<Self::Tuple, Error>)
        ensures
            r matches Ok(q) ==> q == self.enum_opened_tuple(meta_of(tag, label, index), num_entries),
    ;

    fn record_begin(
        self,
        tag: Option<Tag>,
        label: Option<&Label>,
        index: Option<Index>,
        num_entries: Option<usize>,
    ) -> (r: Result<Self::Record, Error>)
        ensures
            r matches Ok(q) ==> q == self.enum_opened_record(meta_of(tag, label, index), num_entries),
    ;

    /// Begin a variant that is itself an enum: the enum stream it gives
    /// back takes that inner enum's variant, and finishes this enum's value.
    fn nested(self, tag: Option<Tag>, label: Option<&Label>, index: Option<Index>) -> (r: Result<Self, Error>)
        ensures
            r matches Ok(e) ==> e == self.enum_nested(variant_with(tag, label, index)),
    ;

    fn end(self) -> (r: Result<Self::Ok, Error>)
        ensures
            r matches Ok(v) ==> v == self.enum_written(CallView::EnumEnd),
    ;
}

/// The tag on a number given as its decimal text.
pub fn number_tag() -> (t: Tag)
    ensures
        t.data == "NUMBER",
{
    Tag::new("NUMBER")
}

/// The tokens of a number's decimal text.
fn number_tokens<'sval>(text: String) -> (ts: Vec<Token<'sval>>)
    ensures
        tokens_view(ts@) == text_tokens(text@, false),
{
    let ghost t = text@;
    let mut ts: Vec<Token<'sval>> = Vec::new();
    ts.push(Token::TextBegin(Some(text.as_str().len())));
    ts.push(Token::TextFragmentComputed(text));
    ts.push(Token::TextEnd);
    assert(tokens_view(ts@) =~= text_tokens(t, false));
    ts
}

/// A copy of a label that doesn't borrow anything.
pub fn owned_label(label: Label) -> (r: Result<Label<'static>, Error>)
    ensures
        r matches Ok(l) && l@ == label@,
{
    owned_label_ref(&label)
}

/// A copy of a borrowed label that doesn't borrow anything.
pub fn owned_label_ref(label: &Label) -> (r: Result<Label<'static>, Error>)
    ensures
        r matches Ok(l) && l@ == label@,
{
    Ok(label.to_owned())
}

/// A stream that refuses every value it's given, with an error that says
/// what kind of value it was.
pub struct Unsupported<T> {
    pub marker: PhantomData<T>,
}

impl<T> Default for Unsupported<T> {
    fn default() -> (s: Self)
        ensures
            s == (Unsupported::<T> { marker: PhantomData }),
    {
        Unsupported { marker: PhantomData }
    }
}

impl<T> Unsupported<T> {
    pub fn null(self) -> (r: Result<T, Error>)
        ensures
            r == Err::<T, Error>(unsupported_err("null is unsupported")),
    {
        Err(Error::invalid_value("null is unsupported"))
    }

    pub fn bool(self, value: bool) -> (r: Result<T, Error>)
        ensures
            r == Err::<T, Error>(unsupported_err("booleans are unsupported")),
    {
        Err(Error::invalid_value("booleans are unsupported"))
    }

    pub fn i64(self, value: i64) -> (r: Result<T, Error>)
        ensures
            r == Err::<T, Error>(unsupported_err("numbers are unsupported")),
    {
        Err(Error::invalid_value("numbers are unsupported"))
    }

    /// A 64-bit floating point number, given by its bits.
    pub fn f64_bits(self, value: u64) -> (r: Result<T, Error>)
        ensures
            r == Err::<T, Error>(unsupported_err("numbers are unsupported")),
    {
        Err(Error::invalid_value("numbers are unsupported"))
    }

    pub fn text_computed(self, text: &str) -> (r: Result<T, Error>)
        ensures
            r == Err::<T, Error>(unsupported_err("text is unsupported")),
    {
        Err(Error::invalid_value("text is unsupported"))
    }

    pub fn tag(self, tag: Option<Tag>, label: Option<&Label>, index: Option<Index>) -> (r: Result<T, Error>)
        ensures
            r == Err::<T, Error>(unsupported_err("tags are unsupported")),
    {
        Err(Error::invalid_value("tags are unsupported"))
    }

    pub fn tagged_computed(self, tag: Option<Tag>, label: Option<&Label>, index: Option<Index>) -> (r: Result<T, Error>)
        ensures
            r == Err::<T, Error>(unsupported_err("tagged values are unsupported")),
    {
        Err(Error::invalid_value("tagged values are unsupported"))
    }

    pub fn seq_begin(self, num_entries: Option<usize>) -> (r: Result<Self, Error>)
        ensures
            r == Err::<Self, Error>(unsupported_err("sequences are unsupported")),
    {
        Err(Error::invalid_value("sequences are unsupported"))
    }

    pub fn map_begin(self, num_entries: Option<usize>) -> (r: Result<Self, Error>)
        ensures
            r == Err::<Self, Error>(unsupported_err("maps are unsupported")),
    {
        Err(Error::invalid_value("maps are unsupported"))
    }

    pub fn tuple_begin(
        self,
        tag: Option<Tag>,
        label: Option<&Label>,
        index: Option<Index>,
        num_entries: Option<usize>,
    ) -> (r: Result<Self, Error>)
        ensures
            r == Err::<Self, Error>(unsupported_err("records are unsupported")),
    {
        Err(Error::invalid_value("records are unsupported"))
    }

    pub fn record_begin(
        self,
        tag: Option<Tag>,
        label: Option<&Label>,
        index: Option<Index>,
        num_entries: Option<usize>,
    ) -> (r: Result<Self, Error>)
        ensures
            r == Err::<Self, Error>(unsupported_err("records are unsupported")),
    {
        Err(Error::invalid_value("records are unsupported"))
    }

    pub fn enum_begin(self, tag: Option<Tag>, label: Option<&Label>, index: Option<Index>) -> (r: Result<Self, Error>)
        ensures
            r == Err::<Self, Error>(unsupported_err("enums are unsupported")),
    {
        Err(Error::invalid_value("enums are unsupported"))
    }

    /// A value of a sequence.
    pub fn seq_value_computed(&mut self) -> (r: Result<(), Error>)
        ensures
            r == Err::<(), Error>(unsupported_err("sequences are unsupported")),
    {
        Err(Error::invalid_value("sequences are unsupported"))
    }

    pub fn seq_end(self) -> (r: Result<T, Error>)
        ensures
            r == Err::<T, Error>(unsupported_err("sequences are unsupported")),
    {
        Err(Error::invalid_value("sequences are unsupported"))
    }

    /// A key of a map.
    pub fn key_computed(&mut self) -> (r: Result<(), Error>)
        ensures
            r == Err::<(), Error>(unsupported_err("maps are unsupported")),
    {
        Err(Error::invalid_value("maps are unsupported"))
    }

    /// A value of a map.
    pub fn map_value_computed(&mut self) -> (r: Result<(), Error>)
        ensures
            r == Err::<(), Error>(unsupported_err("maps are unsupported")),
    {
        Err(Error::invalid_value("maps are unsupported"))
    }

    pub fn map_end(self) -> (r: Result<T, Error>)
        ensures
            r == Err::<T, Error>(unsupported_err("maps are unsupported")),
    {
        Err(Error::invalid_value("maps are unsupported"))
    }

    /// A value of a tuple.
    pub fn tuple_value_computed(&mut self, tag: Option<Tag>, index: Index) -> (r: Result<(), Error>)
        ensures
            r == Err::<(), Error>(unsupported_err("tuples are unsupported")),
    {
        Err(Error::invalid_value("tuples are unsupported"))
    }

    pub fn tuple_end(self) -> (r: Result<T, Error>)
        ensures
            r == Err::<T, Error>(unsupported_err("tuples are unsupported")),
    {
        Err(Error::invalid_value("tuples are unsupported"))
    }

    /// A value of a record.
    pub fn record_value_computed(&mut self, tag: Option<Tag>, label: &Label) -> (r: Result<(), Error>)
        ensures
            r == Err::<(), Error>(unsupported_err("records are unsupported")),
    {
        Err(Error::invalid_value("records are unsupported"))
    }

    pub fn record_end(self) -> (r: Result<T, Error>)
        ensures
            r == Err::<T, Error>(unsupported_err("records are unsupported")),
    {
        Err(Error::invalid_value("records are unsupported"))
    }

    /// A variant of an enum that is just a tag.
    pub fn enum_tag(self, tag: Option<Tag>, label: Option<&Label>, index: Option<Index>) -> (r: Result<T, Error>)
        ensures
            r == Err::<T, Error>(unsupported_err("enums are unsupported")),
    {
        Err(Error::invalid_value("enums are unsupported"))
    }

    /// A variant of an enum that holds a value.
    pub fn enum_tagged_computed(self, tag: Option<Tag>, label: Option<&Label>, index: Option<Index>) -> (r: Result<T, Error>)
        ensures
            r == Err::<T, Error>(unsupported_err("enums are unsupported")),
    {
        Err(Error::invalid_value("enums are unsupported"))
    }

    /// A variant of an enum that is a tuple.
    pub fn enum_tuple_begin(
        self,
        tag: Option<Tag>,
        label: Option<&Label>,
        index: Option<Index>,
        num_entries: Option<usize>,
    ) -> (r: Result<Self, Error>)
        ensures
            r == Err::<Self, Error>(unsupported_err("enums are unsupported")),
    {
        Err(Error::invalid_value("enums are unsupported"))
    }

    /// A variant of an enum that is a record.
    pub fn enum_record_begin(
        self,
        tag: Option<Tag>,
        label: Option<&Label>,
        index: Option<Index>,
        num_entries: Option<usize>,
    ) -> (r: Result<Self, Error>)
        ensures
            r == Err::<Self, Error>(unsupported_err("enums are unsupported")),
    {
        Err(Error::invalid_value("enums are unsupported"))
    }

    /// A variant of an enum that is itself an enum.
    pub fn nested(self, tag: Option<Tag>, label: Option<&Label>, index: Option<Index>) -> (r: Result<T, Error>)
        ensures
            r == Err::<T, Error>(unsupported_err("enums are unsupported")),
    {
        Err(Error::invalid_value("enums are unsupported"))
    }

    pub fn enum_end(self) -> (r: Result<T, Error>)
        ensures
            r == Err::<T, Error>(unsupported_err("enums are unsupported")),
    {
        Err(Error::invalid_value("enums are unsupported"))
    }
}

impl<'sval, T> Stream<'sval> for Unsupported<T> {
    type Ok = T;
    type Sequence = Self;
    type Mapping = Self;
    type Tuple = Self;
    type Record = Self;
    type Enum = Self;

    fn value_computed(self, value: &[Token<'sval>]) -> Result<T, Error> {
        Err(Error::invalid_value("values are unsupported"))
    }

    fn null(self) -> Result<T, Error> {
        Unsupported::null(self)
    }

    fn bool(self, value: bool) -> Result<T, Error> {
        Unsupported::bool(self, value)
    }

    fn i64(self, value: i64) -> Result<T, Error> {
        Unsupported::i64(self, value)
    }

    fn f32_bits(self, bits: u32) -> Result<T, Error> {
        Unsupported::f64_bits(self, bits as u64)
    }

    fn f64_bits(self, bits: u64) -> Result<T, Error> {
        Unsupported::f64_bits(self, bits)
    }

    fn text_computed(self, text: &str) -> Result<T, Error> {
        Unsupported::text_computed(self, text)
    }

    fn tag(self, tag: Option<Tag>, label: Option<&Label>, index: Option<Index>) -> Result<T, Error> {
        Unsupported::tag(self, tag, label, index)
    }

    fn tagged_computed(self, tag: Option<Tag>, label: Option<&Label>, index: Option<Index>, value: &[Token<'sval>]) -> Result<T, Error> {
        Unsupported::tagged_computed(self, tag, label, index)
    }

    fn seq_begin(self, num_entries: Option<usize>) -> Result<Self, Error> {
        Unsupported::seq_begin(self, num_entries)
    }

    fn map_begin(self, num_entries: Option<usize>) -> Result<Self, Error> {
        Unsupported::map_begin(self, num_entries)
    }

    fn tuple_begin(self, tag: Option<Tag>, label: Option<&Label>, index: Option<Index>, num_entries: Option<usize>) -> Result<Self, Error> {
        Unsupported::tuple_begin(self, tag, label, index, num_entries)
    }

    fn record_begin(self, tag: Option<Tag>, label: Option<&Label>, index: Option<Index>, num_entries: Option<usize>) -> Result<Self, Error> {
        Unsupported::record_begin(self, tag, label, index, num_entries)
    }

    fn enum_begin(self, tag: Option<Tag>, label: Option<&Label>, index: Option<Index>) -> Result<Self, Error> {
        Unsupported::enum_begin(self, tag, label, index)
    }
}

impl<'sval, T> StreamSeq<'sval> for Unsupported<T> {
    type Ok = T;

    fn value_computed(&mut self, value: &[Token<'sval>]) -> Result<(), Error> {
        self.seq_value_computed()
    }

    fn end(self) -> Result<T, Error> {
        self.seq_end()
    }
}

impl<'sval, T> StreamMap<'sval> for Unsupported<T> {
    type Ok = T;

    fn key_computed(&mut self, key: &[Token<'sval>]) -> Result<(), Error> {
        Unsupported::key_computed(self)
    }

    fn value_computed(&mut self, value: &[Token<'sval>]) -> Result<(), Error> {
        self.map_value_computed()
    }

    fn end(self) -> Result<T, Error> {
        self.map_end()
    }
}

impl<'sval, T> StreamTuple<'sval> for Unsupported<T> {
    type Ok = T;

    fn value_computed(&mut self, tag: Option<Tag>, index: Index, value: &[Token<'sval>]) -> Result<(), Error> {
        self.tuple_value_computed(tag, index)
    }

    fn end(self) -> Result<T, Error> {
        self.tuple_end()
    }
}

impl<'sval, T> StreamRecord<'sval> for Unsupported<T> {
    type Ok = T;

    fn value_computed(&mut self, tag: Option<Tag>, label: &Label, value: &[Token<'sval>]) -> Result<(), Error> {
        self.record_value_computed(tag, label)
    }

    fn end(self) -> Result<T, Error> {
        self.record_end()
    }
}

impl<'sval, T> StreamEnum<'sval> for Unsupported<T> {
    type Ok = T;
    type Tuple = Self;
    type Record = Self;

    fn tag(self, tag: Option<Tag>, label: Option<&Label>, index: Option<Index>) -> Result<T, Error> {
        self.enum_tag(tag, label, index)
    }

    fn tagged_computed(self, tag: Option<Tag>, label: Option<&Label>, index: Option<Index>, value: &[Token<'sval>]) -> Result<T, Error> {
        self.enum_tagged_computed(tag, label, index)
    }

    fn tuple_begin(self, tag: Option<Tag>, label: Option<&Label>, index: Option<Index>, num_entries: Option<usize>) -> Result<Self, Error> {
        self.enum_tuple_begin(tag, label, index, num_entries)
    }

    fn record_begin(self, tag: Option<Tag>, label: Option<&Label>, index: Option<Index>, num_entries: Option<usize>) -> Result<Self, Error> {
        self.enum_record_begin(tag, label, index, num_entries)
    }

    fn nested(self, tag: Option<Tag>, label: Option<&Label>, index: Option<Index>) -> Result<Self, Error> {
        Err(Error::invalid_value("enums are unsupported"))
    }

    fn end(self) -> Result<T, Error> {
        self.enum_end()
    }
}

} // verus!
