//! The flattening stream: a stream that takes flat calls, one token at a
//! time, and writes them into a recursive stream, one container at a time,
//! buffering any value nested deeper than the container it is writing.
//!
//! The flattening stream holds the stream it writes into in one of a few
//! states. What one token does is a function of that state, of the buffer
//! being filled, and of the enum variants waiting to be begun
//! (`flat_step`): the state after it, the calls it hands to the stream,
//! in order (`CallView`), and whether the flattening stream itself accepts
//! the token. `FlatStream` performs those calls, and records each one it
//! makes.
use vstd::prelude::*;

use crate::data::{ContainerKind, Index, Label, LabelView, Meta, MetaView, Tag};
use crate::error::{Error, ErrorKind};
use crate::fragments::{binary_pushed, binary_tokens, text_pushed, text_tokens, BinaryBuf, BinaryBufView, TextBuf, TextBufView};
use crate::token::{tokens_view, Scalar, Token, TokenView};
use crate::value::buf::ValueBuf;
use crate::value::decode::decode;
use crate::value::model::{empty_buf, step, ValueBufView};
use super::flat_enum::{EnumStep, FlatStreamEnum, NestedVariant, NestedVariantView};
use super::{binary_written, owned_label_ref, scalar_call, Stream, StreamEnum, StreamMap, StreamRecord, StreamSeq, StreamTuple};

verus! {

/// What the flattening stream is writing into. A `bool` or `Option` says
/// whether the stream is still held: once a value or end has been handed
/// to it, it is gone.
pub enum FlatState {
    /// A stream for any single value.
    Any(bool),
    /// A sequence stream.
    Sequence(bool),
    /// A map stream, and whether the next value is a key.
    Mapping(bool, bool),
    /// A record stream, and the field whose value comes next, if any.
    Record(bool, Option<(Option<Tag>, Label<'static>)>),
    /// A tuple stream, and the index whose value comes next, if any.
    Tuple(bool, Option<(Option<Tag>, Index)>),
    /// A stream for a single value, wrapped in the given tag, label and index.
    Tagged(Option<Meta<'static>>),
    /// An enum stream.
    Enum(bool),
    /// An enum stream whose variant wraps the value to come.
    EnumVariant(Option<NestedVariant>),
    /// The stream has its result.
    Done,
}

/// The content of a `FlatState`.
pub enum StateView {
    Any(bool),
    Sequence(bool),
    Mapping(bool, bool),
    Record(bool, Option<(Option<Tag>, LabelView)>),
    Tuple(bool, Option<(Option<Tag>, Index)>),
    Tagged(Option<MetaView>),
    Enum(bool),
    EnumVariant(Option<NestedVariantView>),
    Done,
}

/// The content of a record field.
pub open spec fn field_view(f: Option<(Option<Tag>, Label<'static>)>) -> Option<(Option<Tag>, LabelView)> {
    match f {
        Some((t, l)) => Some((t, l@)),
        None => None,
    }
}

impl View for FlatState {
    type V = StateView;

    open spec fn view(&self) -> StateView {
        match self {
            FlatState::Any(h) => StateView::Any(*h),
            FlatState::Sequence(h) => StateView::Sequence(*h),
            FlatState::Mapping(h, k) => StateView::Mapping(*h, *k),
            FlatState::Record(h, f) => StateView::Record(*h, field_view(*f)),
            FlatState::Tuple(h, f) => StateView::Tuple(*h, *f),
            FlatState::Tagged(m) => StateView::Tagged(match m {
                Some(m) => Some(m@),
                None => None,
            }),
            FlatState::Enum(h) => StateView::Enum(*h),
            FlatState::EnumVariant(v) => StateView::EnumVariant(match v {
                Some(v) => Some(v@),
                None => None,
            }),
            FlatState::Done => StateView::Done,
        }
    }
}

/// Where a value goes.
pub enum ValueRoute {
    /// To the stream, as the whole value.
    Any,
    /// To the stream, as a tagged value.
    Tagged(Meta<'static>),
    /// To the sequence, as its next value.
    SeqValue,
    /// To the map, as a key.
    MapKey,
    /// To the map, as a value.
    MapValue,
    /// To the record, as the value of the field it holds.
    RecordValue,
    /// To the tuple, as the value at the index it holds.
    TupleValue,
    /// To the enum, as a variant wrapping the value.
    TaggedVariant(NestedVariant),
}

pub enum RouteView {
    Any,
    Tagged(MetaView),
    SeqValue,
    MapKey,
    MapValue,
    RecordValue,
    TupleValue,
    TaggedVariant(NestedVariantView),
}

impl View for ValueRoute {
    type V = RouteView;

    open spec fn view(&self) -> RouteView {
        match self {
            ValueRoute::Any => RouteView::Any,
            ValueRoute::Tagged(m) => RouteView::Tagged(m@),
            ValueRoute::SeqValue => RouteView::SeqValue,
            ValueRoute::MapKey => RouteView::MapKey,
            ValueRoute::MapValue => RouteView::MapValue,
            ValueRoute::RecordValue => RouteView::RecordValue,
            ValueRoute::TupleValue => RouteView::TupleValue,
            ValueRoute::TaggedVariant(v) => RouteView::TaggedVariant(v@),
        }
    }
}

pub open spec fn invalid(reason: &'static str) -> Error {
    Error(ErrorKind::InvalidValue { reason })
}

/// The states where handing a value over is not yet decided.
pub open spec fn value_undecided(state: StateView) -> bool {
    state is Enum || state is Done
}

/// Where a value goes from each state, and the state left behind.
pub open spec fn value_route(state: StateView) -> (StateView, Result<RouteView, Error>) {
    match state {
        StateView::Any(true) => (StateView::Any(false), Ok(RouteView::Any)),
        StateView::Any(false) => (
            StateView::Any(false),
            Err(invalid("cannot stream value; the stream is already completed")),
        ),
        StateView::Tagged(Some(meta)) => (StateView::Tagged(None), Ok(RouteView::Tagged(meta))),
        StateView::Tagged(None) => (
            StateView::Tagged(None),
            Err(invalid("cannot stream tagged value; the stream is already completed")),
        ),
        StateView::Sequence(true) => (StateView::Sequence(true), Ok(RouteView::SeqValue)),
        StateView::Sequence(false) => (
            StateView::Sequence(false),
            Err(invalid("cannot stream a sequence; the stream is already completed")),
        ),
        StateView::Mapping(true, is_key) => (
            StateView::Mapping(true, is_key),
            Ok(if is_key { RouteView::MapKey } else { RouteView::MapValue }),
        ),
        StateView::Mapping(false, is_key) => (
            StateView::Mapping(false, is_key),
            Err(invalid("cannot stream a map; the stream is already completed")),
        ),
        StateView::Record(true, Some(field)) => (StateView::Record(true, Some(field)), Ok(RouteView::RecordValue)),
        StateView::Record(true, None) => (
            StateView::Record(true, None),
            Err(invalid("cannot stream a record; the field label is missing")),
        ),
        StateView::Record(false, field) => (
            StateView::Record(false, field),
            Err(invalid("cannot stream a map; the stream is already completed")),
        ),
        StateView::Tuple(true, Some(index)) => (StateView::Tuple(true, Some(index)), Ok(RouteView::TupleValue)),
        StateView::Tuple(true, None) => (
            StateView::Tuple(true, None),
            Err(invalid("cannot stream a tuple; the field index is missing")),
        ),
        StateView::Tuple(false, index) => (
            StateView::Tuple(false, index),
            Err(invalid("cannot stream a tuple; the stream is already completed")),
        ),
        StateView::EnumVariant(Some(v)) => (StateView::EnumVariant(None), Ok(RouteView::TaggedVariant(v))),
        StateView::EnumVariant(None) => (
            StateView::EnumVariant(None),
            Err(invalid("cannot stream an enum variant; the stream is already completed")),
        ),
        other => (other, Err(invalid("cannot stream value; the stream is in an invalid state"))),
    }
}

pub open spec fn route_result(r: Result<ValueRoute, Error>) -> Result<RouteView, Error> {
    match r {
        Ok(route) => Ok(route@),
        Err(e) => Err(e),
    }
}

/// Decide where a value goes, handing over the stream when the value
/// completes it.
pub fn value_with(state: FlatState) -> (r: (FlatState, Result<ValueRoute, Error>))
    requires
        !value_undecided(state@),
    ensures
        (r.0@, route_result(r.1)) == value_route(state@),
{
    match state {
        FlatState::Any(held) => if held {
            (FlatState::Any(false), Ok(ValueRoute::Any))
        } else {
            (FlatState::Any(false), Err(Error::invalid_value("cannot stream value; the stream is already completed")))
        },
        FlatState::Tagged(meta) => match meta {
            Some(meta) => (FlatState::Tagged(None), Ok(ValueRoute::Tagged(meta))),
            None => (
                FlatState::Tagged(None),
                Err(Error::invalid_value("cannot stream tagged value; the stream is already completed")),
            ),
        },
        FlatState::Sequence(held) => if held {
            (FlatState::Sequence(true), Ok(ValueRoute::SeqValue))
        } else {
            (FlatState::Sequence(false), Err(Error::invalid_value("cannot stream a sequence; the stream is already completed")))
        },
        FlatState::Mapping(held, is_key) => if !held {
            (FlatState::Mapping(false, is_key), Err(Error::invalid_value("cannot stream a map; the stream is already completed")))
        } else if is_key {
            (FlatState::Mapping(true, is_key), Ok(ValueRoute::MapKey))
        } else {
            (FlatState::Mapping(true, is_key), Ok(ValueRoute::MapValue))
        },
        FlatState::Record(held, field) => if !held {
            (FlatState::Record(false, field), Err(Error::invalid_value("cannot stream a map; the stream is already completed")))
        } else {
            match field {
                Some(field) => (FlatState::Record(true, Some(field)), Ok(ValueRoute::RecordValue)),
                None => (
                    FlatState::Record(true, None),
                    Err(Error::invalid_value("cannot stream a record; the field label is missing")),
                ),
            }
        },
        FlatState::Tuple(held, index) => if !held {
            (FlatState::Tuple(false, index), Err(Error::invalid_value("cannot stream a tuple; the stream is already completed")))
        } else {
            match index {
                Some(index) => (FlatState::Tuple(true, Some(index)), Ok(ValueRoute::TupleValue)),
                None => (
                    FlatState::Tuple(true, None),
                    Err(Error::invalid_value("cannot stream a tuple; the field index is missing")),
                ),
            }
        },
        FlatState::EnumVariant(v) => match v {
            Some(v) => (FlatState::EnumVariant(None), Ok(ValueRoute::TaggedVariant(v))),
            None => (
                FlatState::EnumVariant(None),
                Err(Error::invalid_value("cannot stream an enum variant; the stream is already completed")),
            ),
        },
        other => (other, Err(Error::invalid_value("cannot stream value; the stream is in an invalid state"))),
    }
}

/// Which buffer is collecting calls, if any.
#[derive(Debug, Clone, Copy, PartialEq, Eq, Structural)]
pub enum BufferKind {
    Text,
    Binary,
    Value,
}

/// What beginning a container does.
pub enum BeginStep {
    /// The value buffer takes the call.
    Buffer,
    /// The stream for any value begins the container, and the state
    /// becomes the container's.
    Any,
    /// The enum stream takes the container as a variant.
    Enum,
    /// The container is nested inside the one being written: a new value
    /// buffer starts, and takes the call.
    StartBuffer,
    /// The call fails.
    Fail(Error),
}

pub open spec fn begin_step(buffered: Option<BufferKind>, state: StateView) -> BeginStep {
    match buffered {
        Some(BufferKind::Value) => BeginStep::Buffer,
        Some(_) => BeginStep::Fail(invalid("cannot begin buffering; the stream is in an invalid state")),
        None => match state {
            StateView::Any(true) => BeginStep::Any,
            StateView::Any(false) => BeginStep::Fail(invalid("cannot stream value; the stream is already completed")),
            StateView::Enum(true) => BeginStep::Enum,
            StateView::Enum(false) => BeginStep::Fail(invalid("cannot stream enum value; the stream is already completed")),
            _ => BeginStep::StartBuffer,
        },
    }
}

/// Decide what beginning a container does.
pub fn buffer_or_begin(buffered: Option<BufferKind>, state: &FlatState) -> (r: BeginStep)
    ensures
        r == begin_step(buffered, state@),
{
    match buffered {
        Some(BufferKind::Value) => BeginStep::Buffer,
        Some(_) => BeginStep::Fail(Error::invalid_value("cannot begin buffering; the stream is in an invalid state")),
        None => match state {
            FlatState::Any(held) => if *held {
                BeginStep::Any
            } else {
                BeginStep::Fail(Error::invalid_value("cannot stream value; the stream is already completed"))
            },
            FlatState::Enum(held) => if *held {
                BeginStep::Enum
            } else {
                BeginStep::Fail(Error::invalid_value("cannot stream enum value; the stream is already completed"))
            },
            _ => BeginStep::StartBuffer,
        },
    }
}

/// What ending a container does.
pub enum EndStep {
    /// The stream being written ends.
    Transition,
    /// The value buffer takes the call; if its value is then complete, it
    /// goes to the stream as a value.
    Buffer,
    /// The call fails.
    Fail(Error),
}

pub open spec fn end_step(buffered: Option<BufferKind>) -> EndStep {
    match buffered {
        None => EndStep::Transition,
        Some(BufferKind::Value) => EndStep::Buffer,
        Some(_) => EndStep::Fail(invalid("cannot end buffering value; the stream is in an invalid state")),
    }
}

/// Decide what ending a container does.
pub fn buffer_or_end(buffered: Option<BufferKind>) -> (r: EndStep)
    ensures
        r == end_step(buffered),
{
    match buffered {
        None => EndStep::Transition,
        Some(BufferKind::Value) => EndStep::Buffer,
        Some(_) => EndStep::Fail(Error::invalid_value("cannot end buffering value; the stream is in an invalid state")),
    }
}

/// Whether a call goes to the value buffer, rather than to the stream
/// being written.
pub fn buffer_or_with(buffered: Option<BufferKind>) -> (r: bool)
    ensures
        r == (buffered == Some(BufferKind::Value)),
{
    match buffered {
        Some(BufferKind::Value) => true,
        _ => false,
    }
}

/// The containers whose end hands the stream being written its end.
pub enum EndTarget {
    Sequence,
    Mapping,
    Record,
    Tuple,
}

/// Take the stream being written to end it as the given container: it
/// must be held, in that container's state, and no buffer may be active.
pub open spec fn take_for_end(buffered: Option<BufferKind>, state: StateView, target: EndTarget) -> Result<(), Error> {
    match target {
        EndTarget::Sequence => match (buffered, state) {
            (None, StateView::Sequence(true)) => Ok(()),
            (None, StateView::Sequence(false)) => Err(invalid("cannot end a sequence; the stream is already completed")),
            _ => Err(invalid("cannot end a sequence; invalid stream state")),
        },
        EndTarget::Mapping => match (buffered, state) {
            (None, StateView::Mapping(true, _)) => Ok(()),
            (None, StateView::Mapping(false, _)) => Err(invalid("cannot end a map; the stream is already completed")),
            _ => Err(invalid("cannot end a map; invalid stream state")),
        },
        EndTarget::Record => match (buffered, state) {
            (None, StateView::Record(true, _)) => Ok(()),
            (None, StateView::Record(false, _)) => Err(invalid("cannot end a record; the stream is already completed")),
            _ => Err(invalid("cannot end a record; invalid stream state")),
        },
        EndTarget::Tuple => match (buffered, state) {
            (None, StateView::Tuple(true, _)) => Ok(()),
            (None, StateView::Tuple(false, _)) => Err(invalid("cannot end a tuple; the stream is already completed")),
            _ => Err(invalid("cannot end a tuple; invalid stream state")),
        },
    }
}

pub fn take_end(buffered: Option<BufferKind>, state: &FlatState, target: EndTarget) -> (r: Result<(), Error>)
    ensures
        r == take_for_end(buffered, state@, target),
{
    match target {
        EndTarget::Sequence => match (buffered, state) {
            (None, FlatState::Sequence(held)) => if *held {
                Ok(())
            } else {
                Err(Error::invalid_value("cannot end a sequence; the stream is already completed"))
            },
            _ => Err(Error::invalid_value("cannot end a sequence; invalid stream state")),
        },
        EndTarget::Mapping => match (buffered, state) {
            (None, FlatState::Mapping(held, _)) => if *held {
                Ok(())
            } else {
                Err(Error::invalid_value("cannot end a map; the stream is already completed"))
            },
            _ => Err(Error::invalid_value("cannot end a map; invalid stream state")),
        },
        EndTarget::Record => match (buffered, state) {
            (None, FlatState::Record(held, _)) => if *held {
                Ok(())
            } else {
                Err(Error::invalid_value("cannot end a record; the stream is already completed"))
            },
            _ => Err(Error::invalid_value("cannot end a record; invalid stream state")),
        },
        EndTarget::Tuple => match (buffered, state) {
            (None, FlatState::Tuple(held, _)) => if *held {
                Ok(())
            } else {
                Err(Error::invalid_value("cannot end a tuple; the stream is already completed"))
            },
            _ => Err(Error::invalid_value("cannot end a tuple; invalid stream state")),
        },
    }
}

/// Whether a map key or value, or a record field, can be marked: the
/// stream must be held in that state and no buffer may be active.
pub open spec fn can_mark(buffered: Option<BufferKind>, state: StateView, map: bool) -> Result<(), Error> {
    if map {
        match (buffered, state) {
            (None, StateView::Mapping(true, _)) => Ok(()),
            _ => Err(invalid("cannot stream a map; invalid stream state")),
        }
    } else {
        match (buffered, state) {
            (None, StateView::Record(true, _)) => Ok(()),
            _ => Err(invalid("cannot stream a record; invalid stream state")),
        }
    }
}

/// Mark whether the next map value is a key.
pub fn mark_map(buffered: Option<BufferKind>, state: &mut FlatState, is_key: bool) -> (r: Result<(), Error>)
    ensures
        r == can_mark(buffered, old(state)@, true),
        r is Ok ==> *final(state) == FlatState::Mapping(true, is_key),
        r is Err ==> *final(state) == *old(state),
{
    match (buffered, &*state) {
        (None, FlatState::Mapping(true, _)) => {
            *state = FlatState::Mapping(true, is_key);
            Ok(())
        },
        _ => Err(Error::invalid_value("cannot stream a map; invalid stream state")),
    }
}

/// Set, or clear, the field whose value the record receives next.
pub fn mark_field(
    buffered: Option<BufferKind>,
    state: &mut FlatState,
    field: Option<(Option<Tag>, Label<'static>)>,
) -> (r: Result<(), Error>)
    ensures
        r == can_mark(buffered, old(state)@, false),
        r is Ok ==> final(state)@ == StateView::Record(true, field_view(field)),
        r is Err ==> *final(state) == *old(state),
{
    match (buffered, &*state) {
        (None, FlatState::Record(true, _)) => {
            *state = FlatState::Record(true, field);
            Ok(())
        },
        _ => Err(Error::invalid_value("cannot stream a record; invalid stream state")),
    }
}

/// Whether a tuple value can be marked: the stream must be held as a
/// tuple and no buffer may be active.
pub open spec fn can_mark_index(buffered: Option<BufferKind>, state: StateView) -> Result<(), Error> {
    match (buffered, state) {
        (None, StateView::Tuple(true, _)) => Ok(()),
        _ => Err(invalid("cannot stream a tuple; invalid stream state")),
    }
}

/// Set, or clear, the index whose value the tuple receives next.
pub fn mark_index(
    buffered: Option<BufferKind>,
    state: &mut FlatState,
    index: Option<(Option<Tag>, Index)>,
) -> (r: Result<(), Error>)
    ensures
        r == can_mark_index(buffered, old(state)@),
        r is Ok ==> *final(state) == FlatState::Tuple(true, index),
        r is Err ==> *final(state) == *old(state),
{
    match (buffered, &*state) {
        (None, FlatState::Tuple(true, _)) => {
            *state = FlatState::Tuple(true, index);
            Ok(())
        },
        _ => Err(Error::invalid_value("cannot stream a tuple; invalid stream state")),
    }
}

/// What ending an enum does.
pub enum EnumEnd {
    /// The enum stream ends.
    End,
    /// The enum's value has already been written; its result stands.
    Finish,
    Fail(Error),
}

pub open spec fn enum_end_step(buffered: Option<BufferKind>, state: StateView) -> EnumEnd {
    match (buffered, state) {
        (None, StateView::Enum(true)) => EnumEnd::End,
        (None, StateView::Enum(false)) => EnumEnd::Finish,
        (None, StateView::Done) => EnumEnd::Finish,
        _ => EnumEnd::Fail(invalid("cannot end an enum; invalid stream state")),
    }
}

pub fn take_enum(buffered: Option<BufferKind>, state: &FlatState) -> (r: EnumEnd)
    ensures
        r == enum_end_step(buffered, state@),
{
    match (buffered, state) {
        (None, FlatState::Enum(held)) => if *held { EnumEnd::End } else { EnumEnd::Finish },
        (None, FlatState::Done) => EnumEnd::Finish,
        _ => EnumEnd::Fail(Error::invalid_value("cannot end an enum; invalid stream state")),
    }
}

/// A call the flattening stream makes on the stream it writes into. A
/// value handed over whole is given as its tokens.
pub enum CallView {
    /// A primitive, by the stream's method for its type.
    Scalar(Scalar),
    /// Text, borrowed for the value's lifetime or not.
    Text(Seq<char>, bool),
    /// Binary, borrowed for the value's lifetime or not.
    Binary(Seq<u8>, bool),
    Tag(MetaView),
    /// A whole value, given to the stream for any value.
    Value(Seq<TokenView>),
    Tagged(MetaView, Seq<TokenView>),
    SeqBegin(Option<usize>),
    SeqValue(Seq<TokenView>),
    SeqEnd,
    MapBegin(Option<usize>),
    MapKey(Seq<TokenView>),
    MapValue(Seq<TokenView>),
    MapEnd,
    RecordBegin(MetaView, Option<usize>),
    RecordValue(Option<Tag>, LabelView, Seq<TokenView>),
    RecordEnd,
    TupleBegin(MetaView, Option<usize>),
    TupleValue(Option<Tag>, Index, Seq<TokenView>),
    TupleEnd,
    EnumBegin(MetaView),
    /// An enum stream begins a variant that is itself an enum.
    EnumNested(NestedVariantView),
    EnumTagged(NestedVariantView, Seq<TokenView>),
    EnumTupleBegin(MetaView, Option<usize>),
    EnumRecordBegin(MetaView, Option<usize>),
    EnumEnd,
}

/// The buffer being filled.
pub enum BufferedView {
    Text(TextBufView),
    Binary(BinaryBufView),
    Value(ValueBufView),
}

/// A value ready to go to the stream being written.
pub enum DeliveredView {
    Scalar(Scalar),
    Text(TextBufView),
    Binary(BinaryBufView),
    Tag(MetaView),
    Value(ValueBufView),
}

/// The state of a flattening stream: the buffer being filled, the state
/// the stream being written is held in, and the enum variants waiting to
/// be begun, outermost first.
#[verifier::ext_equal]
pub struct FlatView {
    pub buffered: Option<BufferedView>,
    pub state: StateView,
    pub waiting: Seq<NestedVariantView>,
}

/// What a token does: the state after it, the calls it hands to the
/// stream, in order, and whether the flattening stream accepts it. A
/// refused token hands nothing to the stream.
pub type FlatOutcome = (FlatView, Seq<CallView>, Result<(), Error>);

pub open spec fn initial_view() -> FlatView {
    FlatView { buffered: None, state: StateView::Any(true), waiting: Seq::empty() }
}

pub open spec fn kind_of(b: Option<BufferedView>) -> Option<BufferKind> {
    match b {
        None => None,
        Some(BufferedView::Text(_)) => Some(BufferKind::Text),
        Some(BufferedView::Binary(_)) => Some(BufferKind::Binary),
        Some(BufferedView::Value(_)) => Some(BufferKind::Value),
    }
}

/// The tokens a value is handed over as.
pub open spec fn delivered_tokens(d: DeliveredView) -> Seq<TokenView> {
    match d {
        DeliveredView::Scalar(x) => seq![TokenView::Scalar(x)],
        DeliveredView::Text(t) => text_tokens(t.text, t.borrowed),
        DeliveredView::Binary(b) => binary_tokens(b.bytes, b.borrowed),
        DeliveredView::Tag(m) => seq![TokenView::Tag(m)],
        DeliveredView::Value(b) => decode(b.parts),
    }
}

/// The call that hands a value to the stream for any value.
pub open spec fn any_call(d: DeliveredView) -> CallView {
    match d {
        DeliveredView::Scalar(x) => CallView::Scalar(x),
        DeliveredView::Text(t) => CallView::Text(t.text, t.borrowed),
        DeliveredView::Binary(b) => CallView::Binary(b.bytes, b.borrowed),
        DeliveredView::Tag(m) => CallView::Tag(m),
        DeliveredView::Value(b) => CallView::Value(decode(b.parts)),
    }
}

/// Beginning the waiting enum variants, outermost first.
pub open spec fn nested_calls(w: Seq<NestedVariantView>) -> Seq<CallView> {
    w.map_values(|v: NestedVariantView| CallView::EnumNested(v))
}

/// The variant a container's metadata describes.
pub open spec fn variant_of(m: MetaView) -> NestedVariantView {
    NestedVariantView { tag: m.tag, label: m.label, index: m.index }
}

pub open spec fn done(v: FlatView) -> FlatView {
    FlatView { buffered: v.buffered, state: StateView::Done, waiting: Seq::empty() }
}

pub open spec fn with_state(v: FlatView, s: StateView) -> FlatView {
    FlatView { state: s, ..v }
}

pub open spec fn with_buffered(v: FlatView, b: Option<BufferedView>) -> FlatView {
    FlatView { buffered: b, ..v }
}

pub open spec fn accepted(v: FlatView, calls: Seq<CallView>) -> FlatOutcome {
    (v, calls, Ok(()))
}

pub open spec fn refused(v: FlatView, e: Error) -> FlatOutcome {
    (v, Seq::empty(), Err(e))
}

/// Handing a value to the stream being written, where its state says.
pub open spec fn deliver_view(v: FlatView, d: DeliveredView) -> FlatOutcome {
    match v.state {
        StateView::Enum(_) => refused(v, invalid("enum variants must be wrapped in a tag-carrying value")),
        StateView::Done => refused(v, invalid("cannot stream value; the stream is already completed")),
        _ => {
            let (next, route) = value_route(v.state);
            let ts = delivered_tokens(d);
            match route {
                Err(e) => refused(with_state(v, next), e),
                Ok(RouteView::Any) => accepted(done(v), seq![any_call(d)]),
                Ok(RouteView::Tagged(m)) => accepted(done(v), seq![CallView::Tagged(m, ts)]),
                Ok(RouteView::SeqValue) => accepted(v, seq![CallView::SeqValue(ts)]),
                Ok(RouteView::MapKey) => accepted(v, seq![CallView::MapKey(ts)]),
                Ok(RouteView::MapValue) => accepted(v, seq![CallView::MapValue(ts)]),
                Ok(RouteView::RecordValue) => match v.state {
                    StateView::Record(_, Some((tag, label))) => accepted(v, seq![CallView::RecordValue(tag, label, ts)]),
                    _ => refused(v, invalid("cannot stream a record; the field label is missing")),
                },
                Ok(RouteView::TupleValue) => match v.state {
                    StateView::Tuple(_, Some((tag, index))) => accepted(v, seq![CallView::TupleValue(tag, index, ts)]),
                    _ => refused(v, invalid("cannot stream a tuple; the field index is missing")),
                },
                Ok(RouteView::TaggedVariant(nv)) => accepted(
                    done(v),
                    nested_calls(v.waiting).push(CallView::EnumTagged(nv, ts)),
                ),
            }
        },
    }
}

/// Giving a token to a value buffer: refused with the buffer's own error.
pub open spec fn into_buffer(v: FlatView, b: ValueBufView, t: TokenView) -> FlatOutcome {
    let (b1, ok) = step(b, t);
    if ok {
        accepted(with_buffered(v, Some(BufferedView::Value(b1))), Seq::empty())
    } else {
        refused(v, match b1.err {
            Some(e) => e,
            None => invalid("the value itself failed to stream"),
        })
    }
}

/// Giving a token to the active value buffer.
pub open spec fn buffer_view(v: FlatView, t: TokenView) -> FlatOutcome {
    match v.buffered {
        Some(BufferedView::Value(b)) => into_buffer(v, b, t),
        _ => refused(v, invalid("cannot buffer value; no active value buffer")),
    }
}

/// Beginning a container.
pub open spec fn begin_view(v: FlatView, kind: ContainerKind, m: MetaView, hint: Option<usize>, t: TokenView) -> FlatOutcome {
    match begin_step(kind_of(v.buffered), v.state) {
        BeginStep::Buffer => buffer_view(v, t),
        BeginStep::StartBuffer => into_buffer(v, empty_buf(), t),
        BeginStep::Fail(e) => refused(v, e),
        BeginStep::Any => match kind {
            ContainerKind::Sequence => accepted(with_state(v, StateView::Sequence(true)), seq![CallView::SeqBegin(hint)]),
            ContainerKind::Mapping => accepted(with_state(v, StateView::Mapping(true, true)), seq![CallView::MapBegin(hint)]),
            ContainerKind::Enum => accepted(
                FlatView { state: StateView::Enum(true), waiting: Seq::empty(), ..v },
                seq![CallView::EnumBegin(m)],
            ),
            ContainerKind::Tagged => accepted(with_state(v, StateView::Tagged(Some(m))), Seq::empty()),
            ContainerKind::Tuple => accepted(with_state(v, StateView::Tuple(true, None)), seq![CallView::TupleBegin(m, hint)]),
            _ => accepted(with_state(v, StateView::Record(true, None)), seq![CallView::RecordBegin(m, hint)]),
        },
        BeginStep::Enum => match kind {
            ContainerKind::Sequence => refused(v, invalid("sequences cannot be used as enum variants")),
            ContainerKind::Mapping => refused(v, invalid("maps cannot be used as enum variants")),
            ContainerKind::Enum => accepted(FlatView { waiting: v.waiting.push(variant_of(m)), ..v }, Seq::empty()),
            ContainerKind::Tagged => accepted(with_state(v, StateView::EnumVariant(Some(variant_of(m)))), Seq::empty()),
            ContainerKind::Tuple => accepted(
                FlatView { state: StateView::Tuple(true, None), waiting: Seq::empty(), ..v },
                nested_calls(v.waiting).push(CallView::EnumTupleBegin(m, hint)),
            ),
            _ => accepted(
                FlatView { state: StateView::Record(true, None), waiting: Seq::empty(), ..v },
                nested_calls(v.waiting).push(CallView::EnumRecordBegin(m, hint)),
            ),
        },
    }
}

/// The value is already written: its result stands.
pub open spec fn keep_view(v: FlatView) -> FlatOutcome {
    if v.state is Done {
        accepted(v, Seq::empty())
    } else {
        refused(v, invalid("incomplete stream"))
    }
}

/// Ending the stream being written as the given container.
pub open spec fn close_view(v: FlatView, target: EndTarget, call: CallView) -> FlatOutcome {
    match take_for_end(kind_of(v.buffered), v.state, target) {
        Ok(_) => accepted(done(v), seq![call]),
        Err(e) => refused(v, e),
    }
}

/// Ending a container.
pub open spec fn end_view(v: FlatView, kind: ContainerKind, t: TokenView) -> FlatOutcome {
    match end_step(kind_of(v.buffered)) {
        EndStep::Fail(e) => refused(v, e),
        EndStep::Buffer => {
            let (v1, c1, r1) = buffer_view(v, t);
            if r1 is Err {
                (v1, c1, r1)
            } else {
                match v1.buffered {
                    Some(BufferedView::Value(b1)) => if b1.complete() {
                        deliver_view(with_buffered(v1, None), DeliveredView::Value(b1))
                    } else {
                        (v1, c1, r1)
                    },
                    _ => (v1, c1, r1),
                }
            }
        },
        EndStep::Transition => match kind {
            ContainerKind::Sequence => close_view(v, EndTarget::Sequence, CallView::SeqEnd),
            ContainerKind::Mapping => close_view(v, EndTarget::Mapping, CallView::MapEnd),
            ContainerKind::Enum => match enum_end_step(kind_of(v.buffered), v.state) {
                EnumEnd::End => accepted(done(v), nested_calls(v.waiting).push(CallView::EnumEnd)),
                EnumEnd::Finish => keep_view(v),
                EnumEnd::Fail(e) => refused(v, e),
            },
            ContainerKind::Tagged => keep_view(v),
            ContainerKind::Tuple => close_view(v, EndTarget::Tuple, CallView::TupleEnd),
            _ => close_view(v, EndTarget::Record, CallView::RecordEnd),
        },
    }
}

pub open spec fn buffering(v: FlatView) -> bool {
    v.buffered matches Some(BufferedView::Value(_))
}

/// A token that goes to the value buffer while one is active, and
/// otherwise does what `f` says.
pub open spec fn or_buffer(v: FlatView, t: TokenView, f: FlatOutcome) -> FlatOutcome {
    if buffering(v) {
        buffer_view(v, t)
    } else {
        f
    }
}

/// What one flat call, given as a token, does.
#[verifier::opaque]
pub open spec fn flat_step(v: FlatView, t: TokenView) -> FlatOutcome {
    match t {
        TokenView::Scalar(x) => or_buffer(v, t, deliver_view(v, DeliveredView::Scalar(x))),
        TokenView::Tag(m) => or_buffer(v, t, deliver_view(v, DeliveredView::Tag(m))),
        TokenView::TagHint(_) => or_buffer(v, t, accepted(v, Seq::empty())),
        TokenView::TextBegin(_) => or_buffer(v, t, if v.buffered is Some {
            refused(v, invalid("cannot begin buffering; a buffer is already active"))
        } else {
            accepted(with_buffered(v, Some(BufferedView::Text(TextBufView { text: Seq::empty(), borrowed: true }))), Seq::empty())
        }),
        TokenView::TextFragment(f) => or_buffer(v, t, match v.buffered {
            Some(BufferedView::Text(b)) => accepted(with_buffered(v, Some(BufferedView::Text(text_pushed(b, f)))), Seq::empty()),
            _ => refused(v, invalid("cannot buffer text; no active text buffer")),
        }),
        TokenView::TextFragmentComputed(f) => or_buffer(v, t, match v.buffered {
            Some(BufferedView::Text(b)) => accepted(
                with_buffered(v, Some(BufferedView::Text(TextBufView { text: b.text + f, borrowed: false }))),
                Seq::empty(),
            ),
            _ => refused(v, invalid("cannot buffer text; no active text buffer")),
        }),
        TokenView::TextEnd => or_buffer(v, t, match v.buffered {
            Some(BufferedView::Text(b)) => deliver_view(with_buffered(v, None), DeliveredView::Text(b)),
            _ => refused(v, invalid("cannot end buffering text; no active text buffer")),
        }),
        TokenView::BinaryBegin(_) => or_buffer(v, t, if v.buffered is Some {
            refused(v, invalid("cannot begin buffering; a buffer is already active"))
        } else {
            accepted(with_buffered(v, Some(BufferedView::Binary(BinaryBufView { bytes: Seq::empty(), borrowed: true }))), Seq::empty())
        }),
        TokenView::BinaryFragment(f) => or_buffer(v, t, match v.buffered {
            Some(BufferedView::Binary(b)) => accepted(with_buffered(v, Some(BufferedView::Binary(binary_pushed(b, f)))), Seq::empty()),
            _ => refused(v, invalid("cannot buffer binary; no active binary buffer")),
        }),
        TokenView::BinaryFragmentComputed(f) => or_buffer(v, t, match v.buffered {
            Some(BufferedView::Binary(b)) => accepted(
                with_buffered(v, Some(BufferedView::Binary(BinaryBufView { bytes: b.bytes + f, borrowed: false }))),
                Seq::empty(),
            ),
            _ => refused(v, invalid("cannot buffer binary; no active binary buffer")),
        }),
        TokenView::BinaryEnd => or_buffer(v, t, match v.buffered {
            Some(BufferedView::Binary(b)) => deliver_view(with_buffered(v, None), DeliveredView::Binary(b)),
            _ => refused(v, invalid("cannot end buffering binary; no active binary buffer")),
        }),
        TokenView::Begin(kind, m, hint) => match kind {
            ContainerKind::SeqValue => or_buffer(v, t, accepted(v, Seq::empty())),
            ContainerKind::MapKey | ContainerKind::MapValue => or_buffer(v, t,
                match can_mark(kind_of(v.buffered), v.state, true) {
                    Ok(_) => accepted(with_state(v, StateView::Mapping(true, kind == ContainerKind::MapKey)), Seq::empty()),
                    Err(e) => refused(v, e),
                }),
            ContainerKind::RecordValue | ContainerKind::RecordTupleValue => or_buffer(v, t, match m.label {
                Some(l) => match can_mark(kind_of(v.buffered), v.state, false) {
                    Ok(_) => accepted(with_state(v, StateView::Record(true, Some((m.tag, l)))), Seq::empty()),
                    Err(e) => refused(v, e),
                },
                None => refused(v, invalid("cannot stream a record; the field label is missing")),
            }),
            ContainerKind::TupleValue => or_buffer(v, t, match m.index {
                Some(i) => match can_mark_index(kind_of(v.buffered), v.state) {
                    Ok(_) => accepted(with_state(v, StateView::Tuple(true, Some((m.tag, i)))), Seq::empty()),
                    Err(e) => refused(v, e),
                },
                None => refused(v, invalid("cannot stream a tuple; the field index is missing")),
            }),
            _ => begin_view(v, kind, m, hint, t),
        },
        TokenView::End(kind, _) => match kind {
            ContainerKind::SeqValue | ContainerKind::MapKey | ContainerKind::MapValue => or_buffer(v, t, accepted(v, Seq::empty())),
            ContainerKind::RecordValue | ContainerKind::RecordTupleValue => or_buffer(v, t,
                match can_mark(kind_of(v.buffered), v.state, false) {
                    Ok(_) => accepted(with_state(v, StateView::Record(true, None)), Seq::empty()),
                    Err(e) => refused(v, e),
                }),
            ContainerKind::TupleValue => or_buffer(v, t, match can_mark_index(kind_of(v.buffered), v.state) {
                Ok(_) => accepted(with_state(v, StateView::Tuple(true, None)), Seq::empty()),
                Err(e) => refused(v, e),
            }),
            _ => end_view(v, kind, t),
        },
    }
}

/// What a run of flat calls does, stopping at the first token the
/// flattening stream refuses.
pub open spec fn flat_run(v: FlatView, ts: Seq<TokenView>) -> FlatOutcome
    decreases ts.len(),
{
    if ts.len() == 0 {
        accepted(v, Seq::empty())
    } else {
        let (v1, c1, r1) = flat_step(v, ts[0]);
        if r1 is Err {
            (v1, c1, r1)
        } else {
            let (v2, c2, r2) = flat_run(v1, ts.drop_first());
            (v2, c1 + c2, r2)
        }
    }
}

/// Some, and not all, of the calls were made: the stream failed the last.
pub open spec fn partly(before: Seq<CallView>, after: Seq<CallView>, calls: Seq<CallView>) -> bool {
    exists|k: int| 0 < k <= calls.len() && after == before + #[trigger] calls.take(k)
}

proof fn lemma_partly(before: Seq<CallView>, calls: Seq<CallView>, k: int)
    requires
        0 < k <= calls.len(),
    ensures
        partly(before, before + calls.take(k), calls),
{
    assert(before + calls.take(k) == before + calls.take(k));
}

proof fn lemma_partly_push(before: Seq<CallView>, after: Seq<CallView>, calls: Seq<CallView>, c: CallView)
    requires
        partly(before, after, calls),
    ensures
        partly(before, after, calls.push(c)),
{
    let k = choose|k: int| 0 < k <= calls.len() && after == before + #[trigger] calls.take(k);
    assert(calls.push(c).take(k) =~= calls.take(k));
}

/// One call made, and the stream failed it.
proof fn lemma_partly_one(before: Seq<CallView>, c: CallView)
    ensures
        partly(before, before.push(c), seq![c]),
{
    assert(seq![c].take(1) =~= seq![c]);
    assert(before.push(c) =~= before + seq![c].take(1));
}

/// All calls made, and the stream failed the last.
proof fn lemma_partly_all(before: Seq<CallView>, calls: Seq<CallView>)
    requires
        calls.len() > 0,
    ensures
        partly(before, before + calls, calls),
{
    assert(calls.take(calls.len() as int) =~= calls);
}

pub proof fn lemma_flat_run_single(v: FlatView, t: TokenView)
    ensures
        flat_run(v, seq![t]).0 == flat_step(v, t).0,
        flat_run(v, seq![t]).1 == flat_step(v, t).1,
        flat_run(v, seq![t]).2 is Ok <==> flat_step(v, t).2 is Ok,
        flat_step(v, t).2 is Err ==> flat_run(v, seq![t]).2 == flat_step(v, t).2,
{
    let ts = seq![t];
    assert(ts.drop_first() =~= Seq::<TokenView>::empty());
    assert(ts[0] == t);
    let (v1, c1, r1) = flat_step(v, t);
    assert(flat_run(v1, ts.drop_first()) == accepted(v1, Seq::empty()));
    assert(c1 + Seq::<CallView>::empty() =~= c1);
}

/// A refused token hands nothing to the stream.
pub proof fn lemma_refused_no_calls(v: FlatView, t: TokenView)
    ensures
        flat_step(v, t).2 is Err ==> flat_step(v, t).1.len() == 0,
{
    reveal(flat_step);
}

pub proof fn lemma_flat_run_append(v: FlatView, xs: Seq<TokenView>, ys: Seq<TokenView>)
    ensures
        flat_run(v, xs + ys) == (if flat_run(v, xs).2 is Ok {
            let (v2, c2, r2) = flat_run(flat_run(v, xs).0, ys);
            (v2, flat_run(v, xs).1 + c2, r2)
        } else {
            flat_run(v, xs)
        }),
    decreases xs.len(),
{
    if xs.len() == 0 {
        assert(xs + ys =~= ys);
        assert(Seq::<CallView>::empty() + flat_run(v, ys).1 =~= flat_run(v, ys).1);
    } else {
        assert((xs + ys).drop_first() =~= xs.drop_first() + ys);
        assert((xs + ys)[0] == xs[0]);
        let (v1, c1, r1) = flat_step(v, xs[0]);
        if r1 is Ok {
            lemma_flat_run_append(v1, xs.drop_first(), ys);
            let a = flat_run(v1, xs.drop_first());
            if a.2 is Ok {
                let b = flat_run(a.0, ys);
                assert(c1 + (a.1 + b.1) =~= (c1 + a.1) + b.1);
            }
        }
    }
}

/// The stream being written, after the calls made on it: the stream for
/// any value, a container's stream, an enum stream, or what the stream
/// gave for the whole value.
pub enum Held<'sval, S: Stream<'sval>> {
    Any(S),
    Sequence(S::Sequence),
    Mapping(S::Mapping),
    Record(S::Record),
    Tuple(S::Tuple),
    EnumRecord(<S::Enum as StreamEnum<'sval>>::Record),
    EnumTuple(<S::Enum as StreamEnum<'sval>>::Tuple),
    Enum(S::Enum),
    Done(S::Ok),
    /// A call the stream it was made on doesn't take.
    Stuck,
}

/// What a call does to the stream it is made on, as the stream's own
/// spec functions say.
pub open spec fn after_call<'sval, S: Stream<'sval>>(h: Held<'sval, S>, c: CallView) -> Held<'sval, S> {
    match h {
        Held::Any(s) => match c {
            CallView::Scalar(x) => Held::Done(s.written(scalar_call(x))),
            CallView::Text(t, _) => Held::Done(s.written(CallView::Text(t, false))),
            CallView::Binary(b, _) => Held::Done(binary_written(s, b)),
            CallView::Tag(m) => Held::Done(s.written(CallView::Tag(m))),
            CallView::Value(ts) => Held::Done(s.written(CallView::Value(ts))),
            CallView::Tagged(m, ts) => Held::Done(s.written(CallView::Tagged(m, ts))),
            CallView::SeqBegin(n) => Held::Sequence(s.opened_seq(n)),
            CallView::MapBegin(n) => Held::Mapping(s.opened_map(n)),
            CallView::RecordBegin(m, n) => Held::Record(s.opened_record(m, n)),
            CallView::TupleBegin(m, n) => Held::Tuple(s.opened_tuple(m, n)),
            CallView::EnumBegin(m) => Held::Enum(s.opened_enum(m)),
            _ => Held::Stuck,
        },
        Held::Sequence(q) => match c {
            CallView::SeqValue(ts) => Held::Sequence(q.seq_took(ts)),
            CallView::SeqEnd => Held::Done(q.seq_ended()),
            _ => Held::Stuck,
        },
        Held::Mapping(q) => match c {
            CallView::MapKey(_) => Held::Mapping(q.map_took(c)),
            CallView::MapValue(_) => Held::Mapping(q.map_took(c)),
            CallView::MapEnd => Held::Done(q.map_ended()),
            _ => Held::Stuck,
        },
        Held::Record(q) => match c {
            CallView::RecordValue(t, l, ts) => Held::Record(q.record_took(t, l, ts)),
            CallView::RecordEnd => Held::Done(q.record_ended()),
            _ => Held::Stuck,
        },
        Held::Tuple(q) => match c {
            CallView::TupleValue(t, i, ts) => Held::Tuple(q.tuple_took(t, i, ts)),
            CallView::TupleEnd => Held::Done(q.tuple_ended()),
            _ => Held::Stuck,
        },
        Held::EnumRecord(q) => match c {
            CallView::RecordValue(t, l, ts) => Held::EnumRecord(q.record_took(t, l, ts)),
            CallView::RecordEnd => Held::Done(q.record_ended()),
            _ => Held::Stuck,
        },
        Held::EnumTuple(q) => match c {
            CallView::TupleValue(t, i, ts) => Held::EnumTuple(q.tuple_took(t, i, ts)),
            CallView::TupleEnd => Held::Done(q.tuple_ended()),
            _ => Held::Stuck,
        },
        Held::Enum(e) => match c {
            CallView::EnumNested(v) => Held::Enum(e.enum_nested(v)),
            CallView::EnumTagged(v, ts) => Held::Done(e.enum_written(c)),
            CallView::EnumEnd => Held::Done(e.enum_written(c)),
            CallView::EnumTupleBegin(m, n) => Held::EnumTuple(e.enum_opened_tuple(m, n)),
            CallView::EnumRecordBegin(m, n) => Held::EnumRecord(e.enum_opened_record(m, n)),
            _ => Held::Stuck,
        },
        _ => Held::Stuck,
    }
}

/// The stream being written after calls made, in order, on the stream `s`.
pub open spec fn held_after<'sval, S: Stream<'sval>>(s: S, calls: Seq<CallView>) -> Held<'sval, S>
    decreases calls.len(),
{
    if calls.len() == 0 {
        Held::Any(s)
    } else {
        after_call(held_after(s, calls.drop_last()), calls.last())
    }
}

pub proof fn lemma_held_push<'sval, S: Stream<'sval>>(s: S, calls: Seq<CallView>, c: CallView)
    ensures
        held_after(s, calls.push(c)) == after_call(held_after(s, calls), c),
{
    assert(calls.push(c).drop_last() =~= calls);
}

/// A buffer collecting calls the stream being written can't take yet.
pub enum Buffered<'sval> {
    Text(TextBuf<'sval>),
    Binary(BinaryBuf<'sval>),
    Value(ValueBuf<'sval>),
}

impl<'sval> View for Buffered<'sval> {
    type V = BufferedView;

    open spec fn view(&self) -> BufferedView {
        match self {
            Buffered::Text(b) => BufferedView::Text(b@),
            Buffered::Binary(b) => BufferedView::Binary(b@),
            Buffered::Value(b) => BufferedView::Value(b@),
        }
    }
}

/// A value ready to go to the stream being written.
pub enum Delivered<'sval> {
    Scalar(Scalar),
    Text(TextBuf<'sval>),
    Binary(BinaryBuf<'sval>),
    Tag(Meta<'static>),
    Value(ValueBuf<'sval>),
}

impl<'sval> View for Delivered<'sval> {
    type V = DeliveredView;

    open spec fn view(&self) -> DeliveredView {
        match self {
            Delivered::Scalar(x) => DeliveredView::Scalar(*x),
            Delivered::Text(b) => DeliveredView::Text(b@),
            Delivered::Binary(b) => DeliveredView::Binary(b@),
            Delivered::Tag(m) => DeliveredView::Tag(m@),
            Delivered::Value(b) => DeliveredView::Value(b@),
        }
    }
}

impl<'sval> Delivered<'sval> {
    /// The tokens the value is handed over as.
    fn tokens(&self) -> (ts: Vec<Token<'sval>>)
        ensures
            tokens_view(ts@) == delivered_tokens(self@),
    {
        match self {
            Delivered::Scalar(x) => {
                let mut ts: Vec<Token<'sval>> = Vec::new();
                ts.push(Token::Scalar(*x));
                assert(tokens_view(ts@) =~= seq![TokenView::Scalar(*x)]);
                ts
            },
            Delivered::Text(buf) => buf.stream_ref(),
            Delivered::Binary(buf) => buf.stream_ref(),
            Delivered::Tag(m) => {
                let mut ts: Vec<Token<'sval>> = Vec::new();
                ts.push(Token::Tag(m.to_owned()));
                assert(tokens_view(ts@) =~= seq![TokenView::Tag(m@)]);
                ts
            },
            Delivered::Value(buf) => buf.to_tokens(),
        }
    }
}

/// Give a value to a stream for any single value, by the stream's method
/// for the kind of value it is (`any_call`).
fn call_any<'sval, S: Stream<'sval>>(stream: S, value: &Delivered<'sval>) -> (r: Result<S::Ok, Error>)
    ensures
        r matches Ok(v) ==> after_call(Held::<'sval, S>::Any(stream), any_call(value@)) == Held::<'sval, S>::Done(v),
{
    match value {
        Delivered::Scalar(x) => match x {
            Scalar::Null => stream.null(),
            Scalar::Bool(v) => stream.bool(*v),
            Scalar::U8(v) => stream.u8(*v),
            Scalar::U16(v) => stream.u16(*v),
            Scalar::U32(v) => stream.u32(*v),
            Scalar::U64(v) => stream.u64(*v),
            Scalar::U128(v) => stream.u128(*v),
            Scalar::I8(v) => stream.i8(*v),
            Scalar::I16(v) => stream.i16(*v),
            Scalar::I32(v) => stream.i32(*v),
            Scalar::I64(v) => stream.i64(*v),
            Scalar::I128(v) => stream.i128(*v),
            Scalar::F32(v) => stream.f32_bits(*v),
            Scalar::F64(v) => stream.f64_bits(*v),
        },
        Delivered::Text(buf) => match buf.as_borrowed_str() {
            Some(text) => stream.text(text),
            None => stream.text_computed(buf.as_str()),
        },
        Delivered::Binary(buf) => match buf.as_borrowed_slice() {
            Some(binary) => stream.binary(binary),
            None => stream.binary_computed(buf.as_slice()),
        },
        Delivered::Tag(m) => stream.tag(m.tag, m.label.as_ref(), m.index),
        Delivered::Value(buf) => stream.value_computed(buf.to_tokens().as_slice()),
    }
}

/// The recursive stream being written, held in the state it is in.
enum Current<'sval, S: Stream<'sval>> {
    Any(S),
    Sequence(S::Sequence),
    Mapping(S::Mapping),
    Record(S::Record),
    Tuple(S::Tuple),
    EnumRecord(<S::Enum as StreamEnum<'sval>>::Record),
    EnumTuple(<S::Enum as StreamEnum<'sval>>::Tuple),
    Tagged(S),
    Enum(FlatStreamEnum<S::Enum>),
    Done(Result<S::Ok, Error>),
    Empty,
}

/// A stream that takes flat calls, one token at a time, and writes them
/// into a recursive stream.
pub struct FlatStream<'sval, S: Stream<'sval>> {
    buffered: Option<Buffered<'sval>>,
    state: FlatState,
    current: Current<'sval, S>,
    /// The calls made on the stream being written, in order.
    made: Ghost<Seq<CallView>>,
    /// The stream the value is written into.
    origin: Ghost<S>,
}

pub open spec fn buffered_view<'sval>(b: Option<Buffered<'sval>>) -> Option<BufferedView> {
    match b {
        Some(b) => Some(b@),
        None => None,
    }
}

impl<'sval, S: Stream<'sval>> View for FlatStream<'sval, S> {
    type V = FlatView;

    closed spec fn view(&self) -> FlatView {
        FlatView {
            buffered: buffered_view(self.buffered),
            state: self.state@,
            waiting: match self.current {
                Current::Enum(e) => e.waiting(),
                _ => Seq::empty(),
            },
        }
    }
}

impl<'sval, S: Stream<'sval>> FlatStream<'sval, S> {
    closed spec fn buf_wf(&self) -> bool {
        self.buffered matches Some(Buffered::Value(b)) ==> b.wf()
    }

    /// The stream being written is held as its state says.
    closed spec fn synced(&self) -> bool {
        match self.state {
            FlatState::Any(h) => h && self.current is Any,
            FlatState::Sequence(h) => h && self.current is Sequence,
            FlatState::Mapping(h, _) => h && self.current is Mapping,
            FlatState::Record(h, _) => h && (self.current is Record || self.current is EnumRecord),
            FlatState::Tuple(h, _) => h && (self.current is Tuple || self.current is EnumTuple),
            FlatState::Tagged(m) => m is Some && self.current is Tagged,
            FlatState::Enum(h) => h && self.current is Enum,
            FlatState::EnumVariant(v) => v is Some && self.current is Enum,
            FlatState::Done => self.current is Done,
        }
    }

    /// The stream held is the one the calls made on the stream the value
    /// is written into hand out, as their contracts say.
    closed spec fn tied(&self) -> bool {
        let h = held_after(self.origin@, self.made@);
        match self.current {
            Current::Any(s) => h == Held::<'sval, S>::Any(s),
            Current::Tagged(s) => h == Held::<'sval, S>::Any(s),
            Current::Sequence(q) => h == Held::<'sval, S>::Sequence(q),
            Current::Mapping(q) => h == Held::<'sval, S>::Mapping(q),
            Current::Record(q) => h == Held::<'sval, S>::Record(q),
            Current::Tuple(q) => h == Held::<'sval, S>::Tuple(q),
            Current::EnumRecord(q) => h == Held::<'sval, S>::EnumRecord(q),
            Current::EnumTuple(q) => h == Held::<'sval, S>::EnumTuple(q),
            Current::Enum(e) => h == Held::<'sval, S>::Enum(e.target()),
            Current::Done(Ok(v)) => h == Held::<'sval, S>::Done(v),
            Current::Done(Err(_)) => true,
            Current::Empty => true,
        }
    }

    pub closed spec fn wf(&self) -> bool {
        self.buf_wf() && self.synced() && self.tied()
    }

    /// The stream the value is written into.
    pub closed spec fn origin(&self) -> S {
        self.origin@
    }

    /// The calls made on the stream being written so far, in order.
    pub closed spec fn made(&self) -> Seq<CallView> {
        self.made@
    }

    /// The error that stopped the writing, if a call failed.
    pub closed spec fn stopped(&self) -> Option<Error> {
        match self.current {
            Current::Done(Err(e)) => Some(e),
            _ => None,
        }
    }

    /// What a token's handling did: a refused token makes no call and
    /// gives the refusal; an accepted one made all its calls and reached
    /// its state, or made some and the stream failed the last.
    closed spec fn carried(self, new: Self, o: FlatOutcome, r: Result<(), Error>) -> bool {
        &&& new.buf_wf()
        &&& new.origin == self.origin
        &&& match o.2 {
            Err(e) => r == Err::<(), Error>(e) && new.made() == self.made(),
            Ok(_) => (r is Ok && new.wf() && new@ == o.0 && new.made() == self.made() + o.1 && new.stopped() is None)
                || (r is Err && partly(self.made(), new.made(), o.1)),
        }
    }

    pub fn new(stream: S) -> (r: Self)
        ensures
            r.wf(),
            r@ == initial_view(),
            r.made() == Seq::<CallView>::empty(),
            r.stopped() is None,
            r.origin() == stream,
    {
        let ghost origin = stream;
        let r = FlatStream {
            buffered: None,
            state: FlatState::Any(true),
            current: Current::Any(stream),
            made: Ghost(Seq::empty()),
            origin: Ghost(origin),
        };
        assert(r@ =~= initial_view());
        r
    }

    fn is_stopped(&self) -> (b: bool)
        ensures
            b == self.stopped() is Some,
    {
        match &self.current {
            Current::Done(Err(_)) => true,
            _ => false,
        }
    }

    fn take_current(&mut self) -> (r: Current<'sval, S>)
        ensures
            r == old(self).current,
            final(self).current is Empty,
            final(self).buffered == old(self).buffered,
            final(self).state == old(self).state,
            final(self).made == old(self).made,
            final(self).origin == old(self).origin,
    {
        let mut current = Current::Empty;
        core::mem::swap(&mut current, &mut self.current);
        current
    }

    fn take_buffered(&mut self) -> (r: Option<Buffered<'sval>>)
        ensures
            r == old(self).buffered,
            final(self).buffered is None,
            final(self).state == old(self).state,
            final(self).current == old(self).current,
            final(self).made == old(self).made,
            final(self).origin == old(self).origin,
    {
        let mut buffered = None;
        core::mem::swap(&mut buffered, &mut self.buffered);
        buffered
    }

    fn buffer_kind(&self) -> (k: Option<BufferKind>)
        ensures
            k == kind_of(buffered_view(self.buffered)),
    {
        match &self.buffered {
            None => None,
            Some(Buffered::Text(_)) => Some(BufferKind::Text),
            Some(Buffered::Binary(_)) => Some(BufferKind::Binary),
            Some(Buffered::Value(_)) => Some(BufferKind::Value),
        }
    }

    /// The stream being written has given its result.
    fn finished(&mut self, r: Result<S::Ok, Error>) -> (out: Result<(), Error>)
        ensures
            final(self).current == Current::<'sval, S>::Done(r),
            final(self).state == FlatState::Done,
            final(self).buffered == old(self).buffered,
            final(self).made == old(self).made,
            out is Ok <==> r is Ok,
            r matches Err(e) ==> out == Err::<(), Error>(e),
            final(self).origin == old(self).origin,
    {
        let e = match &r {
            Ok(_) => None,
            Err(e) => Some(*e),
        };
        self.current = Current::Done(r);
        self.state = FlatState::Done;
        match e {
            Some(e) => Err(e),
            None => Ok(()),
        }
    }

    /// Begin the variants waiting on an enum stream, outermost first, and
    /// hand out the stream of the innermost.
    fn innermost(&mut self, e: FlatStreamEnum<S::Enum>) -> (r: Result<S::Enum, Error>)
        requires
            held_after(old(self).origin@, old(self).made@) == Held::<'sval, S>::Enum(e.target()),
        ensures
            final(self).origin == old(self).origin,
            r matches Ok(s) ==> held_after(final(self).origin@, final(self).made@) == Held::<'sval, S>::Enum(s),
            final(self).buffered == old(self).buffered,
            final(self).state == old(self).state,
            final(self).current == old(self).current,
            r is Ok ==> final(self).made() == old(self).made() + nested_calls(e.waiting()),
            r is Err ==> partly(old(self).made(), final(self).made(), nested_calls(e.waiting())),
    {
        let ghost w = e.waiting();
        let ghost m0 = self.made@;
        let mut current = e;
        let ghost mut i: int = 0;
        loop
            invariant
                0 <= i <= w.len(),
                current.waiting() == w.skip(i),
                self.made@ == m0 + nested_calls(w).take(i),
                held_after(self.origin@, self.made@) == Held::<'sval, S>::Enum(current.target()),
                self.origin == old(self).origin,
                self.buffered == old(self).buffered,
                self.state == old(self).state,
                self.current == old(self).current,
                m0 == old(self).made@,
                w == e.waiting(),
            decreases w.len() - i,
        {
            match current.value_or_recurse() {
                EnumStep::Value(s) => {
                    assert(w.skip(i).len() == 0);
                    assert(nested_calls(w).take(i) =~= nested_calls(w));
                    return Ok(s);
                },
                EnumStep::Nested(s, v, rest) => {
                    proof {
                        assert(w.skip(i)[0] == w[i]);
                        lemma_held_push(self.origin@, self.made@, CallView::EnumNested(v@));
                        self.made@ = self.made@.push(CallView::EnumNested(v@));
                        assert(nested_calls(w).take(i + 1) =~= nested_calls(w).take(i).push(CallView::EnumNested(w[i])));
                        assert(self.made@ =~= m0 + nested_calls(w).take(i + 1));
                    }
                    let inner = match s.nested(v.tag, v.label.as_ref(), v.index) {
                        Ok(inner) => inner,
                        Err(err) => {
                            proof {
                                lemma_partly(m0, nested_calls(w), i + 1);
                            }
                            return Err(err);
                        },
                    };
                    current = FlatStreamEnum::resume(inner, rest);
                    proof {
                        assert(w.skip(i).drop_first() =~= w.skip(i + 1));
                        i = i + 1;
                    }
                },
            }
        }
    }

    /// Give a value to the stream being written, where its state says.
    fn deliver(&mut self, value: Delivered<'sval>) -> (r: Result<(), Error>)
        requires
            old(self).wf(),
            old(self).stopped() is None,
        ensures
            old(self).carried(*final(self), deliver_view(old(self)@, value@), r),
    {
        match &self.state {
            FlatState::Enum(_) => {
                return Err(Error::invalid_value("enum variants must be wrapped in a tag-carrying value"));
            },
            FlatState::Done => {
                return Err(Error::invalid_value("cannot stream value; the stream is already completed"));
            },
            _ => {},
        }
        let ghost v0 = self@;
        let ghost m0 = self.made@;
        let mut state = FlatState::Done;
        core::mem::swap(&mut state, &mut self.state);
        let (next, route) = value_with(state);
        self.state = next;
        let route = match route {
            Ok(route) => route,
            Err(e) => {
                return Err(e);
            },
        };
        let tokens = value.tokens();
        let ghost ts = tokens_view(tokens@);
        let current = self.take_current();
        match route {
            ValueRoute::Any => match current {
                Current::Any(s) => {
                    let ghost c = any_call(value@);
                    proof {
                        lemma_held_push(self.origin@, self.made@, c);
                        self.made@ = self.made@.push(c);
                        lemma_partly_one(m0, c);
                    }
                    let r = call_any(s, &value);
                    let out = self.finished(r);
                    assert(self@ =~= done(v0));
                    assert(self.made() =~= m0 + seq![c]);
                    out
                },
                other => {
                    self.current = other;
                    Err(Error::invalid_value("cannot stream value; invalid stream state"))
                },
            },
            ValueRoute::Tagged(m) => match current {
                Current::Tagged(s) => {
                    let ghost c = CallView::Tagged(m@, ts);
                    proof {
                        lemma_held_push(self.origin@, self.made@, c);
                        self.made@ = self.made@.push(c);
                        lemma_partly_one(m0, c);
                    }
                    let r = s.tagged(m.tag, m.label.as_ref(), m.index, tokens.as_slice());
                    let out = self.finished(r);
                    assert(self@ =~= done(v0));
                    assert(self.made() =~= m0 + seq![c]);
                    out
                },
                other => {
                    self.current = other;
                    Err(Error::invalid_value("cannot stream value; invalid stream state"))
                },
            },
            ValueRoute::SeqValue => match current {
                Current::Sequence(mut s) => {
                    let ghost c = CallView::SeqValue(ts);
                    proof {
                        lemma_held_push(self.origin@, self.made@, c);
                        self.made@ = self.made@.push(c);
                        lemma_partly_one(m0, c);
                    }
                    let r = s.value_computed(tokens.as_slice());
                    self.current = Current::Sequence(s);
                    assert(self@ =~= v0);
                    assert(self.made() =~= m0 + seq![c]);
                    r
                },
                other => {
                    self.current = other;
                    Err(Error::invalid_value("cannot stream value; invalid stream state"))
                },
            },
            ValueRoute::MapKey => match current {
                Current::Mapping(mut s) => {
                    let ghost c = CallView::MapKey(ts);
                    proof {
                        lemma_held_push(self.origin@, self.made@, c);
                        self.made@ = self.made@.push(c);
                        lemma_partly_one(m0, c);
                    }
                    let r = s.key_computed(tokens.as_slice());
                    self.current = Current::Mapping(s);
                    assert(self@ =~= v0);
                    assert(self.made() =~= m0 + seq![c]);
                    r
                },
                other => {
                    self.current = other;
                    Err(Error::invalid_value("cannot stream value; invalid stream state"))
                },
            },
            ValueRoute::MapValue => match current {
                Current::Mapping(mut s) => {
                    let ghost c = CallView::MapValue(ts);
                    proof {
                        lemma_held_push(self.origin@, self.made@, c);
                        self.made@ = self.made@.push(c);
                        lemma_partly_one(m0, c);
                    }
                    let r = s.value_computed(tokens.as_slice());
                    self.current = Current::Mapping(s);
                    assert(self@ =~= v0);
                    assert(self.made() =~= m0 + seq![c]);
                    r
                },
                other => {
                    self.current = other;
                    Err(Error::invalid_value("cannot stream value; invalid stream state"))
                },
            },
            ValueRoute::RecordValue => {
                let (tag, label) = match &self.state {
                    FlatState::Record(_, Some((tag, label))) => (*tag, label),
                    _ => {
                        self.current = current;
                        return Err(Error::invalid_value("cannot stream a record; the field label is missing"));
                    },
                };
                let ghost c = CallView::RecordValue(tag, label@, ts);
                match current {
                    Current::Record(mut s) => {
                        proof {
                            lemma_held_push(self.origin@, self.made@, c);
                            self.made@ = self.made@.push(c);
                            lemma_partly_one(m0, c);
                        }
                        let r = s.value_computed(tag, label, tokens.as_slice());
                        self.current = Current::Record(s);
                        assert(self@ =~= v0);
                        assert(self.made() =~= m0 + seq![c]);
                        r
                    },
                    Current::EnumRecord(mut s) => {
                        proof {
                            lemma_held_push(self.origin@, self.made@, c);
                            self.made@ = self.made@.push(c);
                            lemma_partly_one(m0, c);
                        }
                        let r = s.value_computed(tag, label, tokens.as_slice());
                        self.current = Current::EnumRecord(s);
                        assert(self@ =~= v0);
                        assert(self.made() =~= m0 + seq![c]);
                        r
                    },
                    other => {
                        self.current = other;
                        Err(Error::invalid_value("cannot stream value; invalid stream state"))
                    },
                }
            },
            ValueRoute::TupleValue => {
                let (tag, index) = match &self.state {
                    FlatState::Tuple(_, Some((tag, index))) => (*tag, *index),
                    _ => {
                        self.current = current;
                        return Err(Error::invalid_value("cannot stream a tuple; the field index is missing"));
                    },
                };
                let ghost c = CallView::TupleValue(tag, index, ts);
                match current {
                    Current::Tuple(mut s) => {
                        proof {
                            lemma_held_push(self.origin@, self.made@, c);
                            self.made@ = self.made@.push(c);
                            lemma_partly_one(m0, c);
                        }
                        let r = s.value_computed(tag, index, tokens.as_slice());
                        self.current = Current::Tuple(s);
                        assert(self@ =~= v0);
                        assert(self.made() =~= m0 + seq![c]);
                        r
                    },
                    Current::EnumTuple(mut s) => {
                        proof {
                            lemma_held_push(self.origin@, self.made@, c);
                            self.made@ = self.made@.push(c);
                            lemma_partly_one(m0, c);
                        }
                        let r = s.value_computed(tag, index, tokens.as_slice());
                        self.current = Current::EnumTuple(s);
                        assert(self@ =~= v0);
                        assert(self.made() =~= m0 + seq![c]);
                        r
                    },
                    other => {
                        self.current = other;
                        Err(Error::invalid_value("cannot stream value; invalid stream state"))
                    },
                }
            },
            ValueRoute::TaggedVariant(nv) => match current {
                Current::Enum(e) => {
                    let ghost w = e.waiting();
                    let ghost c = CallView::EnumTagged(nv@, ts);
                    match self.innermost(e) {
                        Ok(s) => {
                            proof {
                                lemma_held_push(self.origin@, self.made@, c);
                                self.made@ = self.made@.push(c);
                                assert(self.made@ =~= m0 + nested_calls(w).push(c));
                                lemma_partly_all(m0, nested_calls(w).push(c));
                            }
                            let r = s.tagged_computed(nv.tag, nv.label.as_ref(), nv.index, tokens.as_slice());
                            let out = self.finished(r);
                            assert(self@ =~= done(v0));
                            out
                        },
                        Err(err) => {
                            proof {
                                lemma_partly_push(m0, self.made@, nested_calls(w), c);
                            }
                            Err(err)
                        },
                    }
                },
                other => {
                    self.current = other;
                    Err(Error::invalid_value("cannot stream value; invalid stream state"))
                },
            },
        }
    }

    /// Give a token to the active value buffer. When the buffer refuses it,
    /// its error is the refusal.
    fn buffer(&mut self, t: &Token<'sval>) -> (r: Result<(), Error>)
        requires
            old(self).wf(),
            old(self).stopped() is None,
        ensures
            old(self).carried(*final(self), buffer_view(old(self)@, t@), r),
    {
        match &mut self.buffered {
            Some(Buffered::Value(buf)) => {
                if buf.stream_token(t).is_err() {
                    let mut taken = ValueBuf::new();
                    core::mem::swap(&mut taken, buf);
                    return Err(match taken.into_err() {
                        Some(e) => e,
                        None => Error::invalid_value("the value itself failed to stream"),
                    });
                }
                proof {
                    assert(self@ =~= with_buffered(old(self)@, Some(BufferedView::Value(step(old(self)@.buffered->Some_0->Value_0, t@).0))));
                    assert(self.made() =~= old(self).made() + Seq::<CallView>::empty());
                }
                Ok(())
            },
            _ => Err(Error::invalid_value("cannot buffer value; no active value buffer")),
        }
    }

    /// Begin a container.
    fn begin(&mut self, t: &Token<'sval>, kind: ContainerKind, meta: &Meta<'sval>, hint: Option<usize>) -> (r: Result<(), Error>)
        requires
            old(self).wf(),
            old(self).stopped() is None,
            t@ == TokenView::Begin(kind, meta@, hint),
        ensures
            old(self).carried(*final(self), begin_view(old(self)@, kind, meta@, hint, t@), r),
    {
        let ghost v0 = self@;
        let ghost m0 = self.made@;
        let ghost m = meta@;
        match buffer_or_begin(self.buffer_kind(), &self.state) {
            BeginStep::Buffer => self.buffer(t),
            BeginStep::StartBuffer => {
                let mut buf = ValueBuf::new();
                if buf.stream_token(t).is_err() {
                    return Err(match buf.into_err() {
                        Some(e) => e,
                        None => Error::invalid_value("the value itself failed to stream"),
                    });
                }
                self.buffered = Some(Buffered::Value(buf));
                assert(self@ =~= with_buffered(v0, Some(BufferedView::Value(step(empty_buf(), t@).0))));
                assert(self.made() =~= m0 + Seq::<CallView>::empty());
                Ok(())
            },
            BeginStep::Fail(e) => Err(e),
            BeginStep::Any => {
                let s = match self.take_current() {
                    Current::Any(s) => s,
                    other => {
                        self.current = other;
                        return Err(Error::invalid_value("cannot stream value; invalid stream state"));
                    },
                };
                if kind == ContainerKind::Tagged {
                    self.current = Current::Tagged(s);
                    self.state = FlatState::Tagged(Some(meta.to_owned()));
                    assert(self@ =~= with_state(v0, StateView::Tagged(Some(m))));
                    assert(self.made() =~= m0 + Seq::<CallView>::empty());
                    return Ok(());
                }
                let ghost c = match kind {
                    ContainerKind::Sequence => CallView::SeqBegin(hint),
                    ContainerKind::Mapping => CallView::MapBegin(hint),
                    ContainerKind::Enum => CallView::EnumBegin(m),
                    ContainerKind::Tuple => CallView::TupleBegin(m, hint),
                    _ => CallView::RecordBegin(m, hint),
                };
                proof {
                    lemma_held_push(self.origin@, self.made@, c);
                    self.made@ = self.made@.push(c);
                    lemma_partly_one(m0, c);
                    assert(self.made@ =~= m0 + seq![c]);
                }
                match kind {
                    ContainerKind::Sequence => {
                        let q = s.seq_begin(hint)?;
                        self.current = Current::Sequence(q);
                        self.state = FlatState::Sequence(true);
                        assert(self@ =~= with_state(v0, StateView::Sequence(true)));
                        Ok(())
                    },
                    ContainerKind::Mapping => {
                        let q = s.map_begin(hint)?;
                        self.current = Current::Mapping(q);
                        self.state = FlatState::Mapping(true, true);
                        assert(self@ =~= with_state(v0, StateView::Mapping(true, true)));
                        Ok(())
                    },
                    ContainerKind::Enum => {
                        let e = s.enum_begin(meta.tag, meta.label.as_ref(), meta.index)?;
                        self.current = Current::Enum(FlatStreamEnum::new(e));
                        self.state = FlatState::Enum(true);
                        assert(self@ =~= FlatView { state: StateView::Enum(true), waiting: Seq::empty(), ..v0 });
                        Ok(())
                    },
                    ContainerKind::Tuple => {
                        let q = s.tuple_begin(meta.tag, meta.label.as_ref(), meta.index, hint)?;
                        self.current = Current::Tuple(q);
                        self.state = FlatState::Tuple(true, None);
                        assert(self@ =~= with_state(v0, StateView::Tuple(true, None)));
                        Ok(())
                    },
                    _ => {
                        let q = s.record_begin(meta.tag, meta.label.as_ref(), meta.index, hint)?;
                        self.current = Current::Record(q);
                        self.state = FlatState::Record(true, None);
                        assert(self@ =~= with_state(v0, StateView::Record(true, None)));
                        Ok(())
                    },
                }
            },
            BeginStep::Enum => match kind {
                ContainerKind::Sequence => Err(Error::invalid_value("sequences cannot be used as enum variants")),
                ContainerKind::Mapping => Err(Error::invalid_value("maps cannot be used as enum variants")),
                ContainerKind::Enum => {
                    let r = match &mut self.current {
                        Current::Enum(e) => e.push(meta.tag, meta.label.as_ref(), meta.index),
                        _ => Err(Error::invalid_value("cannot stream enum value; invalid stream state")),
                    };
                    assert(self@ =~= FlatView { waiting: v0.waiting.push(variant_of(m)), ..v0 });
                    assert(self.made() =~= m0 + Seq::<CallView>::empty());
                    r
                },
                ContainerKind::Tagged => {
                    let m2 = meta.to_owned();
                    self.state = FlatState::EnumVariant(Some(NestedVariant { tag: m2.tag, label: m2.label, index: m2.index }));
                    assert(self@ =~= with_state(v0, StateView::EnumVariant(Some(variant_of(m)))));
                    assert(self.made() =~= m0 + Seq::<CallView>::empty());
                    Ok(())
                },
                _ => {
                    let e = match self.take_current() {
                        Current::Enum(e) => e,
                        other => {
                            self.current = other;
                            return Err(Error::invalid_value("cannot stream enum value; invalid stream state"));
                        },
                    };
                    let ghost w = e.waiting();
                    let ghost c = if kind == ContainerKind::Tuple {
                        CallView::EnumTupleBegin(m, hint)
                    } else {
                        CallView::EnumRecordBegin(m, hint)
                    };
                    let s = match self.innermost(e) {
                        Ok(s) => s,
                        Err(err) => {
                            proof {
                                lemma_partly_push(m0, self.made@, nested_calls(w), c);
                            }
                            return Err(err);
                        },
                    };
                    proof {
                        lemma_held_push(self.origin@, self.made@, c);
                        self.made@ = self.made@.push(c);
                        assert(self.made@ =~= m0 + nested_calls(w).push(c));
                        lemma_partly_all(m0, nested_calls(w).push(c));
                    }
                    if kind == ContainerKind::Tuple {
                        let q = s.tuple_begin(meta.tag, meta.label.as_ref(), meta.index, hint)?;
                        self.current = Current::EnumTuple(q);
                        self.state = FlatState::Tuple(true, None);
                        assert(self@ =~= FlatView { state: StateView::Tuple(true, None), waiting: Seq::empty(), ..v0 });
                        Ok(())
                    } else {
                        let q = s.record_begin(meta.tag, meta.label.as_ref(), meta.index, hint)?;
                        self.current = Current::EnumRecord(q);
                        self.state = FlatState::Record(true, None);
                        assert(self@ =~= FlatView { state: StateView::Record(true, None), waiting: Seq::empty(), ..v0 });
                        Ok(())
                    }
                },
            },
        }
    }

    /// The value is already written: its result stands.
    fn keep(&mut self) -> (r: Result<(), Error>)
        requires
            old(self).wf(),
            old(self).stopped() is None,
        ensures
            old(self).carried(*final(self), keep_view(old(self)@), r),
    {
        assert(self.made() =~= self.made() + Seq::<CallView>::empty());
        match &self.state {
            FlatState::Done => Ok(()),
            _ => Err(Error::invalid_value("incomplete stream")),
        }
    }

    /// End a container.
    fn end(&mut self, t: &Token<'sval>, kind: ContainerKind) -> (r: Result<(), Error>)
        requires
            old(self).wf(),
            old(self).stopped() is None,
            t@ matches TokenView::End(k, _) && k == kind,
        ensures
            old(self).carried(*final(self), end_view(old(self)@, kind, t@), r),
    {
        let ghost v0 = self@;
        let ghost m0 = self.made@;
        match buffer_or_end(self.buffer_kind()) {
            EndStep::Fail(e) => Err(e),
            EndStep::Buffer => {
                self.buffer(t)?;
                let complete = match &self.buffered {
                    Some(Buffered::Value(buf)) => buf.is_complete(),
                    _ => false,
                };
                if complete {
                    match self.take_buffered() {
                        Some(Buffered::Value(buf)) => self.deliver(Delivered::Value(buf)),
                        other => {
                            self.buffered = other;
                            Ok(())
                        },
                    }
                } else {
                    Ok(())
                }
            },
            EndStep::Transition => match kind {
                ContainerKind::Enum => match take_enum(self.buffer_kind(), &self.state) {
                    EnumEnd::End => {
                        let e = match self.take_current() {
                            Current::Enum(e) => e,
                            other => {
                                self.current = other;
                                return Err(Error::invalid_value("cannot end an enum; invalid stream state"));
                            },
                        };
                        let ghost w = e.waiting();
                        let ghost c = CallView::EnumEnd;
                        let s = match self.innermost(e) {
                            Ok(s) => s,
                            Err(err) => {
                                proof {
                                    lemma_partly_push(m0, self.made@, nested_calls(w), c);
                                }
                                return Err(err);
                            },
                        };
                        proof {
                            lemma_held_push(self.origin@, self.made@, c);
                            self.made@ = self.made@.push(c);
                            assert(self.made@ =~= m0 + nested_calls(w).push(c));
                            lemma_partly_all(m0, nested_calls(w).push(c));
                        }
                        let r = s.end();
                        let out = self.finished(r);
                        assert(self@ =~= done(v0));
                        out
                    },
                    EnumEnd::Finish => self.keep(),
                    EnumEnd::Fail(e) => Err(e),
                },
                ContainerKind::Tagged => self.keep(),
                ContainerKind::Sequence => {
                    take_end(self.buffer_kind(), &self.state, EndTarget::Sequence)?;
                    let c = Ghost(CallView::SeqEnd);
                    match self.take_current() {
                        Current::Sequence(q) => {
                            proof {
                                lemma_held_push(self.origin@, self.made@, c@);
                                self.made@ = self.made@.push(c@);
                                lemma_partly_one(m0, c@);
                                assert(self.made@ =~= m0 + seq![c@]);
                            }
                            let r = q.end();
                            let out = self.finished(r);
                            assert(self@ =~= done(v0));
                            out
                        },
                        other => {
                            self.current = other;
                            Err(Error::invalid_value("cannot end a sequence; invalid stream state"))
                        },
                    }
                },
                ContainerKind::Mapping => {
                    take_end(self.buffer_kind(), &self.state, EndTarget::Mapping)?;
                    let c = Ghost(CallView::MapEnd);
                    match self.take_current() {
                        Current::Mapping(q) => {
                            proof {
                                lemma_held_push(self.origin@, self.made@, c@);
                                self.made@ = self.made@.push(c@);
                                lemma_partly_one(m0, c@);
                                assert(self.made@ =~= m0 + seq![c@]);
                            }
                            let r = q.end();
                            let out = self.finished(r);
                            assert(self@ =~= done(v0));
                            out
                        },
                        other => {
                            self.current = other;
                            Err(Error::invalid_value("cannot end a map; invalid stream state"))
                        },
                    }
                },
                ContainerKind::Tuple => {
                    take_end(self.buffer_kind(), &self.state, EndTarget::Tuple)?;
                    let c = Ghost(CallView::TupleEnd);
                    proof {
                        lemma_partly_one(m0, c@);
                    }
                    match self.take_current() {
                        Current::Tuple(q) => {
                            proof {
                                lemma_held_push(self.origin@, self.made@, c@);
                                self.made@ = self.made@.push(c@);
                                assert(self.made@ =~= m0 + seq![c@]);
                            }
                            let r = q.end();
                            let out = self.finished(r);
                            assert(self@ =~= done(v0));
                            out
                        },
                        Current::EnumTuple(q) => {
                            proof {
                                lemma_held_push(self.origin@, self.made@, c@);
                                self.made@ = self.made@.push(c@);
                                assert(self.made@ =~= m0 + seq![c@]);
                            }
                            let r = q.end();
                            let out = self.finished(r);
                            assert(self@ =~= done(v0));
                            out
                        },
                        other => {
                            self.current = other;
                            Err(Error::invalid_value("cannot end a tuple; invalid stream state"))
                        },
                    }
                },
                _ => {
                    take_end(self.buffer_kind(), &self.state, EndTarget::Record)?;
                    let c = Ghost(CallView::RecordEnd);
                    proof {
                        lemma_partly_one(m0, c@);
                    }
                    match self.take_current() {
                        Current::Record(q) => {
                            proof {
                                lemma_held_push(self.origin@, self.made@, c@);
                                self.made@ = self.made@.push(c@);
                                assert(self.made@ =~= m0 + seq![c@]);
                            }
                            let r = q.end();
                            let out = self.finished(r);
                            assert(self@ =~= done(v0));
                            out
                        },
                        Current::EnumRecord(q) => {
                            proof {
                                lemma_held_push(self.origin@, self.made@, c@);
                                self.made@ = self.made@.push(c@);
                                assert(self.made@ =~= m0 + seq![c@]);
                            }
                            let r = q.end();
                            let out = self.finished(r);
                            assert(self@ =~= done(v0));
                            out
                        },
                        other => {
                            self.current = other;
                            Err(Error::invalid_value("cannot end a record; invalid stream state"))
                        },
                    }
                },
            },
        }
    }

    /// A token that is neither a container's delimiter nor for the value
    /// buffer.
    fn leaf(&mut self, t: &Token<'sval>) -> (r: Result<(), Error>)
        requires
            old(self).wf(),
            old(self).stopped() is None,
            !buffering(old(self)@),
            !(t@ is Begin),
            !(t@ is End),
        ensures
            old(self).carried(*final(self), flat_step(old(self)@, t@), r),
    {
        reveal(flat_step);
        let ghost v0 = self@;
        let ghost m0 = self.made@;
        proof {
            assert(m0 =~= m0 + Seq::<CallView>::empty());
        }
        match t {
            Token::Scalar(x) => self.deliver(Delivered::Scalar(*x)),
            Token::Tag(m) => self.deliver(Delivered::Tag(m.to_owned())),
            Token::TagHint(_) => Ok(()),
            Token::TextBegin(_) => if self.buffered.is_some() {
                Err(Error::invalid_value("cannot begin buffering; a buffer is already active"))
            } else {
                self.buffered = Some(Buffered::Text(TextBuf::new()));
                assert(self@ =~= with_buffered(v0, Some(BufferedView::Text(TextBufView { text: Seq::empty(), borrowed: true }))));
                Ok(())
            },
            Token::TextFragment(f) => match self.take_buffered() {
                Some(Buffered::Text(mut buf)) => {
                    let r = buf.push_fragment(f);
                    self.buffered = Some(Buffered::Text(buf));
                    assert(self@ =~= with_buffered(v0, Some(BufferedView::Text(buf@))));
                    r
                },
                other => {
                    self.buffered = other;
                    Err(Error::invalid_value("cannot buffer text; no active text buffer"))
                },
            },
            Token::TextFragmentComputed(f) => match self.take_buffered() {
                Some(Buffered::Text(mut buf)) => {
                    let r = buf.push_fragment_computed(f.as_str());
                    self.buffered = Some(Buffered::Text(buf));
                    assert(self@ =~= with_buffered(v0, Some(BufferedView::Text(buf@))));
                    r
                },
                other => {
                    self.buffered = other;
                    Err(Error::invalid_value("cannot buffer text; no active text buffer"))
                },
            },
            Token::TextEnd => match self.take_buffered() {
                Some(Buffered::Text(buf)) => {
                    assert(self@ =~= with_buffered(v0, None));
                    self.deliver(Delivered::Text(buf))
                },
                other => {
                    self.buffered = other;
                    Err(Error::invalid_value("cannot end buffering text; no active text buffer"))
                },
            },
            Token::BinaryBegin(_) => if self.buffered.is_some() {
                Err(Error::invalid_value("cannot begin buffering; a buffer is already active"))
            } else {
                self.buffered = Some(Buffered::Binary(BinaryBuf::new()));
                assert(self@ =~= with_buffered(v0, Some(BufferedView::Binary(BinaryBufView { bytes: Seq::empty(), borrowed: true }))));
                Ok(())
            },
            Token::BinaryFragment(f) => match self.take_buffered() {
                Some(Buffered::Binary(mut buf)) => {
                    let r = buf.push_fragment(f);
                    self.buffered = Some(Buffered::Binary(buf));
                    assert(self@ =~= with_buffered(v0, Some(BufferedView::Binary(buf@))));
                    r
                },
                other => {
                    self.buffered = other;
                    Err(Error::invalid_value("cannot buffer binary; no active binary buffer"))
                },
            },
            Token::BinaryFragmentComputed(f) => match self.take_buffered() {
                Some(Buffered::Binary(mut buf)) => {
                    let r = buf.push_fragment_computed(f.as_slice());
                    self.buffered = Some(Buffered::Binary(buf));
                    assert(self@ =~= with_buffered(v0, Some(BufferedView::Binary(buf@))));
                    r
                },
                other => {
                    self.buffered = other;
                    Err(Error::invalid_value("cannot buffer binary; no active binary buffer"))
                },
            },
            Token::BinaryEnd => match self.take_buffered() {
                Some(Buffered::Binary(buf)) => {
                    assert(self@ =~= with_buffered(v0, None));
                    self.deliver(Delivered::Binary(buf))
                },
                other => {
                    self.buffered = other;
                    Err(Error::invalid_value("cannot end buffering binary; no active binary buffer"))
                },
            },
            _ => Ok(()),
        }
    }

    /// Take a flat call, given as a token.
    fn step(&mut self, t: &Token<'sval>) -> (r: Result<(), Error>)
        requires
            old(self).wf(),
            old(self).stopped() is None,
        ensures
            old(self).carried(*final(self), flat_step(old(self)@, t@), r),
    {
        reveal(flat_step);
        let ghost v0 = self@;
        let ghost m0 = self.made@;
        proof {
            assert(m0 =~= m0 + Seq::<CallView>::empty());
        }
        let buffering = buffer_or_with(self.buffer_kind());
        match t {
            Token::Begin(kind, meta, hint) => match kind {
                ContainerKind::SeqValue => if buffering { self.buffer(t) } else { Ok(()) },
                ContainerKind::MapKey | ContainerKind::MapValue => if buffering {
                    self.buffer(t)
                } else {
                    let k = self.buffer_kind();
                    let r = mark_map(k, &mut self.state, *kind == ContainerKind::MapKey);
                    assert(r is Ok ==> self@ =~= with_state(v0, StateView::Mapping(true, *kind == ContainerKind::MapKey)));
                    r
                },
                ContainerKind::RecordValue | ContainerKind::RecordTupleValue => if buffering {
                    self.buffer(t)
                } else {
                    match &meta.label {
                        Some(label) => {
                            let label = owned_label_ref(label)?;
                            let k = self.buffer_kind();
                            let r = mark_field(k, &mut self.state, Some((meta.tag, label)));
                            assert(r is Ok ==> self@ =~= with_state(v0, StateView::Record(true, Some((meta.tag, label@)))));
                            r
                        },
                        None => Err(Error::invalid_value("cannot stream a record; the field label is missing")),
                    }
                },
                ContainerKind::TupleValue => if buffering {
                    self.buffer(t)
                } else {
                    match meta.index {
                        Some(index) => {
                            let k = self.buffer_kind();
                            let r = mark_index(k, &mut self.state, Some((meta.tag, index)));
                            assert(r is Ok ==> self@ =~= with_state(v0, StateView::Tuple(true, Some((meta.tag, index)))));
                            r
                        },
                        None => Err(Error::invalid_value("cannot stream a tuple; the field index is missing")),
                    }
                },
                _ => self.begin(t, *kind, meta, *hint),
            },
            Token::End(kind, _) => match kind {
                ContainerKind::SeqValue | ContainerKind::MapKey | ContainerKind::MapValue => if buffering {
                    self.buffer(t)
                } else {
                    Ok(())
                },
                ContainerKind::RecordValue | ContainerKind::RecordTupleValue => if buffering {
                    self.buffer(t)
                } else {
                    let k = self.buffer_kind();
                    let r = mark_field(k, &mut self.state, None);
                    assert(r is Ok ==> self@ =~= with_state(v0, StateView::Record(true, None)));
                    r
                },
                ContainerKind::TupleValue => if buffering {
                    self.buffer(t)
                } else {
                    let k = self.buffer_kind();
                    let r = mark_index(k, &mut self.state, None);
                    assert(r is Ok ==> self@ =~= with_state(v0, StateView::Tuple(true, None)));
                    r
                },
                _ => self.end(t, *kind),
            },
            _ => if buffering { self.buffer(t) } else { self.leaf(t) },
        }
    }

    /// Take a flat call, given as a token. A stream that has stopped takes
    /// no more.
    pub fn token(&mut self, t: &Token<'sval>) -> (r: Result<(), ()>)
        requires
            old(self).wf(),
        ensures
            final(self).wf(),
            final(self).origin() == old(self).origin(),
            old(self).stopped() is Some ==> r is Err && *final(self) == *old(self),
            old(self).stopped() is None ==> ({
                let (next, calls, res) = flat_step(old(self)@, t@);
                &&& res matches Err(e) ==> r is Err && final(self).stopped() == Some(e) && final(self).made() == old(self).made()
                &&& res is Ok && r is Ok ==> final(self)@ == next && final(self).made() == old(self).made() + calls
                    && final(self).stopped() is None
                &&& res is Ok && r is Err ==> final(self).stopped() is Some && partly(old(self).made(), final(self).made(), calls)
            }),
    {
        if self.is_stopped() {
            return Err(());
        }
        match self.step(t) {
            Ok(()) => Ok(()),
            Err(e) => {
                self.current = Current::Done(Err(e));
                self.state = FlatState::Done;
                Err(())
            },
        }
    }

    /// Take flat calls, given as tokens, stopping at the first that fails.
    pub fn write(&mut self, value: &[Token<'sval>]) -> (r: Result<(), ()>)
        requires
            old(self).wf(),
            old(self).stopped() is None,
        ensures
            final(self).wf(),
            final(self).origin() == old(self).origin(),
            ({
                let (next, calls, res) = flat_run(old(self)@, tokens_view(value@));
                &&& r is Ok ==> res is Ok && final(self)@ == next && final(self).made() == old(self).made() + calls
                    && final(self).stopped() is None
                &&& (res is Err && calls.len() == 0) ==> r is Err && final(self).stopped() == Some(res->Err_0)
                    && final(self).made() == old(self).made()
                &&& res is Err ==> r is Err
                &&& r is Err ==> final(self).stopped() is Some
                &&& r is Err && (res is Ok || calls.len() > 0) ==> partly(old(self).made(), final(self).made(), calls)
                    || (res is Err && final(self).made() == old(self).made() + calls)
            }),
    {
        let ghost v0 = self@;
        let ghost m0 = self.made@;
        let ghost ts = tokens_view(value@);
        let mut i: usize = 0;
        proof {
            assert(ts.take(0) =~= Seq::<TokenView>::empty());
            assert(m0 =~= m0 + Seq::<CallView>::empty());
        }
        while i < value.len()
            invariant
                i <= value.len(),
                ts == tokens_view(value@),
                self.wf(),
                self.stopped() is None,
                flat_run(v0, ts.take(i as int)).2 is Ok,
                self@ == flat_run(v0, ts.take(i as int)).0,
                self.made() == m0 + flat_run(v0, ts.take(i as int)).1,
                v0 == old(self)@,
                m0 == old(self).made(),
                self.origin() == old(self).origin(),
            decreases value.len() - i,
        {
            let ghost before = self.made();
            let ghost pre = ts.take(i as int);
            proof {
                assert(ts.take(i + 1) =~= pre + seq![ts[i as int]]);
                lemma_flat_run_append(v0, pre, seq![ts[i as int]]);
                lemma_flat_run_single(flat_run(v0, pre).0, ts[i as int]);
                assert(value@[i as int]@ == ts[i as int]);
                lemma_flat_run_append(v0, ts.take(i + 1), ts.skip(i + 1));
                assert(ts.take(i + 1) + ts.skip(i + 1) =~= ts);
            }
            let r = self.token(&value[i]);
            if r.is_err() {
                proof {
                    let t = ts[i as int];
                    let vp = flat_run(v0, pre).0;
                    let p = flat_run(v0, pre).1;
                    let (v1, c1, r1) = flat_step(vp, t);
                    let first = flat_run(v0, ts.take(i + 1));
                    let whole = flat_run(v0, ts);
                    assert(first.0 == v1 && first.1 == p + c1);
                    assert(first.2 is Ok <==> r1 is Ok);
                    if r1 is Ok {
                        let k = choose|k: int| 0 < k <= c1.len() && self.made() == before + #[trigger] c1.take(k);
                        let rest = flat_run(v1, ts.skip(i + 1));
                        assert(whole.1 == (p + c1) + rest.1);
                        assert(((p + c1) + rest.1).take(p.len() + k) =~= p + c1.take(k));
                        assert(self.made() =~= m0 + whole.1.take(p.len() + k));
                        lemma_partly(m0, whole.1, p.len() + k);
                        assert(whole.1.len() > 0);
                    } else {
                        lemma_refused_no_calls(vp, t);
                        assert(flat_run(vp, seq![t]).2 == r1);
                        assert(first.2 == r1);
                        assert(whole == first);
                        assert(self.stopped() == Some(r1->Err_0));
                        assert(whole.2->Err_0 == r1->Err_0);
                        if p.len() == 0 {
                            assert(m0 + p =~= m0);
                        }
                        assert(whole.1 =~= p);
                        assert(self.made() =~= m0 + whole.1);
                    }
                }
                return Err(());
            }
            i = i + 1;
        }
        proof {
            assert(ts.take(i as int) =~= ts);
        }
        Ok(())
    }

    /// The result of writing the value: what the stream gave back when the
    /// value completed, or the error that stopped the writing, or an error
    /// if the value never completed.
    pub fn finish(self) -> (r: Result<S::Ok, Error>)
        requires
            self.wf(),
        ensures
            self.stopped() matches Some(e) ==> r == Err::<S::Ok, Error>(e),
            self.stopped() is None && self@.state is Done ==> r is Ok,
            self.stopped() is None && !(self@.state is Done) ==> r == Err::<S::Ok, Error>(invalid("incomplete stream")),
            r matches Ok(v) ==> held_after(self.origin(), self.made()) == Held::<'sval, S>::Done(v),
    {
        match self.current {
            Current::Done(r) => r,
            _ => Err(Error::invalid_value("incomplete stream")),
        }
    }
}

/// Write a value, given as its flat tokens, into a recursive stream: the
/// stream's result, or the error that stopped the writing.
pub fn flatten<'sval, S: Stream<'sval>>(stream: S, value: &[Token<'sval>]) -> (r: Result<S::Ok, Error>)
    ensures
        ({
            let (next, calls, res) = flat_run(initial_view(), tokens_view(value@));
            &&& r is Ok ==> res is Ok && next.state is Done
            &&& res is Err ==> r is Err
            &&& (res is Err && calls.len() == 0) ==> r == Err::<S::Ok, Error>(res->Err_0)
            &&& res is Ok && !(next.state is Done) && calls.len() == 0 ==> r == Err::<S::Ok, Error>(invalid("incomplete stream"))
            &&& r matches Ok(v) ==> held_after(stream, calls) == Held::<'sval, S>::Done(v)
        }),
{
    let ghost s0 = stream;
    let mut flat = FlatStream::new(stream);
    let _ = flat.write(value);
    assert(flat.origin() == s0);
    flat.finish()
}

} // verus!
