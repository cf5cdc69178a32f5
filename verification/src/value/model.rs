//! The abstract state of a value buffer and what each streamed token does to it.
use vstd::prelude::*;

use crate::data::{ContainerKind, MetaView, Tag};
use crate::error::{Error, ErrorKind};
use crate::token::TokenView;
use super::frame::Frame;
use super::part::{text_size, PartView};
use super::parts::{any_borrowed, patched, too_large, MAX_PARTS_LEN};

verus! {

/// Small borrowed fragments up to this many bytes are copied into the
/// buffer instead of borrowed, as long as nothing else is borrowed.
pub const MAX_INLINE_FRAGMENT_LEN: usize = 24;

/// How far a text or binary value being buffered has got.
pub enum FragmentState<T> {
    /// No fragment yet.
    Empty,
    /// A single fragment, borrowed.
    Borrowed(T),
    /// Fragments copied into the inline part at the given position.
    Inline(usize),
}

pub enum BufferingView {
    Value,
    Text(FragmentState<Seq<char>>),
    Binary(FragmentState<Seq<u8>>),
}

/// The contents of a value buffer.
pub struct ValueBufView {
    pub parts: Seq<PartView>,
    /// A frame for each open container.
    pub stack: Seq<Frame>,
    /// The text or binary value currently being collected.
    pub buffering: BufferingView,
    /// The error recorded when buffering last failed.
    pub err: Option<Error>,
}

/// The state a buffer is in after an operation, and what the operation returned.
pub type Outcome = (ValueBufView, Result<(), Error>);

pub open spec fn invalid(reason: &'static str) -> Error {
    Error(ErrorKind::InvalidValue { reason })
}

pub open spec fn outside(method: &'static str) -> Error {
    Error(ErrorKind::OutsideContainer { method })
}

pub open spec fn empty_buf() -> ValueBufView {
    ValueBufView {
        parts: Seq::empty(),
        stack: Seq::empty(),
        buffering: BufferingView::Value,
        err: None,
    }
}

impl ValueBufView {
    pub open spec fn with_parts(self, parts: Seq<PartView>) -> ValueBufView {
        ValueBufView { parts, ..self }
    }

    pub open spec fn with_stack(self, stack: Seq<Frame>) -> ValueBufView {
        ValueBufView { stack, ..self }
    }

    pub open spec fn with_buffering(self, buffering: BufferingView) -> ValueBufView {
        ValueBufView { buffering, ..self }
    }

    /// Whether the buffer holds a whole value.
    pub open spec fn complete(self) -> bool {
        &&& self.stack.len() == 0
        &&& self.parts.len() > 0
        &&& self.buffering is Value
    }

    /// The safety invariant: frames point at container headers with room
    /// for their entries, and inline fragments are collected into the last part.
    pub open spec fn inv(self) -> bool {
        &&& self.parts.len() <= MAX_PARTS_LEN
        &&& forall|k: int| 0 <= k < self.stack.len() ==> {
            let f = #[trigger] self.stack[k];
            &&& f.len_at < self.parts.len()
            &&& self.parts[f.len_at as int] is Container
            &&& f.len_at + f.entries < self.parts.len()
        }
        &&& match self.buffering {
            BufferingView::Text(FragmentState::Inline(at)) => {
                &&& at + 1 == self.parts.len()
                &&& self.parts[at as int] matches PartView::Text { borrowed, .. } && !borrowed
            },
            BufferingView::Binary(FragmentState::Inline(at)) => {
                &&& at + 1 == self.parts.len()
                &&& self.parts[at as int] matches PartView::Binary { borrowed, .. } && !borrowed
            },
            _ => true,
        }
    }
}

pub open spec fn push_part(b: ValueBufView, p: PartView) -> Outcome {
    if b.parts.len() < MAX_PARTS_LEN {
        (b.with_parts(b.parts.push(p)), Ok(()))
    } else {
        (b, Err(too_large()))
    }
}

/// Encode a part, failing if a text or binary value is being buffered.
pub open spec fn encode_value(b: ValueBufView, p: PartView) -> Outcome {
    if b.buffering is Value {
        push_part(b, p)
    } else {
        (b, Err(invalid("attempt to buffer value instead of text or binary")))
    }
}

/// Encode a part, discarding it if a text or binary value is being buffered.
pub open spec fn encode_value_discard(b: ValueBufView, p: PartView) -> Outcome {
    if b.buffering is Value {
        push_part(b, p)
    } else {
        (b, Ok(()))
    }
}

pub open spec fn header(kind: ContainerKind, meta: MetaView) -> PartView {
    PartView::Container { kind, len: 0, num_entries: 0, meta }
}

pub open spec fn container_begin(b: ValueBufView, kind: ContainerKind, meta: MetaView) -> Outcome {
    let len_at = b.parts.len() as int;
    let (b1, r) = encode_value(b, header(kind, meta));
    if r is Ok {
        (b1.with_stack(b1.stack.push(Frame::spec_new(kind, len_at))), Ok(()))
    } else {
        (b1, r)
    }
}

/// Begin a container that is an entry of the container around it, which
/// counts it.
pub open spec fn entry_begin(b: ValueBufView, kind: ContainerKind, meta: MetaView) -> Outcome {
    let (b1, r) = container_begin(b, kind, meta);
    if r is Ok && b1.stack.len() >= 2 {
        let i = b1.stack.len() - 2;
        (b1.with_stack(b1.stack.update(i, b1.stack[i].counted())), Ok(()))
    } else {
        (b1, r)
    }
}

pub open spec fn container_end(b: ValueBufView) -> Outcome {
    if !(b.buffering is Value) {
        (b, Err(invalid("attempt to buffer value instead text or binary")))
    } else if b.stack.len() == 0 {
        (b, Err(invalid("unbalanced calls to `begin` and `end`")))
    } else {
        let f = b.stack.last();
        let len = b.parts.len() - (f.len_at + 1);
        (
            b.with_stack(b.stack.drop_last()).with_parts(
                patched(b.parts, f.len_at as int, len as u32, f.spec_num_entries()),
            ),
            Ok(()),
        )
    }
}

pub open spec fn buffering_begin(b: ValueBufView, buffering: BufferingView) -> Outcome {
    if b.buffering is Value {
        (b.with_buffering(buffering), Ok(()))
    } else {
        (b, Err(invalid("already buffering")))
    }
}

pub open spec fn text_appended(ps: Seq<PartView>, at: int, f: Seq<char>) -> Seq<PartView> {
    ps.update(at, PartView::Text { borrowed: false, text: ps[at]->text + f })
}

pub open spec fn binary_appended(ps: Seq<PartView>, at: int, f: Seq<u8>) -> Seq<PartView> {
    ps.update(at, PartView::Binary { borrowed: false, bytes: ps[at]->bytes + f })
}

pub open spec fn empty_text() -> PartView {
    PartView::Text { borrowed: false, text: Seq::empty() }
}

pub open spec fn empty_binary() -> PartView {
    PartView::Binary { borrowed: false, bytes: Seq::empty() }
}

/// Copy a text fragment into the buffer.
pub open spec fn text_inline(b: ValueBufView, f: Seq<char>) -> Outcome {
    match b.buffering {
        BufferingView::Text(FragmentState::Inline(at)) => (
            b.with_parts(text_appended(b.parts, at as int, f)),
            Ok(()),
        ),
        BufferingView::Text(FragmentState::Borrowed(prev)) => {
            let at = b.parts.len() as int;
            let (b1, r) = push_part(b, empty_text());
            if r is Ok {
                let b2 = b1.with_parts(text_appended(b1.parts, at, prev)).with_buffering(
                    BufferingView::Text(FragmentState::Inline(at as usize)),
                );
                (b2.with_parts(text_appended(b2.parts, at, f)), Ok(()))
            } else {
                (b1, r)
            }
        },
        BufferingView::Text(FragmentState::Empty) => {
            let at = b.parts.len() as int;
            let (b1, r) = push_part(b, empty_text());
            if r is Ok {
                (
                    b1.with_parts(text_appended(b1.parts, at, f)).with_buffering(
                        BufferingView::Text(FragmentState::Inline(at as usize)),
                    ),
                    Ok(()),
                )
            } else {
                (b1, r)
            }
        },
        _ => (b, Err(outside("text"))),
    }
}

/// Copy a binary fragment into the buffer.
pub open spec fn binary_inline(b: ValueBufView, f: Seq<u8>) -> Outcome {
    match b.buffering {
        BufferingView::Binary(FragmentState::Inline(at)) => (
            b.with_parts(binary_appended(b.parts, at as int, f)),
            Ok(()),
        ),
        BufferingView::Binary(FragmentState::Borrowed(prev)) => {
            let at = b.parts.len() as int;
            let (b1, r) = push_part(b, empty_binary());
            if r is Ok {
                let b2 = b1.with_parts(binary_appended(b1.parts, at, prev)).with_buffering(
                    BufferingView::Binary(FragmentState::Inline(at as usize)),
                );
                (b2.with_parts(binary_appended(b2.parts, at, f)), Ok(()))
            } else {
                (b1, r)
            }
        },
        BufferingView::Binary(FragmentState::Empty) => {
            let at = b.parts.len() as int;
            let (b1, r) = push_part(b, empty_binary());
            if r is Ok {
                (
                    b1.with_parts(binary_appended(b1.parts, at, f)).with_buffering(
                        BufferingView::Binary(FragmentState::Inline(at as usize)),
                    ),
                    Ok(()),
                )
            } else {
                (b1, r)
            }
        },
        _ => (b, Err(outside("binary"))),
    }
}

/// A borrowed text fragment: the first is kept borrowed, later ones are copied.
pub open spec fn text_fragment(b: ValueBufView, f: Seq<char>) -> Outcome {
    match b.buffering {
        BufferingView::Text(FragmentState::Empty) => (
            b.with_buffering(BufferingView::Text(FragmentState::Borrowed(f))),
            Ok(()),
        ),
        BufferingView::Text(_) => text_inline(b, f),
        _ => (b, Err(outside("text"))),
    }
}

/// A borrowed binary fragment: the first is kept borrowed, later ones are copied.
pub open spec fn binary_fragment(b: ValueBufView, f: Seq<u8>) -> Outcome {
    match b.buffering {
        BufferingView::Binary(FragmentState::Empty) => (
            b.with_buffering(BufferingView::Binary(FragmentState::Borrowed(f))),
            Ok(()),
        ),
        BufferingView::Binary(_) => binary_inline(b, f),
        _ => (b, Err(outside("binary"))),
    }
}

pub open spec fn text_inline_copy(b: ValueBufView, v: Seq<char>) -> Outcome {
    let at = b.parts.len() as int;
    let (b1, r) = push_part(b, empty_text());
    if r is Ok {
        (b1.with_parts(text_appended(b1.parts, at, v)), Ok(()))
    } else {
        (b1, r)
    }
}

pub open spec fn binary_inline_copy(b: ValueBufView, v: Seq<u8>) -> Outcome {
    let at = b.parts.len() as int;
    let (b1, r) = push_part(b, empty_binary());
    if r is Ok {
        (b1.with_parts(binary_appended(b1.parts, at, v)), Ok(()))
    } else {
        (b1, r)
    }
}

pub open spec fn oversized_fragment() -> Error {
    invalid("borrowed fragment exceeds the maximum buffer size")
}

/// Encode a borrowed text fragment as its own part.
pub open spec fn encode_borrowed_text(b: ValueBufView, v: Seq<char>) -> Outcome {
    if !(b.buffering is Value) {
        (b, Err(invalid("attempt to buffer value instead of text or binary")))
    } else if text_size(v) > MAX_PARTS_LEN {
        (b, Err(oversized_fragment()))
    } else {
        push_part(b, PartView::Text { borrowed: true, text: v })
    }
}

/// Encode a borrowed binary fragment as its own part.
pub open spec fn encode_borrowed_binary(b: ValueBufView, v: Seq<u8>) -> Outcome {
    if !(b.buffering is Value) {
        (b, Err(invalid("attempt to buffer value instead of text or binary")))
    } else if v.len() > MAX_PARTS_LEN {
        (b, Err(oversized_fragment()))
    } else {
        push_part(b, PartView::Binary { borrowed: true, bytes: v })
    }
}

pub open spec fn text_end(b: ValueBufView) -> Outcome {
    let b0 = b.with_buffering(BufferingView::Value);
    match b.buffering {
        BufferingView::Text(FragmentState::Empty) => encode_value(b0, empty_text()),
        BufferingView::Text(FragmentState::Borrowed(v)) => {
            if text_size(v) <= MAX_INLINE_FRAGMENT_LEN && !any_borrowed(b.parts) {
                text_inline_copy(b0, v)
            } else {
                encode_borrowed_text(b0, v)
            }
        },
        BufferingView::Text(FragmentState::Inline(_)) => (b0, Ok(())),
        _ => (b0, Err(outside("text"))),
    }
}

pub open spec fn binary_end(b: ValueBufView) -> Outcome {
    let b0 = b.with_buffering(BufferingView::Value);
    match b.buffering {
        BufferingView::Binary(FragmentState::Empty) => encode_value(b0, empty_binary()),
        BufferingView::Binary(FragmentState::Borrowed(v)) => {
            if v.len() <= MAX_INLINE_FRAGMENT_LEN && !any_borrowed(b.parts) {
                binary_inline_copy(b0, v)
            } else {
                encode_borrowed_binary(b0, v)
            }
        },
        BufferingView::Binary(FragmentState::Inline(_)) => (b0, Ok(())),
        _ => (b0, Err(outside("binary"))),
    }
}

/// What streaming a token does to a buffer, before any error is recorded.
pub open spec fn token_op(b: ValueBufView, t: TokenView) -> Outcome {
    match t {
        TokenView::Scalar(s) => encode_value(b, PartView::Scalar(s)),
        TokenView::TextBegin(_) => buffering_begin(b, BufferingView::Text(FragmentState::Empty)),
        TokenView::TextFragment(f) => text_fragment(b, f),
        TokenView::TextFragmentComputed(f) => text_inline(b, f),
        TokenView::TextEnd => text_end(b),
        TokenView::BinaryBegin(_) => buffering_begin(b, BufferingView::Binary(FragmentState::Empty)),
        TokenView::BinaryFragment(f) => binary_fragment(b, f),
        TokenView::BinaryFragmentComputed(f) => binary_inline(b, f),
        TokenView::BinaryEnd => binary_end(b),
        TokenView::Tag(m) => encode_value(b, PartView::Tag(m)),
        TokenView::TagHint(t) => encode_value_discard(b, PartView::TagHint(t)),
        TokenView::Begin(k, m, _) => if k.is_entry() {
            entry_begin(b, k, m.for_kind(k))
        } else {
            container_begin(b, k, m.for_kind(k))
        },
        TokenView::End(_, _) => container_end(b),
    }
}

/// The buffer after an operation, with its error recorded if it failed.
pub open spec fn caught(o: Outcome) -> ValueBufView {
    match o.1 {
        Ok(_) => o.0,
        Err(e) => ValueBufView { err: Some(e), ..o.0 },
    }
}

/// Streaming a token into a buffer: the new buffer, and whether the call succeeded.
pub open spec fn step(b: ValueBufView, t: TokenView) -> (ValueBufView, bool) {
    (caught(token_op(b, t)), token_op(b, t).1 is Ok)
}

/// Streaming tokens one after another, stopping at the first failure.
pub open spec fn run(b: ValueBufView, ts: Seq<TokenView>) -> (ValueBufView, bool)
    decreases ts.len(),
{
    if ts.len() == 0 {
        (b, true)
    } else {
        let (b1, ok) = step(b, ts[0]);
        if ok {
            run(b1, ts.drop_first())
        } else {
            (b1, false)
        }
    }
}

} // verus!
