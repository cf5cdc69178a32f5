//! The value buffer: a stream that encodes each call it receives as parts.
use vstd::prelude::*;

use crate::data::{ContainerKind, Index, Label, Meta, MetaView, Tag};
use crate::error::Error;
use crate::token::{computed_tokens, to_computed_tokens, tokens_view, Scalar, Token, TokenView};
use super::frame::{BufMut, Frame};
use super::model::{
    binary_end, binary_fragment, binary_inline, binary_inline_copy, buffering_begin, container_begin,
    container_end, empty_buf, encode_value, encode_value_discard, entry_begin, push_part, text_end,
    text_fragment, text_inline, text_inline_copy, encode_borrowed_text, encode_borrowed_binary, BufferingView, FragmentState, ValueBufView,
    MAX_INLINE_FRAGMENT_LEN, caught, run, step, token_op, empty_text, empty_binary,
};
use super::part::{BinaryPart, Header, Part, PartView, TextPart};
use super::parts::{owned_parts, Parts, MAX_PARTS_LEN};
use super::decode::{decode, decode_parts};

verus! {

#[derive(Debug, Clone, Copy)]
enum TextState<'sval> {
    Empty,
    Borrowed(&'sval str),
    Inline(usize),
}

#[derive(Debug, Clone, Copy)]
enum BinaryState<'sval> {
    Empty,
    Borrowed(&'sval [u8]),
    Inline(usize),
}

#[derive(Debug, Clone, Copy)]
enum Buffering<'sval> {
    Value,
    Text(TextState<'sval>),
    Binary(BinaryState<'sval>),
}

impl<'sval> View for Buffering<'sval> {
    type V = BufferingView;

    closed spec fn view(&self) -> BufferingView {
        match self {
            Buffering::Value => BufferingView::Value,
            Buffering::Text(TextState::Empty) => BufferingView::Text(FragmentState::Empty),
            Buffering::Text(TextState::Borrowed(s)) => BufferingView::Text(FragmentState::Borrowed(s@)),
            Buffering::Text(TextState::Inline(at)) => BufferingView::Text(FragmentState::Inline(*at)),
            Buffering::Binary(BinaryState::Empty) => BufferingView::Binary(FragmentState::Empty),
            Buffering::Binary(BinaryState::Borrowed(b)) => BufferingView::Binary(FragmentState::Borrowed(b@)),
            Buffering::Binary(BinaryState::Inline(at)) => BufferingView::Binary(FragmentState::Inline(*at)),
        }
    }
}

/**
Buffer arbitrary values into a tree-like structure.
*/
#[derive(Debug)]
pub struct ValueBuf<'sval> {
    parts: Parts<'sval>,
    // A frame for each open container, for header patching on `end`
    stack: BufMut,
    // The text or binary value currently being collected
    buffering: Buffering<'sval>,
    // An accumulated descriptive error during buffering
    err: Option<Error>,
}

impl<'sval> View for ValueBuf<'sval> {
    type V = ValueBufView;

    closed spec fn view(&self) -> ValueBufView {
        ValueBufView {
            parts: self.parts@,
            stack: self.stack@,
            buffering: self.buffering@,
            err: self.err,
        }
    }
}

impl<'sval> Default for ValueBuf<'sval> {
    fn default() -> (b: Self)
        ensures
            b.wf(),
            b@ == empty_buf(),
    {
        ValueBuf::new()
    }
}

impl<'sval> ValueBuf<'sval> {
    /// The buffer's bookkeeping agrees with its parts.
    pub closed spec fn wf(&self) -> bool {
        &&& self.parts.wf()
        &&& self@.inv()
    }

    /**
    Create a new empty value buffer.
    */
    pub fn new() -> (b: Self)
        ensures
            b.wf(),
            b@ == empty_buf(),
    {
        ValueBuf {
            parts: Parts::new(),
            stack: BufMut::new(),
            buffering: Buffering::Value,
            err: None,
        }
    }

    /**
    Whether or not the contents of the value buffer are complete.
    */
    pub fn is_complete(&self) -> (b: bool)
        ensures
            b == self@.complete(),
    {
        self.stack.len() == 0 && self.parts.len() > 0 && matches!(self.buffering, Buffering::Value)
    }

    /**
    Clear this buffer so it can be re-used for future values.
    */
    pub fn clear(&mut self)
        ensures
            final(self).wf(),
            final(self)@ == empty_buf(),
    {
        self.parts.clear();
        self.stack.clear();
        self.buffering = Buffering::Value;
        self.err = None;
    }

    /// The parts buffered so far.
    pub fn parts(&self) -> (p: &Parts<'sval>)
        ensures
            p@ == self@.parts,
    {
        &self.parts
    }

    /**
    Take an error produced while attempting to buffer a value.
    */
    pub fn into_err(self) -> (e: Option<Error>)
        ensures
            e == self@.err,
    {
        self.err
    }

    fn push_part(&mut self, p: Part<'sval>) -> (r: Result<(), Error>)
        requires
            old(self).parts.wf(),
        ensures
            (final(self)@, r) == push_part(old(self)@, p@),
            final(self).parts.wf(),
    {
        self.parts.push(p)
    }

    /**
    Encode a part into the buffer, failing if it's not in a value context.
    */
    fn encode_value(&mut self, p: Part<'sval>) -> (r: Result<(), Error>)
        requires
            old(self).wf(),
        ensures
            final(self).wf(),
            (final(self)@, r) == encode_value(old(self)@, p@),
    {
        if !matches!(self.buffering, Buffering::Value) {
            return Err(Error::invalid_value("attempt to buffer value instead of text or binary"));
        }
        self.push_part(p)
    }

    /**
    Encode a part into the buffer, discarding it if it's not in a value context.
    */
    fn encode_value_discard(&mut self, p: Part<'sval>) -> (r: Result<(), Error>)
        requires
            old(self).wf(),
        ensures
            final(self).wf(),
            (final(self)@, r) == encode_value_discard(old(self)@, p@),
    {
        if !matches!(self.buffering, Buffering::Value) {
            return Ok(());
        }
        self.push_part(p)
    }

    fn encode_container_begin(&mut self, kind: ContainerKind, meta: Meta<'static>) -> (r: Result<(), Error>)
        requires
            old(self).wf(),
        ensures
            final(self).wf(),
            (final(self)@, r) == container_begin(old(self)@, kind, meta@),
    {
        let len_at = self.parts.next_len_at();
        self.encode_value(Part::Container(Header { kind, len: 0, num_entries: 0, meta }))?;
        self.stack.push(Frame::new(kind, len_at));
        Ok(())
    }

    fn encode_entry_begin(&mut self, kind: ContainerKind, meta: Meta<'static>) -> (r: Result<(), Error>)
        requires
            old(self).wf(),
        ensures
            final(self).wf(),
            (final(self)@, r) == entry_begin(old(self)@, kind, meta@),
    {
        self.encode_container_begin(kind, meta)?;
        // Count this entry in its parent's frame, the one just below its own
        let len = self.stack.len();
        if len >= 2 {
            self.stack.count_entry(len - 2);
        }
        Ok(())
    }

    fn encode_container_end(&mut self) -> (r: Result<(), Error>)
        requires
            old(self).wf(),
        ensures
            final(self).wf(),
            (final(self)@, r) == container_end(old(self)@),
    {
        if !matches!(self.buffering, Buffering::Value) {
            return Err(Error::invalid_value("attempt to buffer value instead text or binary"));
        }
        let frame = match self.stack.pop() {
            Some(frame) => frame,
            None => return Err(Error::invalid_value("unbalanced calls to `begin` and `end`")),
        };
        // The container's body runs from after its header to the current end of the buffer
        let len = self.parts.len() - (frame.len_at() + 1);
        self.parts.patch_container_end(frame.len_at(), len, frame.num_entries());
        Ok(())
    }

    fn buffering_begin(&mut self, buffering: Buffering<'sval>) -> (r: Result<(), Error>)
        requires
            old(self).wf(),
            !(buffering is Text && buffering->Text_0 is Inline),
            !(buffering is Binary && buffering->Binary_0 is Inline),
        ensures
            final(self).wf(),
            (final(self)@, r) == buffering_begin(old(self)@, buffering@),
    {
        match self.buffering {
            Buffering::Value => {
                self.buffering = buffering;
                Ok(())
            },
            _ => Err(Error::invalid_value("already buffering")),
        }
    }

    fn encode_buffering_text_inline(&mut self, fragment: &str) -> (r: Result<(), Error>)
        requires
            old(self).wf(),
        ensures
            final(self).wf(),
            (final(self)@, r) == text_inline(old(self)@, fragment@),
    {
        match self.buffering {
            // We're already buffering text; append to the inline part
            Buffering::Text(TextState::Inline(len_at)) => {
                self.parts.push_text(len_at, fragment);
                Ok(())
            },
            // We've only seen borrowed text so far; copy it inline, then append
            Buffering::Text(TextState::Borrowed(prev)) => {
                let len_at = self.parts.next_len_at();
                self.push_part(Part::Text(TextPart::Inline(String::new())))?;
                self.parts.push_text(len_at, prev);
                self.buffering = Buffering::Text(TextState::Inline(len_at));
                self.parts.push_text(len_at, fragment);
                Ok(())
            },
            // We haven't seen any text yet; start an inline part
            Buffering::Text(TextState::Empty) => {
                let len_at = self.parts.next_len_at();
                self.push_part(Part::Text(TextPart::Inline(String::new())))?;
                self.parts.push_text(len_at, fragment);
                self.buffering = Buffering::Text(TextState::Inline(len_at));
                Ok(())
            },
            _ => Err(Error::outside_container("text")),
        }
    }

    fn encode_buffering_binary_inline(&mut self, fragment: &[u8]) -> (r: Result<(), Error>)
        requires
            old(self).wf(),
        ensures
            final(self).wf(),
            (final(self)@, r) == binary_inline(old(self)@, fragment@),
    {
        match self.buffering {
            Buffering::Binary(BinaryState::Inline(len_at)) => {
                self.parts.push_binary(len_at, fragment);
                Ok(())
            },
            Buffering::Binary(BinaryState::Borrowed(prev)) => {
                let len_at = self.parts.next_len_at();
                self.push_part(Part::Binary(BinaryPart::Inline(Vec::new())))?;
                self.parts.push_binary(len_at, prev);
                self.buffering = Buffering::Binary(BinaryState::Inline(len_at));
                self.parts.push_binary(len_at, fragment);
                Ok(())
            },
            Buffering::Binary(BinaryState::Empty) => {
                let len_at = self.parts.next_len_at();
                self.push_part(Part::Binary(BinaryPart::Inline(Vec::new())))?;
                self.parts.push_binary(len_at, fragment);
                self.buffering = Buffering::Binary(BinaryState::Inline(len_at));
                Ok(())
            },
            _ => Err(Error::outside_container("binary")),
        }
    }

    fn buffering_push_text(&mut self, fragment: &'sval str) -> (r: Result<(), Error>)
        requires
            old(self).wf(),
        ensures
            final(self).wf(),
            (final(self)@, r) == text_fragment(old(self)@, fragment@),
    {
        match self.buffering {
            // This is the first fragment; keep it borrowed while it's the only one
            Buffering::Text(TextState::Empty) => {
                self.buffering = Buffering::Text(TextState::Borrowed(fragment));
                Ok(())
            },
            Buffering::Text(_) => self.encode_buffering_text_inline(fragment),
            _ => Err(Error::outside_container("text")),
        }
    }

    fn buffering_push_binary(&mut self, fragment: &'sval [u8]) -> (r: Result<(), Error>)
        requires
            old(self).wf(),
        ensures
            final(self).wf(),
            (final(self)@, r) == binary_fragment(old(self)@, fragment@),
    {
        match self.buffering {
            Buffering::Binary(BinaryState::Empty) => {
                self.buffering = Buffering::Binary(BinaryState::Borrowed(fragment));
                Ok(())
            },
            Buffering::Binary(_) => self.encode_buffering_binary_inline(fragment),
            _ => Err(Error::outside_container("binary")),
        }
    }

    fn encode_buffering_text_borrowed(&mut self, v: &'sval str) -> (r: Result<(), Error>)
        requires
            old(self).wf(),
        ensures
            final(self).wf(),
            (final(self)@, r) == encode_borrowed_text(old(self)@, v@),
    {
        if !matches!(self.buffering, Buffering::Value) {
            return Err(Error::invalid_value("attempt to buffer value instead of text or binary"));
        }
        if v.len() > MAX_PARTS_LEN {
            return Err(Error::invalid_value("borrowed fragment exceeds the maximum buffer size"));
        }
        self.push_part(Part::Text(TextPart::Borrowed(v)))
    }

    fn encode_buffering_binary_borrowed(&mut self, v: &'sval [u8]) -> (r: Result<(), Error>)
        requires
            old(self).wf(),
        ensures
            final(self).wf(),
            (final(self)@, r) == encode_borrowed_binary(old(self)@, v@),
    {
        if !matches!(self.buffering, Buffering::Value) {
            return Err(Error::invalid_value("attempt to buffer value instead of text or binary"));
        }
        if v.len() > MAX_PARTS_LEN {
            return Err(Error::invalid_value("borrowed fragment exceeds the maximum buffer size"));
        }
        self.push_part(Part::Binary(BinaryPart::Borrowed(v)))
    }

    fn encode_text_inline_copy(&mut self, v: &str) -> (r: Result<(), Error>)
        requires
            old(self).wf(),
            old(self)@.buffering is Value,
        ensures
            final(self).wf(),
            (final(self)@, r) == text_inline_copy(old(self)@, v@),
    {
        let len_at = self.parts.next_len_at();
        self.push_part(Part::Text(TextPart::Inline(String::new())))?;
        self.parts.push_text(len_at, v);
        Ok(())
    }

    fn encode_binary_inline_copy(&mut self, v: &[u8]) -> (r: Result<(), Error>)
        requires
            old(self).wf(),
            old(self)@.buffering is Value,
        ensures
            final(self).wf(),
            (final(self)@, r) == binary_inline_copy(old(self)@, v@),
    {
        let len_at = self.parts.next_len_at();
        self.push_part(Part::Binary(BinaryPart::Inline(Vec::new())))?;
        self.parts.push_binary(len_at, v);
        Ok(())
    }

    fn encode_text_end(&mut self) -> (r: Result<(), Error>)
        requires
            old(self).wf(),
        ensures
            final(self).wf(),
            (final(self)@, r) == text_end(old(self)@),
    {
        let buffering = self.buffering;
        self.buffering = Buffering::Value;
        match buffering {
            // Empty text
            Buffering::Text(TextState::Empty) => self.encode_value(Part::Text(TextPart::Inline(String::new()))),
            // A single borrowed fragment (the most common case)
            Buffering::Text(TextState::Borrowed(v)) => {
                // Copy small fragments instead of borrowing them while nothing
                // else is borrowed, which keeps conversion into owned free
                if v.len() <= MAX_INLINE_FRAGMENT_LEN && !self.parts.is_borrowed() {
                    return self.encode_text_inline_copy(v);
                }
                self.encode_buffering_text_borrowed(v)
            },
            // Fragments already copied inline
            Buffering::Text(TextState::Inline(_)) => Ok(()),
            _ => Err(Error::outside_container("text")),
        }
    }

    fn encode_binary_end(&mut self) -> (r: Result<(), Error>)
        requires
            old(self).wf(),
        ensures
            final(self).wf(),
            (final(self)@, r) == binary_end(old(self)@),
    {
        let buffering = self.buffering;
        self.buffering = Buffering::Value;
        match buffering {
            Buffering::Binary(BinaryState::Empty) => self.encode_value(Part::Binary(BinaryPart::Inline(Vec::new()))),
            Buffering::Binary(BinaryState::Borrowed(v)) => {
                if v.len() <= MAX_INLINE_FRAGMENT_LEN && !self.parts.is_borrowed() {
                    return self.encode_binary_inline_copy(v);
                }
                self.encode_buffering_binary_borrowed(v)
            },
            Buffering::Binary(BinaryState::Inline(_)) => Ok(()),
            _ => Err(Error::outside_container("binary")),
        }
    }

    /// Record the error of a failed operation, turning its result into
    /// the stream's own.
    fn try_catch(&mut self, r: Result<(), Error>) -> (o: Result<(), ()>)
        requires
            old(self).wf(),
        ensures
            final(self).wf(),
            final(self)@ == caught((old(self)@, r)),
            o is Ok == r is Ok,
    {
        match r {
            Ok(()) => Ok(()),
            Err(e) => {
                self.err = Some(e);
                Err(())
            },
        }
    }

    pub fn null(&mut self) -> (r: Result<(), ()>)
        requires
            old(self).wf(),
        ensures
            final(self).wf(),
            (final(self)@, r is Ok) == step(old(self)@, TokenView::Scalar(Scalar::Null)),
    {
        let r = self.encode_value(Part::Scalar(Scalar::Null));
        self.try_catch(r)
    }

    pub fn bool(&mut self, value: bool) -> (r: Result<(), ()>)
        requires
            old(self).wf(),
        ensures
            final(self).wf(),
            (final(self)@, r is Ok) == step(old(self)@, TokenView::Scalar(Scalar::Bool(value))),
    {
        let r = self.encode_value(Part::Scalar(Scalar::Bool(value)));
        self.try_catch(r)
    }

    pub fn u8(&mut self, value: u8) -> (r: Result<(), ()>)
        requires
            old(self).wf(),
        ensures
            final(self).wf(),
            (final(self)@, r is Ok) == step(old(self)@, TokenView::Scalar(Scalar::U8(value))),
    {
        let r = self.encode_value(Part::Scalar(Scalar::U8(value)));
        self.try_catch(r)
    }

    pub fn u16(&mut self, value: u16) -> (r: Result<(), ()>)
        requires
            old(self).wf(),
        ensures
            final(self).wf(),
            (final(self)@, r is Ok) == step(old(self)@, TokenView::Scalar(Scalar::U16(value))),
    {
        let r = self.encode_value(Part::Scalar(Scalar::U16(value)));
        self.try_catch(r)
    }

    pub fn u32(&mut self, value: u32) -> (r: Result<(), ()>)
        requires
            old(self).wf(),
        ensures
            final(self).wf(),
            (final(self)@, r is Ok) == step(old(self)@, TokenView::Scalar(Scalar::U32(value))),
    {
        let r = self.encode_value(Part::Scalar(Scalar::U32(value)));
        self.try_catch(r)
    }

    pub fn u64(&mut self, value: u64) -> (r: Result<(), ()>)
        requires
            old(self).wf(),
        ensures
            final(self).wf(),
            (final(self)@, r is Ok) == step(old(self)@, TokenView::Scalar(Scalar::U64(value))),
    {
        let r = self.encode_value(Part::Scalar(Scalar::U64(value)));
        self.try_catch(r)
    }

    pub fn u128(&mut self, value: u128) -> (r: Result<(), ()>)
        requires
            old(self).wf(),
        ensures
            final(self).wf(),
            (final(self)@, r is Ok) == step(old(self)@, TokenView::Scalar(Scalar::U128(value))),
    {
        let r = self.encode_value(Part::Scalar(Scalar::U128(value)));
        self.try_catch(r)
    }

    pub fn i8(&mut self, value: i8) -> (r: Result<(), ()>)
        requires
            old(self).wf(),
        ensures
            final(self).wf(),
            (final(self)@, r is Ok) == step(old(self)@, TokenView::Scalar(Scalar::I8(value))),
    {
        let r = self.encode_value(Part::Scalar(Scalar::I8(value)));
        self.try_catch(r)
    }

    pub fn i16(&mut self, value: i16) -> (r: Result<(), ()>)
        requires
            old(self).wf(),
        ensures
            final(self).wf(),
            (final(self)@, r is Ok) == step(old(self)@, TokenView::Scalar(Scalar::I16(value))),
    {
        let r = self.encode_value(Part::Scalar(Scalar::I16(value)));
        self.try_catch(r)
    }

    pub fn i32(&mut self, value: i32) -> (r: Result<(), ()>)
        requires
            old(self).wf(),
        ensures
            final(self).wf(),
            (final(self)@, r is Ok) == step(old(self)@, TokenView::Scalar(Scalar::I32(value))),
    {
        let r = self.encode_value(Part::Scalar(Scalar::I32(value)));
        self.try_catch(r)
    }

    pub fn i64(&mut self, value: i64) -> (r: Result<(), ()>)
        requires
            old(self).wf(),
        ensures
            final(self).wf(),
            (final(self)@, r is Ok) == step(old(self)@, TokenView::Scalar(Scalar::I64(value))),
    {
        let r = self.encode_value(Part::Scalar(Scalar::I64(value)));
        self.try_catch(r)
    }

    pub fn i128(&mut self, value: i128) -> (r: Result<(), ()>)
        requires
            old(self).wf(),
        ensures
            final(self).wf(),
            (final(self)@, r is Ok) == step(old(self)@, TokenView::Scalar(Scalar::I128(value))),
    {
        let r = self.encode_value(Part::Scalar(Scalar::I128(value)));
        self.try_catch(r)
    }

    pub fn f32_bits(&mut self, value: u32) -> (r: Result<(), ()>)
        requires
            old(self).wf(),
        ensures
            final(self).wf(),
            (final(self)@, r is Ok) == step(old(self)@, TokenView::Scalar(Scalar::F32(value))),
    {
        let r = self.encode_value(Part::Scalar(Scalar::F32(value)));
        self.try_catch(r)
    }

    pub fn f64_bits(&mut self, value: u64) -> (r: Result<(), ()>)
        requires
            old(self).wf(),
        ensures
            final(self).wf(),
            (final(self)@, r is Ok) == step(old(self)@, TokenView::Scalar(Scalar::F64(value))),
    {
        let r = self.encode_value(Part::Scalar(Scalar::F64(value)));
        self.try_catch(r)
    }

    /// Begin buffering a text value.
    pub fn text_begin(&mut self, num_bytes_hint: Option<usize>) -> (r: Result<(), ()>)
        requires
            old(self).wf(),
        ensures
            final(self).wf(),
            (final(self)@, r is Ok) == step(old(self)@, TokenView::TextBegin(num_bytes_hint)),
    {
        let r = self.buffering_begin(Buffering::Text(TextState::Empty));
        self.try_catch(r)
    }

    /// A text fragment borrowed for `'sval`.
    pub fn text_fragment(&mut self, fragment: &'sval str) -> (r: Result<(), ()>)
        requires
            old(self).wf(),
        ensures
            final(self).wf(),
            (final(self)@, r is Ok) == step(old(self)@, TokenView::TextFragment(fragment@)),
    {
        let r = self.buffering_push_text(fragment);
        self.try_catch(r)
    }

    /// A text fragment that is copied into the buffer.
    pub fn text_fragment_computed(&mut self, fragment: &str) -> (r: Result<(), ()>)
        requires
            old(self).wf(),
        ensures
            final(self).wf(),
            (final(self)@, r is Ok) == step(old(self)@, TokenView::TextFragmentComputed(fragment@)),
    {
        let r = self.encode_buffering_text_inline(fragment);
        self.try_catch(r)
    }

    /// Finish buffering a text value.
    pub fn text_end(&mut self) -> (r: Result<(), ()>)
        requires
            old(self).wf(),
        ensures
            final(self).wf(),
            (final(self)@, r is Ok) == step(old(self)@, TokenView::TextEnd),
    {
        let r = self.encode_text_end();
        self.try_catch(r)
    }

    /// Begin buffering a binary value.
    pub fn binary_begin(&mut self, num_bytes_hint: Option<usize>) -> (r: Result<(), ()>)
        requires
            old(self).wf(),
        ensures
            final(self).wf(),
            (final(self)@, r is Ok) == step(old(self)@, TokenView::BinaryBegin(num_bytes_hint)),
    {
        let r = self.buffering_begin(Buffering::Binary(BinaryState::Empty));
        self.try_catch(r)
    }

    /// A binary fragment borrowed for `'sval`.
    pub fn binary_fragment(&mut self, fragment: &'sval [u8]) -> (r: Result<(), ()>)
        requires
            old(self).wf(),
        ensures
            final(self).wf(),
            (final(self)@, r is Ok) == step(old(self)@, TokenView::BinaryFragment(fragment@)),
    {
        let r = self.buffering_push_binary(fragment);
        self.try_catch(r)
    }

    /// A binary fragment that is copied into the buffer.
    pub fn binary_fragment_computed(&mut self, fragment: &[u8]) -> (r: Result<(), ()>)
        requires
            old(self).wf(),
        ensures
            final(self).wf(),
            (final(self)@, r is Ok) == step(old(self)@, TokenView::BinaryFragmentComputed(fragment@)),
    {
        let r = self.encode_buffering_binary_inline(fragment);
        self.try_catch(r)
    }

    /// Finish buffering a binary value.
    pub fn binary_end(&mut self) -> (r: Result<(), ()>)
        requires
            old(self).wf(),
        ensures
            final(self).wf(),
            (final(self)@, r is Ok) == step(old(self)@, TokenView::BinaryEnd),
    {
        let r = self.encode_binary_end();
        self.try_catch(r)
    }

    /// Begin a map.
    pub fn map_begin(&mut self, num_entries_hint: Option<usize>) -> (r: Result<(), ()>)
        requires
            old(self).wf(),
        ensures
            final(self).wf(),
            (final(self)@, r is Ok) == step(old(self)@, TokenView::Begin(ContainerKind::Mapping, MetaView { tag: None, label: None, index: None }, num_entries_hint)),
    {
        let r = self.encode_container_begin(ContainerKind::Mapping, Meta::empty());
        self.try_catch(r)
    }

    /// Begin a key of a map.
    pub fn map_key_begin(&mut self) -> (r: Result<(), ()>)
        requires
            old(self).wf(),
        ensures
            final(self).wf(),
            (final(self)@, r is Ok) == step(old(self)@, TokenView::Begin(ContainerKind::MapKey, MetaView { tag: None, label: None, index: None }, None)),
    {
        let r = self.encode_entry_begin(ContainerKind::MapKey, Meta::empty());
        self.try_catch(r)
    }

    /// End a key of a map.
    pub fn map_key_end(&mut self) -> (r: Result<(), ()>)
        requires
            old(self).wf(),
        ensures
            final(self).wf(),
            (final(self)@, r is Ok) == step(old(self)@, TokenView::End(ContainerKind::MapKey, MetaView { tag: None, label: None, index: None })),
    {
        let r = self.encode_container_end();
        self.try_catch(r)
    }

    /// Begin a value of a map.
    pub fn map_value_begin(&mut self) -> (r: Result<(), ()>)
        requires
            old(self).wf(),
        ensures
            final(self).wf(),
            (final(self)@, r is Ok) == step(old(self)@, TokenView::Begin(ContainerKind::MapValue, MetaView { tag: None, label: None, index: None }, None)),
    {
        let r = self.encode_container_begin(ContainerKind::MapValue, Meta::empty());
        self.try_catch(r)
    }

    /// End a value of a map.
    pub fn map_value_end(&mut self) -> (r: Result<(), ()>)
        requires
            old(self).wf(),
        ensures
            final(self).wf(),
            (final(self)@, r is Ok) == step(old(self)@, TokenView::End(ContainerKind::MapValue, MetaView { tag: None, label: None, index: None })),
    {
        let r = self.encode_container_end();
        self.try_catch(r)
    }

    /// End a map.
    pub fn map_end(&mut self) -> (r: Result<(), ()>)
        requires
            old(self).wf(),
        ensures
            final(self).wf(),
            (final(self)@, r is Ok) == step(old(self)@, TokenView::End(ContainerKind::Mapping, MetaView { tag: None, label: None, index: None })),
    {
        let r = self.encode_container_end();
        self.try_catch(r)
    }

    /// Begin a sequence.
    pub fn seq_begin(&mut self, num_entries_hint: Option<usize>) -> (r: Result<(), ()>)
        requires
            old(self).wf(),
        ensures
            final(self).wf(),
            (final(self)@, r is Ok) == step(old(self)@, TokenView::Begin(ContainerKind::Sequence, MetaView { tag: None, label: None, index: None }, num_entries_hint)),
    {
        let r = self.encode_container_begin(ContainerKind::Sequence, Meta::empty());
        self.try_catch(r)
    }

    /// Begin a value of a sequence.
    pub fn seq_value_begin(&mut self) -> (r: Result<(), ()>)
        requires
            old(self).wf(),
        ensures
            final(self).wf(),
            (final(self)@, r is Ok) == step(old(self)@, TokenView::Begin(ContainerKind::SeqValue, MetaView { tag: None, label: None, index: None }, None)),
    {
        let r = self.encode_entry_begin(ContainerKind::SeqValue, Meta::empty());
        self.try_catch(r)
    }

    /// End a value of a sequence.
    pub fn seq_value_end(&mut self) -> (r: Result<(), ()>)
        requires
            old(self).wf(),
        ensures
            final(self).wf(),
            (final(self)@, r is Ok) == step(old(self)@, TokenView::End(ContainerKind::SeqValue, MetaView { tag: None, label: None, index: None })),
    {
        let r = self.encode_container_end();
        self.try_catch(r)
    }

    /// End a sequence.
    pub fn seq_end(&mut self) -> (r: Result<(), ()>)
        requires
            old(self).wf(),
        ensures
            final(self).wf(),
            (final(self)@, r is Ok) == step(old(self)@, TokenView::End(ContainerKind::Sequence, MetaView { tag: None, label: None, index: None })),
    {
        let r = self.encode_container_end();
        self.try_catch(r)
    }

    /// Begin an enum.
    pub fn enum_begin(&mut self, tag: Option<Tag>, label: Option<&Label>, index: Option<Index>) -> (r: Result<(), ()>)
        requires
            old(self).wf(),
        ensures
            final(self).wf(),
            (final(self)@, r is Ok) == step(old(self)@, TokenView::Begin(ContainerKind::Enum, MetaView { tag, label: label_view(label), index }, None)),
    {
        let r = self.encode_container_begin(ContainerKind::Enum, owned_meta(tag, label, index));
        self.try_catch(r)
    }

    /// End an enum.
    pub fn enum_end(&mut self, tag: Option<Tag>, label: Option<&Label>, index: Option<Index>) -> (r: Result<(), ()>)
        requires
            old(self).wf(),
        ensures
            final(self).wf(),
            (final(self)@, r is Ok) == step(old(self)@, TokenView::End(ContainerKind::Enum, MetaView { tag, label: label_view(label), index })),
    {
        let r = self.encode_container_end();
        self.try_catch(r)
    }

    /// Begin a tagged value.
    pub fn tagged_begin(&mut self, tag: Option<Tag>, label: Option<&Label>, index: Option<Index>) -> (r: Result<(), ()>)
        requires
            old(self).wf(),
        ensures
            final(self).wf(),
            (final(self)@, r is Ok) == step(old(self)@, TokenView::Begin(ContainerKind::Tagged, MetaView { tag, label: label_view(label), index }, None)),
    {
        let r = self.encode_container_begin(ContainerKind::Tagged, owned_meta(tag, label, index));
        self.try_catch(r)
    }

    /// End a tagged value.
    pub fn tagged_end(&mut self, tag: Option<Tag>, label: Option<&Label>, index: Option<Index>) -> (r: Result<(), ()>)
        requires
            old(self).wf(),
        ensures
            final(self).wf(),
            (final(self)@, r is Ok) == step(old(self)@, TokenView::End(ContainerKind::Tagged, MetaView { tag, label: label_view(label), index })),
    {
        let r = self.encode_container_end();
        self.try_catch(r)
    }

    /// Begin a record.
    pub fn record_begin(&mut self, tag: Option<Tag>, label: Option<&Label>, index: Option<Index>, num_entries_hint: Option<usize>) -> (r: Result<(), ()>)
        requires
            old(self).wf(),
        ensures
            final(self).wf(),
            (final(self)@, r is Ok) == step(old(self)@, TokenView::Begin(ContainerKind::Record, MetaView { tag, label: label_view(label), index }, num_entries_hint)),
    {
        let r = self.encode_container_begin(ContainerKind::Record, owned_meta(tag, label, index));
        self.try_catch(r)
    }

    /// Begin a field of a record.
    pub fn record_value_begin(&mut self, tag: Option<Tag>, label: &Label) -> (r: Result<(), ()>)
        requires
            old(self).wf(),
        ensures
            final(self).wf(),
            (final(self)@, r is Ok) == step(old(self)@, TokenView::Begin(ContainerKind::RecordValue, MetaView { tag, label: Some(label@), index: None }, None)),
    {
        let r = self.encode_entry_begin(ContainerKind::RecordValue, owned_meta(tag, Some(label), None));
        self.try_catch(r)
    }

    /// End a field of a record.
    pub fn record_value_end(&mut self, tag: Option<Tag>, label: &Label) -> (r: Result<(), ()>)
        requires
            old(self).wf(),
        ensures
            final(self).wf(),
            (final(self)@, r is Ok) == step(old(self)@, TokenView::End(ContainerKind::RecordValue, MetaView { tag, label: Some(label@), index: None })),
    {
        let r = self.encode_container_end();
        self.try_catch(r)
    }

    /// End a record.
    pub fn record_end(&mut self, tag: Option<Tag>, label: Option<&Label>, index: Option<Index>) -> (r: Result<(), ()>)
        requires
            old(self).wf(),
        ensures
            final(self).wf(),
            (final(self)@, r is Ok) == step(old(self)@, TokenView::End(ContainerKind::Record, MetaView { tag, label: label_view(label), index })),
    {
        let r = self.encode_container_end();
        self.try_catch(r)
    }

    /// Begin a tuple.
    pub fn tuple_begin(&mut self, tag: Option<Tag>, label: Option<&Label>, index: Option<Index>, num_entries_hint: Option<usize>) -> (r: Result<(), ()>)
        requires
            old(self).wf(),
        ensures
            final(self).wf(),
            (final(self)@, r is Ok) == step(old(self)@, TokenView::Begin(ContainerKind::Tuple, MetaView { tag, label: label_view(label), index }, num_entries_hint)),
    {
        let r = self.encode_container_begin(ContainerKind::Tuple, owned_meta(tag, label, index));
        self.try_catch(r)
    }

    /// Begin a field of a tuple.
    pub fn tuple_value_begin(&mut self, tag: Option<Tag>, index: Index) -> (r: Result<(), ()>)
        requires
            old(self).wf(),
        ensures
            final(self).wf(),
            (final(self)@, r is Ok) == step(old(self)@, TokenView::Begin(ContainerKind::TupleValue, MetaView { tag, label: None, index: Some(index) }, None)),
    {
        let r = self.encode_entry_begin(ContainerKind::TupleValue, owned_meta(tag, None, Some(index)));
        self.try_catch(r)
    }

    /// End a field of a tuple.
    pub fn tuple_value_end(&mut self, tag: Option<Tag>, index: Index) -> (r: Result<(), ()>)
        requires
            old(self).wf(),
        ensures
            final(self).wf(),
            (final(self)@, r is Ok) == step(old(self)@, TokenView::End(ContainerKind::TupleValue, MetaView { tag, label: None, index: Some(index) })),
    {
        let r = self.encode_container_end();
        self.try_catch(r)
    }

    /// End a tuple.
    pub fn tuple_end(&mut self, tag: Option<Tag>, label: Option<&Label>, index: Option<Index>) -> (r: Result<(), ()>)
        requires
            old(self).wf(),
        ensures
            final(self).wf(),
            (final(self)@, r is Ok) == step(old(self)@, TokenView::End(ContainerKind::Tuple, MetaView { tag, label: label_view(label), index })),
    {
        let r = self.encode_container_end();
        self.try_catch(r)
    }

    /// Begin a record tuple.
    pub fn record_tuple_begin(&mut self, tag: Option<Tag>, label: Option<&Label>, index: Option<Index>, num_entries_hint: Option<usize>) -> (r: Result<(), ()>)
        requires
            old(self).wf(),
        ensures
            final(self).wf(),
            (final(self)@, r is Ok) == step(old(self)@, TokenView::Begin(ContainerKind::RecordTuple, MetaView { tag, label: label_view(label), index }, num_entries_hint)),
    {
        let r = self.encode_container_begin(ContainerKind::RecordTuple, owned_meta(tag, label, index));
        self.try_catch(r)
    }

    /// Begin a field of a record tuple.
    pub fn record_tuple_value_begin(&mut self, tag: Option<Tag>, label: &Label, index: Index) -> (r: Result<(), ()>)
        requires
            old(self).wf(),
        ensures
            final(self).wf(),
            (final(self)@, r is Ok) == step(old(self)@, TokenView::Begin(ContainerKind::RecordTupleValue, MetaView { tag, label: Some(label@), index: Some(index) }, None)),
    {
        let r = self.encode_entry_begin(ContainerKind::RecordTupleValue, owned_meta(tag, Some(label), Some(index)));
        self.try_catch(r)
    }

    /// End a field of a record tuple.
    pub fn record_tuple_value_end(&mut self, tag: Option<Tag>, label: &Label, index: Index) -> (r: Result<(), ()>)
        requires
            old(self).wf(),
        ensures
            final(self).wf(),
            (final(self)@, r is Ok) == step(old(self)@, TokenView::End(ContainerKind::RecordTupleValue, MetaView { tag, label: Some(label@), index: Some(index) })),
    {
        let r = self.encode_container_end();
        self.try_catch(r)
    }

    /// End a record tuple.
    pub fn record_tuple_end(&mut self, tag: Option<Tag>, label: Option<&Label>, index: Option<Index>) -> (r: Result<(), ()>)
        requires
            old(self).wf(),
        ensures
            final(self).wf(),
            (final(self)@, r is Ok) == step(old(self)@, TokenView::End(ContainerKind::RecordTuple, MetaView { tag, label: label_view(label), index })),
    {
        let r = self.encode_container_end();
        self.try_catch(r)
    }

    /// A tag on its own.
    pub fn tag(&mut self, tag: Option<Tag>, label: Option<&Label>, index: Option<Index>) -> (r: Result<(), ()>)
        requires
            old(self).wf(),
        ensures
            final(self).wf(),
            (final(self)@, r is Ok) == step(old(self)@, TokenView::Tag(MetaView { tag, label: label_view(label), index })),
    {
        let r = self.encode_value(Part::Tag(owned_meta(tag, label, index)));
        self.try_catch(r)
    }

    /// A hint about the value that follows; discarded inside text or binary.
    pub fn tag_hint(&mut self, tag: Tag) -> (r: Result<(), ()>)
        requires
            old(self).wf(),
        ensures
            final(self).wf(),
            (final(self)@, r is Ok) == step(old(self)@, TokenView::TagHint(tag)),
    {
        let r = self.encode_value_discard(Part::TagHint(tag));
        self.try_catch(r)
    }
}

impl<'sval> ValueBuf<'sval> {
    /// Stream a single token into the buffer.
    pub fn stream_token(&mut self, t: &Token<'sval>) -> (r: Result<(), ()>)
        requires
            old(self).wf(),
        ensures
            final(self).wf(),
            (final(self)@, r is Ok) == step(old(self)@, t@),
    {
        let r = match t {
            Token::Scalar(s) => self.encode_value(Part::Scalar(*s)),
            Token::TextBegin(_) => self.buffering_begin(Buffering::Text(TextState::Empty)),
            Token::TextFragment(f) => self.buffering_push_text(f),
            Token::TextFragmentComputed(f) => self.encode_buffering_text_inline(f.as_str()),
            Token::TextEnd => self.encode_text_end(),
            Token::BinaryBegin(_) => self.buffering_begin(Buffering::Binary(BinaryState::Empty)),
            Token::BinaryFragment(f) => self.buffering_push_binary(f),
            Token::BinaryFragmentComputed(f) => self.encode_buffering_binary_inline(f.as_slice()),
            Token::BinaryEnd => self.encode_binary_end(),
            Token::Tag(m) => self.encode_value(Part::Tag(m.to_owned())),
            Token::TagHint(t) => self.encode_value_discard(Part::TagHint(*t)),
            Token::Begin(k, m, _) => {
                let meta = m.to_owned_for(*k);
                if k.entry() {
                    self.encode_entry_begin(*k, meta)
                } else {
                    self.encode_container_begin(*k, meta)
                }
            },
            Token::End(_, _) => self.encode_container_end(),
        };
        self.try_catch(r)
    }

    /// Stream tokens into the buffer one after another, stopping at the first failure.
    pub fn stream_tokens(&mut self, ts: &[Token<'sval>]) -> (r: Result<(), ()>)
        requires
            old(self).wf(),
        ensures
            final(self).wf(),
            (final(self)@, r is Ok) == run(old(self)@, tokens_view(ts@)),
    {
        let ghost all = tokens_view(ts@);
        let ghost start = self@;
        let mut i: usize = 0;
        assert(all.skip(0) =~= all);
        while i < ts.len()
            invariant
                self.wf(),
                i <= ts.len(),
                all == tokens_view(ts@),
                start == old(self)@,
                run(start, all) == run(self@, all.skip(i as int)),
            decreases ts.len() - i,
        {
            let ghost before = self@;
            assert(all.skip(i as int)[0] == ts@[i as int]@);
            assert(all.skip(i as int).drop_first() =~= all.skip(i + 1));
            let r = self.stream_token(&ts[i]);
            assert(run(before, all.skip(i as int)) == (if r is Ok {
                run(self@, all.skip(i + 1))
            } else {
                (self@, false)
            }));
            if r.is_err() {
                return Err(());
            }
            i = i + 1;
        }
        Ok(())
    }

    /**
    Buffer a streamed value.

    Fails with the error that stopped buffering.
    */
    pub fn collect(v: &[Token<'sval>]) -> (r: Result<Self, Error>)
        ensures
            match r {
                Ok(buf) => buf.wf() && run(empty_buf(), tokens_view(v@)) == (buf@, true),
                Err(e) => {
                    let (b, ok) = run(empty_buf(), tokens_view(v@));
                    !ok && b.err == Some(e)
                },
            },
    {
        let mut buf = ValueBuf::new();
        match buf.stream_tokens(v) {
            Ok(()) => Ok(buf),
            Err(()) => {
                proof {
                    lemma_run_failure_records_error(empty_buf(), tokens_view(v@));
                }
                match buf.into_err() {
                    Some(e) => Err(e),
                    None => Err(Error::invalid_value("the value itself failed to stream")),
                }
            },
        }
    }
}

/// A run that fails records the error that stopped it.
pub proof fn lemma_run_failure_records_error(b: ValueBufView, ts: Seq<TokenView>)
    ensures
        !run(b, ts).1 ==> run(b, ts).0.err is Some,
    decreases ts.len(),
{
    if ts.len() > 0 {
        let (b1, ok) = step(b, ts[0]);
        if ok {
            lemma_run_failure_records_error(b1, ts.drop_first());
        }
    }
}

impl<'sval> ValueBuf<'sval> {
    /**
    Get an independent immutable value from this buffer.
    */
    pub fn to_value(&self) -> (v: Value<'sval>)
        requires
            self.wf(),
        ensures
            v.wf(),
            v@ == self@.parts,
    {
        Value { parts: self.parts.duplicate() }
    }

    /**
    Convert this buffer into an immutable value.
    */
    pub fn into_value(self) -> (v: Value<'sval>)
        requires
            self.wf(),
        ensures
            v.wf(),
            v@ == self@.parts,
    {
        Value { parts: self.parts }
    }

    /**
    Copy in any borrowed data, returning a buffer that doesn't borrow anything.

    Open containers stay open, but text or binary being buffered is dropped.
    */
    pub fn into_owned(self) -> (r: Result<ValueBuf<'static>, Error>)
        requires
            self.wf(),
        ensures
            r matches Ok(b) && b.wf() && b@ == (ValueBufView {
                parts: owned_parts(self@.parts),
                buffering: BufferingView::Value,
                ..self@
            }),
    {
        let ValueBuf { parts, stack, buffering: _, err } = self;
        let ghost ps = parts@;
        let parts = parts.into_owned();
        let b = ValueBuf { parts, stack, buffering: Buffering::Value, err };
        proof {
            assert forall|k: int| 0 <= k < b@.stack.len() implies {
                let f = #[trigger] b@.stack[k];
                &&& f.len_at < b@.parts.len()
                &&& b@.parts[f.len_at as int] is Container
                &&& f.len_at + f.entries < b@.parts.len()
            } by {
                let f = b@.stack[k];
                assert(ps[f.len_at as int] is Container);
            }
        }
        Ok(b)
    }

    /// The tokens this buffer streams as.
    pub fn to_tokens(&self) -> (ts: Vec<Token<'sval>>)
        ensures
            tokens_view(ts@) == decode(self@.parts),
    {
        decode_parts(&self.parts)
    }
}

impl ValueBuf<'static> {
    /**
    Fully buffer a value, copying in any borrowed data: every fragment is
    buffered as a computed one.
    */
    pub fn collect_owned(v: &[Token<'_>]) -> (r: Result<Self, Error>)
        ensures
            match r {
                Ok(buf) => buf.wf() && run(empty_buf(), computed_tokens(tokens_view(v@))) == (buf@, true),
                Err(e) => {
                    let (b, ok) = run(empty_buf(), computed_tokens(tokens_view(v@)));
                    !ok && b.err == Some(e)
                },
            },
    {
        let computed = to_computed_tokens(v);
        ValueBuf::collect(computed.as_slice())
    }
}

/**
An immutable buffered value.
*/
#[derive(Debug)]
pub struct Value<'sval> {
    parts: Parts<'sval>,
}

impl<'sval> View for Value<'sval> {
    type V = Seq<PartView>;

    closed spec fn view(&self) -> Seq<PartView> {
        self.parts@
    }
}

impl<'sval> Value<'sval> {
    pub closed spec fn wf(&self) -> bool {
        self.parts.wf()
    }

    /**
    Buffer a streamed value.
    */
    pub fn collect(v: &[Token<'sval>]) -> (r: Result<Self, Error>)
        ensures
            match r {
                Ok(val) => {
                    let (b, ok) = run(empty_buf(), tokens_view(v@));
                    val.wf() && ok && val@ == b.parts
                },
                Err(e) => {
                    let (b, ok) = run(empty_buf(), tokens_view(v@));
                    !ok && b.err == Some(e)
                },
            },
    {
        match ValueBuf::collect(v) {
            Ok(buf) => Ok(buf.into_value()),
            Err(e) => Err(e),
        }
    }

    /**
    Copy in any borrowed data.
    */
    pub fn into_owned(self) -> (r: Result<Value<'static>, Error>)
        requires
            self.wf(),
        ensures
            r matches Ok(v) && v.wf() && v@ == owned_parts(self@),
    {
        Ok(Value { parts: self.parts.into_owned() })
    }

    /// The parts of the value.
    pub fn parts(&self) -> (p: &Parts<'sval>)
        ensures
            p@ == self@,
    {
        &self.parts
    }

    /// The tokens this value streams as.
    pub fn to_tokens(&self) -> (ts: Vec<Token<'sval>>)
        ensures
            tokens_view(ts@) == decode(self@),
    {
        decode_parts(&self.parts)
    }
}

impl Value<'static> {
    /**
    Fully buffer a value, copying in any borrowed data.
    */
    pub fn collect_owned(v: &[Token<'_>]) -> (r: Result<Self, Error>)
        ensures
            match r {
                Ok(val) => {
                    let (b, ok) = run(empty_buf(), computed_tokens(tokens_view(v@)));
                    val.wf() && ok && val@ == b.parts
                },
                Err(e) => {
                    let (b, ok) = run(empty_buf(), computed_tokens(tokens_view(v@)));
                    !ok && b.err == Some(e)
                },
            },
    {
        match ValueBuf::collect_owned(v) {
            Ok(buf) => Ok(buf.into_value()),
            Err(e) => Err(e),
        }
    }
}

/**
Buffer a value.
*/
pub fn stream_to_value<'sval>(v: &[Token<'sval>]) -> (r: Result<ValueBuf<'sval>, Error>)
    ensures
        match r {
            Ok(buf) => buf.wf() && run(empty_buf(), tokens_view(v@)) == (buf@, true),
            Err(e) => {
                let (b, ok) = run(empty_buf(), tokens_view(v@));
                !ok && b.err == Some(e)
            },
        },
{
    ValueBuf::collect(v)
}

/**
Buffer an owned value.
*/
pub fn stream_to_value_owned(v: &[Token<'_>]) -> (r: Result<ValueBuf<'static>, Error>)
    ensures
        match r {
            Ok(buf) => buf.wf() && run(empty_buf(), computed_tokens(tokens_view(v@))) == (buf@, true),
            Err(e) => {
                let (b, ok) = run(empty_buf(), computed_tokens(tokens_view(v@)));
                !ok && b.err == Some(e)
            },
        },
{
    ValueBuf::collect_owned(v)
}

/// The view of an optional label.
pub open spec fn label_view(label: Option<&Label>) -> Option<crate::data::LabelView> {
    match label {
        Some(l) => Some(l@),
        None => None,
    }
}

/// Metadata that owns its label.
pub fn owned_meta(tag: Option<Tag>, label: Option<&Label>, index: Option<Index>) -> (m: Meta<'static>)
    ensures
        m@ == (MetaView { tag, label: label_view(label), index }),
{
    let label = match label {
        Some(l) => Some(l.to_owned()),
        None => None,
    };
    Meta { tag, label, index }
}

} // verus!
