//! A streamed value as plain data: one token for each call a value makes
//! on the stream it is written into.
use vstd::prelude::*;

use crate::data::{ContainerKind, Meta, MetaView, Tag};

verus! {

/// A primitive value.
///
/// Floating point numbers are carried by their IEEE 754 bit patterns.
#[derive(Debug, Clone, Copy)]
pub enum Scalar {
    Null,
    Bool(bool),
    U8(u8),
    U16(u16),
    U32(u32),
    U64(u64),
    U128(u128),
    I8(i8),
    I16(i16),
    I32(i32),
    I64(i64),
    I128(i128),
    F32(u32),
    F64(u64),
}

/// One call made on a stream.
#[derive(Debug)]
pub enum Token<'sval> {
    Scalar(Scalar),
    TextBegin(Option<usize>),
    /// A text fragment borrowed for the lifetime of the value.
    TextFragment(&'sval str),
    /// A text fragment that only lives for the call.
    TextFragmentComputed(String),
    TextEnd,
    BinaryBegin(Option<usize>),
    BinaryFragment(&'sval [u8]),
    BinaryFragmentComputed(Vec<u8>),
    BinaryEnd,
    Tag(Meta<'sval>),
    TagHint(Tag),
    /// The start of a container, with a hint for its number of entries.
    Begin(ContainerKind, Meta<'sval>, Option<usize>),
    End(ContainerKind, Meta<'sval>),
}

pub enum TokenView {
    Scalar(Scalar),
    TextBegin(Option<usize>),
    TextFragment(Seq<char>),
    TextFragmentComputed(Seq<char>),
    TextEnd,
    BinaryBegin(Option<usize>),
    BinaryFragment(Seq<u8>),
    BinaryFragmentComputed(Seq<u8>),
    BinaryEnd,
    Tag(MetaView),
    TagHint(Tag),
    Begin(ContainerKind, MetaView, Option<usize>),
    End(ContainerKind, MetaView),
}

impl<'sval> View for Token<'sval> {
    type V = TokenView;

    open spec fn view(&self) -> TokenView {
        match self {
            Token::Scalar(s) => TokenView::Scalar(*s),
            Token::TextBegin(h) => TokenView::TextBegin(*h),
            Token::TextFragment(s) => TokenView::TextFragment(s@),
            Token::TextFragmentComputed(s) => TokenView::TextFragmentComputed(s@),
            Token::TextEnd => TokenView::TextEnd,
            Token::BinaryBegin(h) => TokenView::BinaryBegin(*h),
            Token::BinaryFragment(b) => TokenView::BinaryFragment(b@),
            Token::BinaryFragmentComputed(b) => TokenView::BinaryFragmentComputed(b@),
            Token::BinaryEnd => TokenView::BinaryEnd,
            Token::Tag(m) => TokenView::Tag(m@),
            Token::TagHint(t) => TokenView::TagHint(*t),
            Token::Begin(k, m, h) => TokenView::Begin(*k, m@, *h),
            Token::End(k, m) => TokenView::End(*k, m@),
        }
    }
}

/// The views of a sequence of tokens.
pub open spec fn tokens_view<'sval>(ts: Seq<Token<'sval>>) -> Seq<TokenView> {
    Seq::new(ts.len(), |i: int| ts[i]@)
}

/// A token with its fragments turned into computed ones: what a stream
/// sees of a value that is only borrowed for the call.
pub open spec fn computed_token(t: TokenView) -> TokenView {
    match t {
        TokenView::TextFragment(s) => TokenView::TextFragmentComputed(s),
        TokenView::BinaryFragment(b) => TokenView::BinaryFragmentComputed(b),
        _ => t,
    }
}

pub open spec fn computed_tokens(ts: Seq<TokenView>) -> Seq<TokenView> {
    Seq::new(ts.len(), |i: int| computed_token(ts[i]))
}

impl<'sval> Token<'sval> {
    /// This token, owning everything it holds, with its fragment, if any,
    /// turned into a computed one.
    pub fn to_computed(&self) -> (t: Token<'static>)
        ensures
            t@ == computed_token(self@),
    {
        match self {
            Token::Scalar(s) => Token::Scalar(*s),
            Token::TextBegin(h) => Token::TextBegin(*h),
            Token::TextFragment(s) => Token::TextFragmentComputed((*s).to_owned()),
            Token::TextFragmentComputed(s) => Token::TextFragmentComputed(s.clone()),
            Token::TextEnd => Token::TextEnd,
            Token::BinaryBegin(h) => Token::BinaryBegin(*h),
            Token::BinaryFragment(b) => Token::BinaryFragmentComputed(vstd::slice::slice_to_vec(b)),
            Token::BinaryFragmentComputed(b) => Token::BinaryFragmentComputed(
                vstd::slice::slice_to_vec(b.as_slice()),
            ),
            Token::BinaryEnd => Token::BinaryEnd,
            Token::Tag(m) => Token::Tag(m.to_owned()),
            Token::TagHint(t) => Token::TagHint(*t),
            Token::Begin(k, m, h) => Token::Begin(*k, m.to_owned(), *h),
            Token::End(k, m) => Token::End(*k, m.to_owned()),
        }
    }
}

/// The tokens, owning everything they hold, with fragments turned into computed ones.
pub fn to_computed_tokens<'a>(ts: &[Token<'a>]) -> (out: Vec<Token<'static>>)
    ensures
        tokens_view(out@) == computed_tokens(tokens_view(ts@)),
{
    let mut out: Vec<Token<'static>> = Vec::new();
    let mut i: usize = 0;
    while i < ts.len()
        invariant
            i <= ts@.len(),
            out@.len() == i,
            forall|j: int| 0 <= j < i ==> (#[trigger] out@[j])@ == computed_token(ts@[j]@),
        decreases ts@.len() - i,
    {
        out.push(ts[i].to_computed());
        i = i + 1;
    }
    assert(tokens_view(out@) =~= computed_tokens(tokens_view(ts@)));
    out
}

} // verus!
