//! Buffers that join text or binary fragments into one contiguous value.
use vstd::prelude::*;
use vstd::slice::slice_to_vec;

use crate::data::{option_none_text, ContainerKind, Tag};
use crate::error::{Error, ErrorKind};
use crate::token::{tokens_view, Scalar, Token, TokenView};
use crate::value::part::text_size;
use crate::number::{fits_i64, fits_i64_exec, scalar_decimal, scalar_text};

verus! {

/// What a text or binary collector sees of a token once the stream's
/// defaults have forwarded it to the base data model.
pub enum BaseCall {
    Null,
    Bool,
    Integer,
    Float,
    /// An integer too wide for 64 signed bits, which reaches the text calls
    /// as its decimal text.
    WideInteger,
    /// A tag with a label, which reaches the text calls as its label.
    LabelText,
    TextBegin,
    TextFragment,
    TextEnd,
    BinaryBegin,
    BinaryFragment,
    BinaryEnd,
    Sequence,
    Ignored,
}

/// Whether a tag is the tag of Rust's `Option::None`.
pub open spec fn tag_is_option_none(tag: Option<Tag>) -> bool {
    tag matches Some(t) && t.data@ == option_none_text()
}

/// The base call a token reaches: integers are forwarded to the integer
/// call, or as computed decimal text when they don't fit in 64 signed bits,
/// floats to the floating point call, structured containers to
/// sequences; enums, tagged values and tag hints are transparent; tags
/// reach the text calls with their label, or the null call where they
/// have none or are the tag of `Option::None`.
pub open spec fn base_call(t: TokenView) -> BaseCall {
    match t {
        TokenView::Scalar(s) => match s {
            Scalar::Null => BaseCall::Null,
            Scalar::Bool(_) => BaseCall::Bool,
            Scalar::F32(_) | Scalar::F64(_) => BaseCall::Float,
            _ => if fits_i64(s) { BaseCall::Integer } else { BaseCall::WideInteger },
        },
        TokenView::TextBegin(_) => BaseCall::TextBegin,
        TokenView::TextFragment(_) | TokenView::TextFragmentComputed(_) => BaseCall::TextFragment,
        TokenView::TextEnd => BaseCall::TextEnd,
        TokenView::BinaryBegin(_) => BaseCall::BinaryBegin,
        TokenView::BinaryFragment(_) | TokenView::BinaryFragmentComputed(_) => BaseCall::BinaryFragment,
        TokenView::BinaryEnd => BaseCall::BinaryEnd,
        TokenView::Tag(m) => if tag_is_option_none(m.tag) || m.label is None {
            BaseCall::Null
        } else {
            BaseCall::LabelText
        },
        TokenView::TagHint(_) => BaseCall::Ignored,
        TokenView::Begin(k, _, _) | TokenView::End(k, _) => match k {
            ContainerKind::Enum | ContainerKind::Tagged => BaseCall::Ignored,
            _ => BaseCall::Sequence,
        },
    }
}

fn base_call_of(t: &Token) -> (c: BaseCall)
    ensures
        c == base_call(t@),
{
    match t {
        Token::Scalar(s) => match s {
            Scalar::Null => BaseCall::Null,
            Scalar::Bool(_) => BaseCall::Bool,
            Scalar::F32(_) | Scalar::F64(_) => BaseCall::Float,
            _ => if fits_i64_exec(*s) { BaseCall::Integer } else { BaseCall::WideInteger },
        },
        Token::TextBegin(_) => BaseCall::TextBegin,
        Token::TextFragment(_) | Token::TextFragmentComputed(_) => BaseCall::TextFragment,
        Token::TextEnd => BaseCall::TextEnd,
        Token::BinaryBegin(_) => BaseCall::BinaryBegin,
        Token::BinaryFragment(_) | Token::BinaryFragmentComputed(_) => BaseCall::BinaryFragment,
        Token::BinaryEnd => BaseCall::BinaryEnd,
        Token::Tag(m) => {
            let none = match &m.tag {
                Some(t) => t.is_option_none(),
                None => false,
            };
            if none || m.label.is_none() {
                BaseCall::Null
            } else {
                BaseCall::LabelText
            }
        },
        Token::TagHint(_) => BaseCall::Ignored,
        Token::Begin(k, _, _) | Token::End(k, _) => match k {
            ContainerKind::Enum | ContainerKind::Tagged => BaseCall::Ignored,
            _ => BaseCall::Sequence,
        },
    }
}

/// The text of a fragment buffer: either a single borrowed fragment, or
/// an owned copy of all fragments pushed so far.
#[derive(Debug, Clone)]
enum TextFragments<'sval> {
    Borrowed(&'sval str),
    Owned(String),
}

/// The contents of a text buffer.
pub struct TextBufView {
    pub text: Seq<char>,
    /// Whether the whole text is borrowed for `'sval`.
    pub borrowed: bool,
}

/**
Buffer text fragments into a single contiguous string.
*/
#[derive(Debug, Clone)]
pub struct TextBuf<'sval>(TextFragments<'sval>);

impl<'sval> View for TextBuf<'sval> {
    type V = TextBufView;

    closed spec fn view(&self) -> TextBufView {
        match &self.0 {
            TextFragments::Borrowed(s) => TextBufView { text: s@, borrowed: true },
            TextFragments::Owned(s) => TextBufView { text: s@, borrowed: false },
        }
    }
}

/// The text buffer after pushing a fragment that lives for `'sval`: an
/// empty buffer takes the fragment as is, otherwise it is copied in.
pub open spec fn text_pushed(b: TextBufView, fragment: Seq<char>) -> TextBufView {
    if b.text.len() == 0 {
        TextBufView { text: fragment, borrowed: true }
    } else {
        TextBufView { text: b.text + fragment, borrowed: false }
    }
}

/// The result of a text collector that has seen `b` so far receiving `t`.
pub open spec fn text_collect_step(b: TextBufView, t: TokenView) -> Result<TextBufView, Error> {
    match base_call(t) {
        BaseCall::TextBegin | BaseCall::TextEnd | BaseCall::Ignored => Ok(b),
        BaseCall::TextFragment => match t {
            TokenView::TextFragment(f) => Ok(text_pushed(b, f)),
            TokenView::TextFragmentComputed(f) => Ok(TextBufView { text: b.text + f, borrowed: false }),
            _ => Ok(b),
        },
        BaseCall::WideInteger => match t {
            TokenView::Scalar(s) => Ok(TextBufView { text: b.text + scalar_text(s), borrowed: false }),
            _ => Ok(b),
        },
        BaseCall::LabelText => match t {
            TokenView::Tag(m) => match m.label {
                Some(l) => if l.is_static {
                    Ok(text_pushed(b, l.text))
                } else {
                    Ok(TextBufView { text: b.text + l.text, borrowed: false })
                },
                None => Ok(b),
            },
            _ => Ok(b),
        },
        BaseCall::Null => Err(Error(ErrorKind::Unsupported { actual: "null", expected: "text" })),
        BaseCall::Bool => Err(Error(ErrorKind::Unsupported { actual: "boolean", expected: "text" })),
        BaseCall::Integer => Err(Error(ErrorKind::Unsupported { actual: "integer", expected: "text" })),
        BaseCall::Float => Err(Error(ErrorKind::Unsupported { actual: "floating point", expected: "text" })),
        _ => Err(Error(ErrorKind::Unsupported { actual: "sequence", expected: "text" })),
    }
}

/// Collecting the tokens `ts` into text, starting from `b` and stopping
/// at the first failure.
pub open spec fn text_collect(b: TextBufView, ts: Seq<TokenView>) -> Result<TextBufView, Error>
    decreases ts.len(),
{
    if ts.len() == 0 {
        Ok(b)
    } else {
        match text_collect_step(b, ts[0]) {
            Ok(b2) => text_collect(b2, ts.drop_first()),
            Err(e) => Err(e),
        }
    }
}

impl<'sval> TextBuf<'sval> {
    /**
    Create a new empty text buffer.
    */
    pub fn new() -> (b: Self)
        ensures
            b@ == (TextBufView { text: Seq::empty(), borrowed: true }),
    {
        proof {
            reveal_strlit("");
            assert(""@ =~= Seq::<char>::empty());
        }
        TextBuf(TextFragments::Borrowed(""))
    }

    /// A text buffer holding a single borrowed fragment.
    pub fn from_str(fragment: &'sval str) -> (b: Self)
        ensures
            b@ == (TextBufView { text: fragment@, borrowed: true }),
    {
        TextBuf(TextFragments::Borrowed(fragment))
    }

    /**
    Buffer a streamed text value into a contiguous string.

    Text fragments are joined; text delimiters, enum and tagged wrappers,
    and tag hints pass through; any other token fails the collection.
    */
    pub fn collect(value: &[Token<'sval>]) -> (r: Result<Self, Error>)
        ensures
            text_collect(TextBufView { text: Seq::empty(), borrowed: true },
                crate::token::tokens_view(value@)) == match r {
                Ok(b) => Ok::<TextBufView, Error>(b@),
                Err(e) => Err(e),
            },
    {
        let mut buf = TextBuf::new();
        let mut i: usize = 0;
        let ghost init = TextBufView { text: Seq::empty(), borrowed: true };
        let ghost ts = crate::token::tokens_view(value@);
        assert(ts.skip(0) =~= ts);
        while i < value.len()
            invariant
                i <= value.len(),
                ts == crate::token::tokens_view(value@),
                init == (TextBufView { text: Seq::empty(), borrowed: true }),
                text_collect(init, ts) == text_collect(buf@, ts.skip(i as int)),
            decreases value.len() - i,
        {
            let t = &value[i];
            let ghost old_buf = buf@;
            assert(ts.skip(i as int)[0] == t@);
            assert(ts.skip(i as int).drop_first() =~= ts.skip(i + 1));
            assert(text_collect(buf@, ts.skip(i as int)) == match text_collect_step(buf@, t@) {
                Ok(b2) => text_collect(b2, ts.skip(i + 1)),
                Err(e) => Err(e),
            });
            let step: Result<(), Error> = match base_call_of(t) {
                BaseCall::TextBegin | BaseCall::TextEnd | BaseCall::Ignored => Ok(()),
                BaseCall::TextFragment => match t {
                    Token::TextFragment(f) => buf.push_fragment(f),
                    Token::TextFragmentComputed(f) => buf.push_fragment_computed(f.as_str()),
                    _ => Ok(()),
                },
                BaseCall::WideInteger => match t {
                    Token::Scalar(s) => {
                        let text = scalar_decimal(*s);
                        buf.push_fragment_computed(text.as_str())
                    },
                    _ => Ok(()),
                },
                BaseCall::LabelText => match t {
                    Token::Tag(m) => match &m.label {
                        Some(l) => match l.as_static_str() {
                            Some(text) => buf.push_fragment(text),
                            None => buf.push_fragment_computed(l.as_str()),
                        },
                        None => Ok(()),
                    },
                    _ => Ok(()),
                },
                BaseCall::Null => Err(Error::unsupported("text", "null")),
                BaseCall::Bool => Err(Error::unsupported("text", "boolean")),
                BaseCall::Integer => Err(Error::unsupported("text", "integer")),
                BaseCall::Float => Err(Error::unsupported("text", "floating point")),
                _ => Err(Error::unsupported("text", "sequence")),
            };
            if let Err(e) = step {
                assert(text_collect_step(old_buf, t@) == Err::<TextBufView, Error>(e));
                return Err(e);
            }
            assert(text_collect_step(old_buf, t@) == Ok::<TextBufView, Error>(buf@));
            i = i + 1;
        }
        Ok(buf)
    }

    /**
    Clear the text buffer so it can be re-used.
    */
    pub fn clear(&mut self)
        ensures
            final(self)@ == (TextBufView { text: Seq::empty(), borrowed: true }),
    {
        *self = TextBuf::new();
    }

    /**
    Push a borrowed text fragment onto the buffer.

    An empty buffer keeps the fragment borrowed; otherwise it is copied.
    */
    pub fn push_fragment(&mut self, fragment: &'sval str) -> (r: Result<(), Error>)
        ensures
            r is Ok,
            final(self)@ == text_pushed(old(self)@, fragment@),
    {
        if self.as_str().is_empty() {
            self.0 = TextFragments::Borrowed(fragment);
            Ok(())
        } else {
            self.push_fragment_computed(fragment)
        }
    }

    /**
    Push a computed text fragment onto the buffer, copying it.
    */
    pub fn push_fragment_computed(&mut self, fragment: &str) -> (r: Result<(), Error>)
        ensures
            r is Ok,
            final(self)@ == (TextBufView { text: old(self)@.text + fragment@, borrowed: false }),
    {
        let mut owned = match &self.0 {
            TextFragments::Borrowed(s) => (*s).to_owned(),
            TextFragments::Owned(s) => s.clone(),
        };
        owned.append(fragment);
        self.0 = TextFragments::Owned(owned);
        Ok(())
    }

    /**
    Try get the contents of the buffer as a string borrowed for the `'sval` lifetime.
    */
    pub fn as_borrowed_str(&self) -> (s: Option<&'sval str>)
        ensures
            s is Some <==> self@.borrowed,
            s matches Some(s) ==> s@ == self@.text,
    {
        match &self.0 {
            TextFragments::Borrowed(s) => Some(*s),
            TextFragments::Owned(_) => None,
        }
    }

    /**
    Get the contents of the buffer as a string.
    */
    pub fn as_str(&self) -> (s: &str)
        ensures
            s@ == self@.text,
    {
        match &self.0 {
            TextFragments::Borrowed(s) => s,
            TextFragments::Owned(s) => s.as_str(),
        }
    }
}


/// The tokens a text value streams as: its length in bytes, then its text
/// as a single fragment, borrowed or computed.
pub open spec fn text_tokens(text: Seq<char>, borrowed: bool) -> Seq<TokenView> {
    seq![
        TokenView::TextBegin(Some(text_size(text))),
        if borrowed { TokenView::TextFragment(text) } else { TokenView::TextFragmentComputed(text) },
        TokenView::TextEnd,
    ]
}

impl<'sval> TextBuf<'sval> {
    /// Stream the text as a value borrowed from the buffer.
    pub fn stream<'a>(&'a self) -> (ts: Vec<Token<'a>>)
        ensures
            tokens_view(ts@) == text_tokens(self@.text, true),
    {
        let s = self.as_str();
        let mut ts: Vec<Token<'a>> = Vec::new();
        ts.push(Token::TextBegin(Some(s.len())));
        ts.push(Token::TextFragment(s));
        ts.push(Token::TextEnd);
        assert(tokens_view(ts@) =~= text_tokens(self@.text, true));
        ts
    }

    /// Stream the text for `'sval`: borrowed if the buffer borrows it,
    /// computed otherwise.
    pub fn stream_ref(&self) -> (ts: Vec<Token<'sval>>)
        ensures
            tokens_view(ts@) == text_tokens(self@.text, self@.borrowed),
    {
        let mut ts: Vec<Token<'sval>> = Vec::new();
        match self.as_borrowed_str() {
            Some(v) => {
                ts.push(Token::TextBegin(Some(v.len())));
                ts.push(Token::TextFragment(v));
            },
            None => {
                let s = self.as_str();
                ts.push(Token::TextBegin(Some(s.len())));
                ts.push(Token::TextFragmentComputed(s.to_owned()));
            },
        }
        ts.push(Token::TextEnd);
        assert(tokens_view(ts@) =~= text_tokens(self@.text, self@.borrowed));
        ts
    }
}

impl<'sval> Default for TextBuf<'sval> {
    fn default() -> (b: Self)
        ensures
            b@ == (TextBufView { text: Seq::empty(), borrowed: true }),
    {
        TextBuf::new()
    }
}

impl<'sval> From<&'sval str> for TextBuf<'sval> {
    fn from(fragment: &'sval str) -> (b: Self) {
        TextBuf(TextFragments::Borrowed(fragment))
    }
}

impl<'sval> vstd::std_specs::convert::FromSpecImpl<&'sval str> for TextBuf<'sval> {
    open spec fn obeys_from_spec() -> bool {
        true
    }

    closed spec fn from_spec(v: &'sval str) -> Self {
        TextBuf(TextFragments::Borrowed(v))
    }
}

/// A text buffer made from a string borrows the string.
pub proof fn lemma_text_buf_from(v: &str)
    ensures
        <TextBuf as vstd::std_specs::convert::FromSpec<&str>>::from_spec(v)@
            == (TextBufView { text: v@, borrowed: true }),
{
}


/// The bytes of a fragment buffer: either a single borrowed fragment, or
/// an owned copy of all fragments pushed so far.
#[derive(Debug, Clone)]
enum BinaryFragments<'sval> {
    Borrowed(&'sval [u8]),
    Owned(Vec<u8>),
}

/// The contents of a binary buffer.
pub struct BinaryBufView {
    pub bytes: Seq<u8>,
    /// Whether the whole value is borrowed for `'sval`.
    pub borrowed: bool,
}

/**
Buffer binary fragments into a single contiguous slice.
*/
#[derive(Debug, Clone)]
pub struct BinaryBuf<'sval>(BinaryFragments<'sval>);

impl<'sval> View for BinaryBuf<'sval> {
    type V = BinaryBufView;

    closed spec fn view(&self) -> BinaryBufView {
        match &self.0 {
            BinaryFragments::Borrowed(s) => BinaryBufView { bytes: s@, borrowed: true },
            BinaryFragments::Owned(s) => BinaryBufView { bytes: s@, borrowed: false },
        }
    }
}

/// The binary buffer after pushing a fragment that lives for `'sval`: an
/// empty buffer takes the fragment as is, otherwise it is copied in.
pub open spec fn binary_pushed(b: BinaryBufView, fragment: Seq<u8>) -> BinaryBufView {
    if b.bytes.len() == 0 {
        BinaryBufView { bytes: fragment, borrowed: true }
    } else {
        BinaryBufView { bytes: b.bytes + fragment, borrowed: false }
    }
}

/// The result of a binary collector that has seen `b` so far receiving `t`.
pub open spec fn binary_collect_step(b: BinaryBufView, t: TokenView) -> Result<BinaryBufView, Error> {
    match base_call(t) {
        BaseCall::BinaryBegin | BaseCall::BinaryEnd | BaseCall::Ignored => Ok(b),
        BaseCall::BinaryFragment => match t {
            TokenView::BinaryFragment(f) => Ok(binary_pushed(b, f)),
            TokenView::BinaryFragmentComputed(f) => Ok(BinaryBufView { bytes: b.bytes + f, borrowed: false }),
            _ => Ok(b),
        },
        BaseCall::TextBegin | BaseCall::TextFragment | BaseCall::TextEnd | BaseCall::WideInteger
        | BaseCall::LabelText => Err(Error(ErrorKind::Unsupported { actual: "text", expected: "binary" })),
        BaseCall::Null => Err(Error(ErrorKind::Unsupported { actual: "null", expected: "binary" })),
        BaseCall::Bool => Err(Error(ErrorKind::Unsupported { actual: "boolean", expected: "binary" })),
        BaseCall::Integer => Err(Error(ErrorKind::Unsupported { actual: "integer", expected: "binary" })),
        BaseCall::Float => Err(Error(ErrorKind::Unsupported { actual: "floating point", expected: "binary" })),
        BaseCall::Sequence => Err(Error(ErrorKind::Unsupported { actual: "sequence", expected: "binary" })),
    }
}

/// Collecting the tokens `ts` into binary, starting from `b` and stopping
/// at the first failure.
pub open spec fn binary_collect(b: BinaryBufView, ts: Seq<TokenView>) -> Result<BinaryBufView, Error>
    decreases ts.len(),
{
    if ts.len() == 0 {
        Ok(b)
    } else {
        match binary_collect_step(b, ts[0]) {
            Ok(b2) => binary_collect(b2, ts.drop_first()),
            Err(e) => Err(e),
        }
    }
}

impl<'sval> BinaryBuf<'sval> {
    /**
    Create a new empty binary buffer.
    */
    pub fn new() -> (b: Self)
        ensures
            b@ == (BinaryBufView { bytes: Seq::empty(), borrowed: true }),
    {
        let empty: &'sval [u8] = &[];
        assert(empty@ =~= Seq::<u8>::empty());
        BinaryBuf(BinaryFragments::Borrowed(empty))
    }

    /// A binary buffer holding a single borrowed fragment.
    pub fn from_slice(fragment: &'sval [u8]) -> (b: Self)
        ensures
            b@ == (BinaryBufView { bytes: fragment@, borrowed: true }),
    {
        BinaryBuf(BinaryFragments::Borrowed(fragment))
    }

    /**
    Buffer a streamed binary value into a contiguous slice.

    Binary fragments are joined; binary delimiters, enum and tagged
    wrappers, and tag hints pass through; any other token fails the
    collection.
    */
    pub fn collect(value: &[Token<'sval>]) -> (r: Result<Self, Error>)
        ensures
            binary_collect(BinaryBufView { bytes: Seq::empty(), borrowed: true },
                crate::token::tokens_view(value@)) == match r {
                Ok(b) => Ok::<BinaryBufView, Error>(b@),
                Err(e) => Err(e),
            },
    {
        let mut buf = BinaryBuf::new();
        let mut i: usize = 0;
        let ghost init = BinaryBufView { bytes: Seq::empty(), borrowed: true };
        let ghost ts = crate::token::tokens_view(value@);
        assert(ts.skip(0) =~= ts);
        while i < value.len()
            invariant
                i <= value.len(),
                ts == crate::token::tokens_view(value@),
                init == (BinaryBufView { bytes: Seq::empty(), borrowed: true }),
                binary_collect(init, ts) == binary_collect(buf@, ts.skip(i as int)),
            decreases value.len() - i,
        {
            let t = &value[i];
            let ghost old_buf = buf@;
            assert(ts.skip(i as int)[0] == t@);
            assert(ts.skip(i as int).drop_first() =~= ts.skip(i + 1));
            assert(binary_collect(buf@, ts.skip(i as int)) == match binary_collect_step(buf@, t@) {
                Ok(b2) => binary_collect(b2, ts.skip(i + 1)),
                Err(e) => Err(e),
            });
            let step: Result<(), Error> = match base_call_of(t) {
                BaseCall::BinaryBegin | BaseCall::BinaryEnd | BaseCall::Ignored => Ok(()),
                BaseCall::BinaryFragment => match t {
                    Token::BinaryFragment(f) => buf.push_fragment(f),
                    Token::BinaryFragmentComputed(f) => buf.push_fragment_computed(f.as_slice()),
                    _ => Ok(()),
                },
                BaseCall::TextBegin | BaseCall::TextFragment | BaseCall::TextEnd | BaseCall::WideInteger
                | BaseCall::LabelText => Err(Error::unsupported("binary", "text")),
                BaseCall::Null => Err(Error::unsupported("binary", "null")),
                BaseCall::Bool => Err(Error::unsupported("binary", "boolean")),
                BaseCall::Integer => Err(Error::unsupported("binary", "integer")),
                BaseCall::Float => Err(Error::unsupported("binary", "floating point")),
                BaseCall::Sequence => Err(Error::unsupported("binary", "sequence")),
            };
            if let Err(e) = step {
                assert(binary_collect_step(old_buf, t@) == Err::<BinaryBufView, Error>(e));
                return Err(e);
            }
            assert(binary_collect_step(old_buf, t@) == Ok::<BinaryBufView, Error>(buf@));
            i = i + 1;
        }
        Ok(buf)
    }

    /**
    Clear the binary buffer so it can be re-used.
    */
    pub fn clear(&mut self)
        ensures
            final(self)@ == (BinaryBufView { bytes: Seq::empty(), borrowed: true }),
    {
        *self = BinaryBuf::new();
    }

    /**
    Push a borrowed binary fragment onto the buffer.

    An empty buffer keeps the fragment borrowed; otherwise it is copied.
    */
    pub fn push_fragment(&mut self, fragment: &'sval [u8]) -> (r: Result<(), Error>)
        ensures
            r is Ok,
            final(self)@ == binary_pushed(old(self)@, fragment@),
    {
        if self.as_slice().len() == 0 {
            self.0 = BinaryFragments::Borrowed(fragment);
            Ok(())
        } else {
            self.push_fragment_computed(fragment)
        }
    }

    /**
    Push a computed binary fragment onto the buffer, copying it.
    */
    pub fn push_fragment_computed(&mut self, fragment: &[u8]) -> (r: Result<(), Error>)
        ensures
            r is Ok,
            final(self)@ == (BinaryBufView { bytes: old(self)@.bytes + fragment@, borrowed: false }),
    {
        let mut owned = match &self.0 {
            BinaryFragments::Borrowed(s) => slice_to_vec(s),
            BinaryFragments::Owned(s) => slice_to_vec(s.as_slice()),
        };
        let mut more = slice_to_vec(fragment);
        owned.append(&mut more);
        self.0 = BinaryFragments::Owned(owned);
        Ok(())
    }

    /**
    Try get the contents of the buffer as a slice borrowed for the `'sval` lifetime.
    */
    pub fn as_borrowed_slice(&self) -> (s: Option<&'sval [u8]>)
        ensures
            s is Some <==> self@.borrowed,
            s matches Some(s) ==> s@ == self@.bytes,
    {
        match &self.0 {
            BinaryFragments::Borrowed(s) => Some(*s),
            BinaryFragments::Owned(_) => None,
        }
    }

    /**
    Get the contents of the buffer as a slice.
    */
    pub fn as_slice(&self) -> (s: &[u8])
        ensures
            s@ == self@.bytes,
    {
        match &self.0 {
            BinaryFragments::Borrowed(s) => s,
            BinaryFragments::Owned(s) => s.as_slice(),
        }
    }
}

/// The tokens a binary value streams as: its length, then its bytes as a
/// single fragment, borrowed or computed.
pub open spec fn binary_tokens(bytes: Seq<u8>, borrowed: bool) -> Seq<TokenView> {
    seq![
        TokenView::BinaryBegin(Some(bytes.len() as usize)),
        if borrowed { TokenView::BinaryFragment(bytes) } else { TokenView::BinaryFragmentComputed(bytes) },
        TokenView::BinaryEnd,
    ]
}

impl<'sval> BinaryBuf<'sval> {
    /// Stream the bytes as a value borrowed from the buffer.
    pub fn stream<'a>(&'a self) -> (ts: Vec<Token<'a>>)
        ensures
            tokens_view(ts@) == binary_tokens(self@.bytes, true),
    {
        let b = self.as_slice();
        let mut ts: Vec<Token<'a>> = Vec::new();
        ts.push(Token::BinaryBegin(Some(b.len())));
        ts.push(Token::BinaryFragment(b));
        ts.push(Token::BinaryEnd);
        assert(tokens_view(ts@) =~= binary_tokens(self@.bytes, true));
        ts
    }

    /// Stream the bytes for `'sval`: borrowed if the buffer borrows them,
    /// computed otherwise.
    pub fn stream_ref(&self) -> (ts: Vec<Token<'sval>>)
        ensures
            tokens_view(ts@) == binary_tokens(self@.bytes, self@.borrowed),
    {
        let mut ts: Vec<Token<'sval>> = Vec::new();
        match self.as_borrowed_slice() {
            Some(v) => {
                ts.push(Token::BinaryBegin(Some(v.len())));
                ts.push(Token::BinaryFragment(v));
            },
            None => {
                let b = self.as_slice();
                ts.push(Token::BinaryBegin(Some(b.len())));
                ts.push(Token::BinaryFragmentComputed(slice_to_vec(b)));
            },
        }
        ts.push(Token::BinaryEnd);
        assert(tokens_view(ts@) =~= binary_tokens(self@.bytes, self@.borrowed));
        ts
    }
}

impl<'sval> Default for BinaryBuf<'sval> {
    fn default() -> (b: Self)
        ensures
            b@ == (BinaryBufView { bytes: Seq::empty(), borrowed: true }),
    {
        BinaryBuf::new()
    }
}

impl<'sval> From<&'sval [u8]> for BinaryBuf<'sval> {
    fn from(fragment: &'sval [u8]) -> (b: Self) {
        BinaryBuf(BinaryFragments::Borrowed(fragment))
    }
}

impl<'sval> vstd::std_specs::convert::FromSpecImpl<&'sval [u8]> for BinaryBuf<'sval> {
    open spec fn obeys_from_spec() -> bool {
        true
    }

    closed spec fn from_spec(v: &'sval [u8]) -> Self {
        BinaryBuf(BinaryFragments::Borrowed(v))
    }
}

/// A binary buffer made from a slice borrows the slice.
pub proof fn lemma_binary_buf_from(v: &[u8])
    ensures
        <BinaryBuf as vstd::std_specs::convert::FromSpec<&[u8]>>::from_spec(v)@
            == (BinaryBufView { bytes: v@, borrowed: true }),
{
}

/// Collecting the tokens a text buffer streams as gives back the same
/// buffer: the same text, borrowed exactly when it was.
pub proof fn law_text_buf_roundtrip(b: TextBufView)
    ensures
        text_collect(TextBufView { text: Seq::empty(), borrowed: true }, text_tokens(b.text, b.borrowed))
            == Ok::<TextBufView, Error>(b),
{
    let ts = text_tokens(b.text, b.borrowed);
    let init = TextBufView { text: Seq::empty(), borrowed: true };
    let t1 = ts.drop_first();
    let t2 = t1.drop_first();
    let t3 = t2.drop_first();
    assert(t1[0] == ts[1]);
    assert(t2[0] == ts[2]);
    assert(t3 =~= Seq::<TokenView>::empty());
    assert(Seq::<char>::empty() + b.text =~= b.text);
    assert(text_collect_step(init, ts[1]) == Ok::<TextBufView, Error>(b));
    assert(text_collect(b, t3) == Ok::<TextBufView, Error>(b));
    assert(text_collect(b, t2) == Ok::<TextBufView, Error>(b));
    assert(text_collect(init, t1) == Ok::<TextBufView, Error>(b));
}

/// Collecting the tokens a binary buffer streams as gives back the same
/// buffer: the same bytes, borrowed exactly when they were.
pub proof fn law_binary_buf_roundtrip(b: BinaryBufView)
    ensures
        binary_collect(BinaryBufView { bytes: Seq::empty(), borrowed: true }, binary_tokens(b.bytes, b.borrowed))
            == Ok::<BinaryBufView, Error>(b),
{
    let ts = binary_tokens(b.bytes, b.borrowed);
    let init = BinaryBufView { bytes: Seq::empty(), borrowed: true };
    let t1 = ts.drop_first();
    let t2 = t1.drop_first();
    let t3 = t2.drop_first();
    assert(t1[0] == ts[1]);
    assert(t2[0] == ts[2]);
    assert(t3 =~= Seq::<TokenView>::empty());
    assert(Seq::<u8>::empty() + b.bytes =~= b.bytes);
    assert(binary_collect_step(init, ts[1]) == Ok::<BinaryBufView, Error>(b));
    assert(binary_collect(b, t3) == Ok::<BinaryBufView, Error>(b));
    assert(binary_collect(b, t2) == Ok::<BinaryBufView, Error>(b));
    assert(binary_collect(init, t1) == Ok::<BinaryBufView, Error>(b));
}

} // verus!
