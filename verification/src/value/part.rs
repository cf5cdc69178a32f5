//! The parts a buffered value is made of: one part for each primitive,
//! tag, text or binary value, and one header for each container, which
//! records how many parts its body spans.
use vstd::prelude::*;

use crate::data::{ContainerKind, Meta, MetaView, Tag};
use crate::token::Scalar;

verus! {

/// The number of bytes a UTF-8 encoded text takes.
pub open spec fn text_size(s: Seq<char>) -> usize {
    vstd::utf8::encode_utf8(s).len() as usize
}

/// The buffered contents of a text value.
#[derive(Debug)]
pub enum TextPart<'sval> {
    /// A single fragment, still borrowed for `'sval`.
    Borrowed(&'sval str),
    /// Fragments copied into the buffer.
    Inline(String),
}

/// The buffered contents of a binary value.
#[derive(Debug)]
pub enum BinaryPart<'sval> {
    Borrowed(&'sval [u8]),
    Inline(Vec<u8>),
}

/// The header that begins a container. `len` is the number of parts in
/// its body, which follows the header directly.
#[derive(Debug)]
pub struct Header {
    pub kind: ContainerKind,
    pub len: u32,
    pub num_entries: u32,
    pub meta: Meta<'static>,
}

#[derive(Debug)]
pub enum Part<'sval> {
    Scalar(Scalar),
    Tag(Meta<'static>),
    TagHint(Tag),
    Text(TextPart<'sval>),
    Binary(BinaryPart<'sval>),
    Container(Header),
}

pub enum PartView {
    Scalar(Scalar),
    Tag(MetaView),
    TagHint(Tag),
    Text { borrowed: bool, text: Seq<char> },
    Binary { borrowed: bool, bytes: Seq<u8> },
    Container { kind: ContainerKind, len: u32, num_entries: u32, meta: MetaView },
}

impl<'sval> View for Part<'sval> {
    type V = PartView;

    open spec fn view(&self) -> PartView {
        match self {
            Part::Scalar(s) => PartView::Scalar(*s),
            Part::Tag(m) => PartView::Tag(m@),
            Part::TagHint(t) => PartView::TagHint(*t),
            Part::Text(TextPart::Borrowed(s)) => PartView::Text { borrowed: true, text: s@ },
            Part::Text(TextPart::Inline(s)) => PartView::Text { borrowed: false, text: s@ },
            Part::Binary(BinaryPart::Borrowed(b)) => PartView::Binary { borrowed: true, bytes: b@ },
            Part::Binary(BinaryPart::Inline(b)) => PartView::Binary { borrowed: false, bytes: b@ },
            Part::Container(h) => PartView::Container {
                kind: h.kind,
                len: h.len,
                num_entries: h.num_entries,
                meta: h.meta@,
            },
        }
    }
}

impl PartView {
    /// Whether the part owns an allocation.
    pub open spec fn is_owned(self) -> bool {
        match self {
            PartView::Tag(m) => m.is_owned(),
            PartView::Container { meta, .. } => meta.is_owned(),
            _ => false,
        }
    }

    /// Whether the part borrows data for `'sval`.
    pub open spec fn is_borrowed(self) -> bool {
        match self {
            PartView::Text { borrowed, .. } => borrowed,
            PartView::Binary { borrowed, .. } => borrowed,
            _ => false,
        }
    }

    pub open spec fn kind(self) -> Kind {
        match self {
            PartView::Scalar(s) => match s {
                Scalar::Null => Kind::Null,
                Scalar::Bool(_) => Kind::Bool,
                Scalar::U8(_) => Kind::U8,
                Scalar::U16(_) => Kind::U16,
                Scalar::U32(_) => Kind::U32,
                Scalar::U64(_) => Kind::U64,
                Scalar::U128(_) => Kind::U128,
                Scalar::I8(_) => Kind::I8,
                Scalar::I16(_) => Kind::I16,
                Scalar::I32(_) => Kind::I32,
                Scalar::I64(_) => Kind::I64,
                Scalar::I128(_) => Kind::I128,
                Scalar::F32(_) => Kind::F32,
                Scalar::F64(_) => Kind::F64,
            },
            PartView::Tag(_) => Kind::Tag,
            PartView::TagHint(_) => Kind::TagHint,
            PartView::Text { .. } => Kind::Text,
            PartView::Binary { .. } => Kind::Binary,
            PartView::Container { kind, .. } => Kind::of_container(kind),
        }
    }
}

/// The kind of a part, as recorded in its tag byte.
#[derive(Debug, Clone, Copy, PartialEq, Eq, Structural)]
pub enum Kind {
    Null,
    Bool,
    U8,
    U16,
    U32,
    U64,
    U128,
    I8,
    I16,
    I32,
    I64,
    I128,
    F32,
    F64,
    Tag,
    TagHint,
    Text,
    Binary,
    MapKey,
    MapValue,
    SeqValue,
    Enum,
    Tagged,
    RecordValue,
    TupleValue,
    RecordTupleValue,
    Mapping,
    Sequence,
    Record,
    Tuple,
    RecordTuple,
}

/// Set in a tag byte when the part owns an allocation.
pub const TAG_OWNED: u8 = 0b1000_0000;
/// Set in a tag byte when the part borrows for `'sval`.
pub const TAG_BORROWED: u8 = 0b0100_0000;
/// The bits of a tag byte that hold the kind.
pub const KIND_MASK: u8 = 0b0001_1111;

impl Kind {
    pub open spec fn of_container(kind: ContainerKind) -> Kind {
        match kind {
            ContainerKind::Mapping => Kind::Mapping,
            ContainerKind::MapKey => Kind::MapKey,
            ContainerKind::MapValue => Kind::MapValue,
            ContainerKind::Sequence => Kind::Sequence,
            ContainerKind::SeqValue => Kind::SeqValue,
            ContainerKind::Enum => Kind::Enum,
            ContainerKind::Tagged => Kind::Tagged,
            ContainerKind::Record => Kind::Record,
            ContainerKind::RecordValue => Kind::RecordValue,
            ContainerKind::Tuple => Kind::Tuple,
            ContainerKind::TupleValue => Kind::TupleValue,
            ContainerKind::RecordTuple => Kind::RecordTuple,
            ContainerKind::RecordTupleValue => Kind::RecordTupleValue,
        }
    }

    /// The number that identifies the kind in a tag byte.
    pub open spec fn code(self) -> u8 {
        match self {
            Kind::Null => 0,
            Kind::Bool => 1,
            Kind::U8 => 2,
            Kind::U16 => 3,
            Kind::U32 => 4,
            Kind::U64 => 5,
            Kind::U128 => 6,
            Kind::I8 => 7,
            Kind::I16 => 8,
            Kind::I32 => 9,
            Kind::I64 => 10,
            Kind::I128 => 11,
            Kind::F32 => 12,
            Kind::F64 => 13,
            Kind::Tag => 14,
            Kind::TagHint => 15,
            Kind::Text => 16,
            Kind::Binary => 17,
            Kind::MapKey => 18,
            Kind::MapValue => 19,
            Kind::SeqValue => 20,
            Kind::Enum => 21,
            Kind::Tagged => 22,
            Kind::RecordValue => 23,
            Kind::TupleValue => 24,
            Kind::RecordTupleValue => 25,
            Kind::Mapping => 26,
            Kind::Sequence => 27,
            Kind::Record => 28,
            Kind::Tuple => 29,
            Kind::RecordTuple => 30,
        }
    }

    pub fn to_code(self) -> (c: u8)
        ensures
            c == self.code(),
            c <= KIND_MASK,
    {
        match self {
            Kind::Null => 0,
            Kind::Bool => 1,
            Kind::U8 => 2,
            Kind::U16 => 3,
            Kind::U32 => 4,
            Kind::U64 => 5,
            Kind::U128 => 6,
            Kind::I8 => 7,
            Kind::I16 => 8,
            Kind::I32 => 9,
            Kind::I64 => 10,
            Kind::I128 => 11,
            Kind::F32 => 12,
            Kind::F64 => 13,
            Kind::Tag => 14,
            Kind::TagHint => 15,
            Kind::Text => 16,
            Kind::Binary => 17,
            Kind::MapKey => 18,
            Kind::MapValue => 19,
            Kind::SeqValue => 20,
            Kind::Enum => 21,
            Kind::Tagged => 22,
            Kind::RecordValue => 23,
            Kind::TupleValue => 24,
            Kind::RecordTupleValue => 25,
            Kind::Mapping => 26,
            Kind::Sequence => 27,
            Kind::Record => 28,
            Kind::Tuple => 29,
            Kind::RecordTuple => 30,
        }
    }

    /// The tag byte for a part of this kind: the kind's code, with the
    /// owned and borrowed bits set as given.
    pub open spec fn tag_byte(self, owned: bool, borrowed: bool) -> u8 {
        (self.code() | (if owned { TAG_OWNED } else { 0 })) | (if borrowed { TAG_BORROWED } else { 0 })
    }

    pub fn to_tag_byte(self, owned: bool, borrowed: bool) -> (tag: u8)
        ensures
            tag == self.tag_byte(owned, borrowed),
            (tag & TAG_OWNED != 0) == owned,
            (tag & TAG_BORROWED != 0) == borrowed,
            tag & KIND_MASK == self.code(),
    {
        let code = self.to_code();
        let o: u8 = if owned { TAG_OWNED } else { 0 };
        let b: u8 = if borrowed { TAG_BORROWED } else { 0 };
        let tag = (code | o) | b;
        proof {
            assert(code <= 31 ==> ((((code | o) | b) & 0x80u8 != 0) == (o == 0x80u8))) by (bit_vector)
                requires o == 0u8 || o == 0x80u8, b == 0u8 || b == 0x40u8;
            assert(code <= 31 ==> ((((code | o) | b) & 0x40u8 != 0) == (b == 0x40u8))) by (bit_vector)
                requires o == 0u8 || o == 0x80u8, b == 0u8 || b == 0x40u8;
            assert(code <= 31 ==> (((code | o) | b) & 0x1fu8 == code)) by (bit_vector)
                requires o == 0u8 || o == 0x80u8, b == 0u8 || b == 0x40u8;
        }
        tag
    }

    /// The kind with the given code; codes past the last kind's stand for it.
    pub open spec fn of_code(c: u8) -> Kind {
        match c {
            0 => Kind::Null,
            1 => Kind::Bool,
            2 => Kind::U8,
            3 => Kind::U16,
            4 => Kind::U32,
            5 => Kind::U64,
            6 => Kind::U128,
            7 => Kind::I8,
            8 => Kind::I16,
            9 => Kind::I32,
            10 => Kind::I64,
            11 => Kind::I128,
            12 => Kind::F32,
            13 => Kind::F64,
            14 => Kind::Tag,
            15 => Kind::TagHint,
            16 => Kind::Text,
            17 => Kind::Binary,
            18 => Kind::MapKey,
            19 => Kind::MapValue,
            20 => Kind::SeqValue,
            21 => Kind::Enum,
            22 => Kind::Tagged,
            23 => Kind::RecordValue,
            24 => Kind::TupleValue,
            25 => Kind::RecordTupleValue,
            26 => Kind::Mapping,
            27 => Kind::Sequence,
            28 => Kind::Record,
            29 => Kind::Tuple,
            _ => Kind::RecordTuple,
        }
    }

    /// The kind a tag byte records.
    pub fn from_tag_byte(b: u8) -> (k: Kind)
        requires
            b & KIND_MASK <= 30,
        ensures
            k.code() == b & KIND_MASK,
            k == Kind::of_code(b & KIND_MASK),
    {
        match b & KIND_MASK {
            0 => Kind::Null,
            1 => Kind::Bool,
            2 => Kind::U8,
            3 => Kind::U16,
            4 => Kind::U32,
            5 => Kind::U64,
            6 => Kind::U128,
            7 => Kind::I8,
            8 => Kind::I16,
            9 => Kind::I32,
            10 => Kind::I64,
            11 => Kind::I128,
            12 => Kind::F32,
            13 => Kind::F64,
            14 => Kind::Tag,
            15 => Kind::TagHint,
            16 => Kind::Text,
            17 => Kind::Binary,
            18 => Kind::MapKey,
            19 => Kind::MapValue,
            20 => Kind::SeqValue,
            21 => Kind::Enum,
            22 => Kind::Tagged,
            23 => Kind::RecordValue,
            24 => Kind::TupleValue,
            25 => Kind::RecordTupleValue,
            26 => Kind::Mapping,
            27 => Kind::Sequence,
            28 => Kind::Record,
            29 => Kind::Tuple,
            _ => Kind::RecordTuple,
        }
    }

    /// Whether parts of this kind have a body.
    pub open spec fn spec_is_container(self) -> bool {
        self.code() >= 16
    }

    /// Whether parts of this kind count their entries.
    pub open spec fn spec_is_entry_tracking(self) -> bool {
        self.code() >= 26
    }

    pub fn is_container(self) -> (b: bool)
        ensures
            b == self.spec_is_container(),
    {
        self.to_code() >= 16
    }

    pub fn is_entry_tracking(self) -> (b: bool)
        ensures
            b == self.spec_is_entry_tracking(),
    {
        self.to_code() >= 26
    }
}

/// Reading the kind back from a tag byte gives the kind it was written for,
/// whatever ownership bits are set.
pub proof fn law_tag_byte_roundtrip(k: Kind, owned: bool, borrowed: bool)
    ensures
        k.tag_byte(owned, borrowed) & KIND_MASK <= 30,
        Kind::of_code(k.tag_byte(owned, borrowed) & KIND_MASK) == k,
{
    let code = k.code();
    let o: u8 = if owned { TAG_OWNED } else { 0 };
    let b: u8 = if borrowed { TAG_BORROWED } else { 0 };
    assert(code <= 31 ==> (((code | o) | b) & 0x1fu8 == code)) by (bit_vector)
        requires o == 0u8 || o == 0x80u8, b == 0u8 || b == 0x40u8;
}

impl<'sval> Part<'sval> {
    pub fn kind(&self) -> (k: Kind)
        ensures
            k == self@.kind(),
    {
        match self {
            Part::Scalar(s) => match s {
                Scalar::Null => Kind::Null,
                Scalar::Bool(_) => Kind::Bool,
                Scalar::U8(_) => Kind::U8,
                Scalar::U16(_) => Kind::U16,
                Scalar::U32(_) => Kind::U32,
                Scalar::U64(_) => Kind::U64,
                Scalar::U128(_) => Kind::U128,
                Scalar::I8(_) => Kind::I8,
                Scalar::I16(_) => Kind::I16,
                Scalar::I32(_) => Kind::I32,
                Scalar::I64(_) => Kind::I64,
                Scalar::I128(_) => Kind::I128,
                Scalar::F32(_) => Kind::F32,
                Scalar::F64(_) => Kind::F64,
            },
            Part::Tag(_) => Kind::Tag,
            Part::TagHint(_) => Kind::TagHint,
            Part::Text(_) => Kind::Text,
            Part::Binary(_) => Kind::Binary,
            Part::Container(h) => match h.kind {
                ContainerKind::Mapping => Kind::Mapping,
                ContainerKind::MapKey => Kind::MapKey,
                ContainerKind::MapValue => Kind::MapValue,
                ContainerKind::Sequence => Kind::Sequence,
                ContainerKind::SeqValue => Kind::SeqValue,
                ContainerKind::Enum => Kind::Enum,
                ContainerKind::Tagged => Kind::Tagged,
                ContainerKind::Record => Kind::Record,
                ContainerKind::RecordValue => Kind::RecordValue,
                ContainerKind::Tuple => Kind::Tuple,
                ContainerKind::TupleValue => Kind::TupleValue,
                ContainerKind::RecordTuple => Kind::RecordTuple,
                ContainerKind::RecordTupleValue => Kind::RecordTupleValue,
            },
        }
    }

    pub fn is_owned(&self) -> (b: bool)
        ensures
            b == self@.is_owned(),
    {
        match self {
            Part::Tag(m) => m.owned(),
            Part::Container(h) => h.meta.owned(),
            _ => false,
        }
    }

    pub fn is_borrowed(&self) -> (b: bool)
        ensures
            b == self@.is_borrowed(),
    {
        match self {
            Part::Text(TextPart::Borrowed(_)) => true,
            Part::Binary(BinaryPart::Borrowed(_)) => true,
            _ => false,
        }
    }
}


/// A part with any borrowed text or binary copied in.
pub open spec fn owned_part(p: PartView) -> PartView {
    match p {
        PartView::Text { borrowed, text } => PartView::Text { borrowed: false, text },
        PartView::Binary { borrowed, bytes } => PartView::Binary { borrowed: false, bytes },
        _ => p,
    }
}

impl<'sval> Part<'sval> {
    /// An independent copy of this part.
    pub fn duplicate(&self) -> (p: Part<'sval>)
        ensures
            p@ == self@,
    {
        match self {
            Part::Scalar(s) => Part::Scalar(*s),
            Part::Tag(m) => Part::Tag(m.to_owned()),
            Part::TagHint(t) => Part::TagHint(*t),
            Part::Text(TextPart::Borrowed(s)) => Part::Text(TextPart::Borrowed(*s)),
            Part::Text(TextPart::Inline(s)) => Part::Text(TextPart::Inline(s.clone())),
            Part::Binary(BinaryPart::Borrowed(b)) => Part::Binary(BinaryPart::Borrowed(*b)),
            Part::Binary(BinaryPart::Inline(b)) => Part::Binary(
                BinaryPart::Inline(vstd::slice::slice_to_vec(b.as_slice())),
            ),
            Part::Container(h) => Part::Container(Header {
                kind: h.kind,
                len: h.len,
                num_entries: h.num_entries,
                meta: h.meta.to_owned(),
            }),
        }
    }

    /// This part with any borrowed text or binary copied in.
    pub fn into_owned(self) -> (p: Part<'static>)
        ensures
            p@ == owned_part(self@),
    {
        match self {
            Part::Scalar(s) => Part::Scalar(s),
            Part::Tag(m) => Part::Tag(m),
            Part::TagHint(t) => Part::TagHint(t),
            Part::Text(TextPart::Borrowed(s)) => Part::Text(TextPart::Inline(s.to_owned())),
            Part::Text(TextPart::Inline(s)) => Part::Text(TextPart::Inline(s)),
            Part::Binary(BinaryPart::Borrowed(b)) => Part::Binary(
                BinaryPart::Inline(vstd::slice::slice_to_vec(b)),
            ),
            Part::Binary(BinaryPart::Inline(b)) => Part::Binary(BinaryPart::Inline(b)),
            Part::Container(h) => Part::Container(h),
        }
    }
}

} // verus!
