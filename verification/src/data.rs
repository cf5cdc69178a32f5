//! The pieces of the data model that buffered values carry along:
//! tags, labels, indexes, and the metadata that containers are begun with.
use vstd::prelude::*;

verus! {

/// A user-defined annotation that gives a value extra semantics.
#[derive(Debug, Clone, Copy)]
pub struct Tag {
    pub data: &'static str,
}

impl Tag {
    pub fn new(data: &'static str) -> (t: Tag)
        ensures
            t.data == data,
    {
        Tag { data }
    }

    /// Whether this is the tag of Rust's `Option::None`.
    pub fn is_option_none(&self) -> (b: bool)
        ensures
            b == (self.data@ == option_none_text()),
    {
        proof {
            reveal_strlit("RUST_OPTION_NONE");
        }
        String::from_str(self.data) == String::from_str("RUST_OPTION_NONE")
    }
}

/// The text of the tag of Rust's `Option::None`.
pub open spec fn option_none_text() -> Seq<char> {
    "RUST_OPTION_NONE"@
}

/// A numeric index for a value, optionally tagged.
#[derive(Debug, Clone, Copy)]
pub struct Index {
    pub value: i64,
    pub tag: Option<Tag>,
}

impl Index {
    pub fn new(value: i64) -> (i: Index)
        ensures
            i.value == value,
            i.tag is None,
    {
        Index { value, tag: None }
    }
}

/// Where the text of a label lives.
#[derive(Debug)]
pub enum LabelText<'a> {
    Static(&'static str),
    Borrowed(&'a str),
    Owned(String),
}

/// A textual name for a value, optionally tagged.
#[derive(Debug)]
pub struct Label<'a> {
    pub text: LabelText<'a>,
    pub tag: Option<Tag>,
}

/// The mathematical content of a label.
pub struct LabelView {
    pub text: Seq<char>,
    pub is_static: bool,
    pub tag: Option<Tag>,
}

impl<'a> View for Label<'a> {
    type V = LabelView;

    open spec fn view(&self) -> LabelView {
        match &self.text {
            LabelText::Static(s) => LabelView { text: s@, is_static: true, tag: self.tag },
            LabelText::Borrowed(s) => LabelView { text: s@, is_static: false, tag: self.tag },
            LabelText::Owned(s) => LabelView { text: s@, is_static: false, tag: self.tag },
        }
    }
}

impl<'a> Label<'a> {
    /// A label whose text lives for the whole program.
    pub fn new(text: &'static str) -> (l: Label<'a>)
        ensures
            l@ == (LabelView { text: text@, is_static: true, tag: None }),
    {
        Label { text: LabelText::Static(text), tag: None }
    }

    /// A label whose text is borrowed.
    pub fn borrowed(text: &'a str) -> (l: Label<'a>)
        ensures
            l@ == (LabelView { text: text@, is_static: false, tag: None }),
    {
        Label { text: LabelText::Borrowed(text), tag: None }
    }

    /// This label with a tag attached.
    pub fn with_tag(self, tag: Tag) -> (l: Label<'a>)
        ensures
            l@ == (LabelView { tag: Some(tag), ..self@ }),
    {
        Label { text: self.text, tag: Some(tag) }
    }

    /// The text of the label.
    pub fn as_str(&self) -> (s: &str)
        ensures
            s@ == self@.text,
    {
        match &self.text {
            LabelText::Static(s) => s,
            LabelText::Borrowed(s) => s,
            LabelText::Owned(s) => s.as_str(),
        }
    }

    /// The text of the label if it lives for the whole program.
    pub fn as_static_str(&self) -> (s: Option<&'static str>)
        ensures
            s is Some <==> self@.is_static,
            s matches Some(s) ==> s@ == self@.text,
    {
        match &self.text {
            LabelText::Static(s) => Some(*s),
            _ => None,
        }
    }

    /// A copy of this label that doesn't borrow anything: static text
    /// stays static, any other text is copied into an owned string.
    pub fn to_owned(&self) -> (l: Label<'static>)
        ensures
            l@ == self@,
    {
        let text = match &self.text {
            LabelText::Static(s) => LabelText::Static(*s),
            LabelText::Borrowed(s) => LabelText::Owned((*s).to_owned()),
            LabelText::Owned(s) => LabelText::Owned(s.clone()),
        };
        Label { text, tag: self.tag }
    }
}

/// Which container a `Begin` or `End` delimits.
#[derive(Debug, Clone, Copy, PartialEq, Eq, Structural)]
pub enum ContainerKind {
    Mapping,
    MapKey,
    MapValue,
    Sequence,
    SeqValue,
    Enum,
    Tagged,
    Record,
    RecordValue,
    Tuple,
    TupleValue,
    RecordTuple,
    RecordTupleValue,
}

impl ContainerKind {
    /// Whether a container of this kind is an entry counted by its parent.
    pub open spec fn is_entry(self) -> bool {
        match self {
            ContainerKind::MapKey | ContainerKind::SeqValue | ContainerKind::RecordValue
            | ContainerKind::TupleValue | ContainerKind::RecordTupleValue => true,
            _ => false,
        }
    }

    /// Whether a container of this kind counts its entries.
    pub open spec fn is_entry_tracking(self) -> bool {
        match self {
            ContainerKind::Mapping | ContainerKind::Sequence | ContainerKind::Record
            | ContainerKind::Tuple | ContainerKind::RecordTuple => true,
            _ => false,
        }
    }

    pub open spec fn has_tag(self) -> bool {
        match self {
            ContainerKind::Mapping | ContainerKind::MapKey | ContainerKind::MapValue
            | ContainerKind::Sequence | ContainerKind::SeqValue => false,
            _ => true,
        }
    }

    pub open spec fn has_label(self) -> bool {
        self.has_tag() && !(self == ContainerKind::TupleValue)
    }

    pub open spec fn has_index(self) -> bool {
        self.has_tag() && !(self == ContainerKind::RecordValue)
    }

    pub fn entry(self) -> (b: bool)
        ensures
            b == self.is_entry(),
    {
        match self {
            ContainerKind::MapKey | ContainerKind::SeqValue | ContainerKind::RecordValue
            | ContainerKind::TupleValue | ContainerKind::RecordTupleValue => true,
            _ => false,
        }
    }

    pub fn entry_tracking(self) -> (b: bool)
        ensures
            b == self.is_entry_tracking(),
    {
        match self {
            ContainerKind::Mapping | ContainerKind::Sequence | ContainerKind::Record
            | ContainerKind::Tuple | ContainerKind::RecordTuple => true,
            _ => false,
        }
    }

    pub fn tagged(self) -> (b: bool)
        ensures
            b == self.has_tag(),
    {
        match self {
            ContainerKind::Mapping | ContainerKind::MapKey | ContainerKind::MapValue
            | ContainerKind::Sequence | ContainerKind::SeqValue => false,
            _ => true,
        }
    }

    pub fn labeled(self) -> (b: bool)
        ensures
            b == self.has_label(),
    {
        match self {
            ContainerKind::TupleValue => false,
            _ => self.tagged(),
        }
    }

    pub fn indexed(self) -> (b: bool)
        ensures
            b == self.has_index(),
    {
        match self {
            ContainerKind::RecordValue => false,
            _ => self.tagged(),
        }
    }
}

/// The tag, label and index a container or tag is described by.
#[derive(Debug)]
pub struct Meta<'a> {
    pub tag: Option<Tag>,
    pub label: Option<Label<'a>>,
    pub index: Option<Index>,
}

pub struct MetaView {
    pub tag: Option<Tag>,
    pub label: Option<LabelView>,
    pub index: Option<Index>,
}

impl<'a> View for Meta<'a> {
    type V = MetaView;

    open spec fn view(&self) -> MetaView {
        MetaView {
            tag: self.tag,
            label: match &self.label {
                Some(l) => Some(l@),
                None => None,
            },
            index: self.index,
        }
    }
}

impl MetaView {
    /// The part of this metadata that a container of `kind` keeps.
    pub open spec fn for_kind(self, kind: ContainerKind) -> MetaView {
        MetaView {
            tag: if kind.has_tag() { self.tag } else { None },
            label: if kind.has_label() { self.label } else { None },
            index: if kind.has_index() { self.index } else { None },
        }
    }

    pub open spec fn is_owned(self) -> bool {
        self.label matches Some(l) && !l.is_static
    }
}

impl<'a> Meta<'a> {
    pub fn empty() -> (m: Meta<'a>)
        ensures
            m@ == (MetaView { tag: None, label: None, index: None }),
    {
        Meta { tag: None, label: None, index: None }
    }

    /// A copy of the metadata a container of `kind` keeps, with any
    /// label made owned.
    pub fn to_owned_for(&self, kind: ContainerKind) -> (m: Meta<'static>)
        ensures
            m@ == self@.for_kind(kind),
    {
        let tag = if kind.tagged() { self.tag } else { None };
        let label = if kind.labeled() {
            match &self.label {
                Some(l) => Some(l.to_owned()),
                None => None,
            }
        } else {
            None
        };
        let index = if kind.indexed() { self.index } else { None };
        Meta { tag, label, index }
    }

    /// A copy of this metadata with any label made owned.
    pub fn to_owned(&self) -> (m: Meta<'static>)
        ensures
            m@ == self@,
    {
        let label = match &self.label {
            Some(l) => Some(l.to_owned()),
            None => None,
        };
        Meta { tag: self.tag, label, index: self.index }
    }

    /// Whether the metadata owns an allocation.
    pub fn owned(&self) -> (b: bool)
        ensures
            b == self@.is_owned(),
    {
        match &self.label {
            Some(l) => l.as_static_str().is_none(),
            None => false,
        }
    }
}

} // verus!
