//! Sample data for measuring buffering: a small document, owned and
//! borrowed, and the tokens it streams as.
use vstd::prelude::*;

use crate::data::{ContainerKind, Index, Label, LabelView, Meta, MetaView, Tag};
use crate::fragments::text_tokens;
use crate::number::{decimal, decimal_u128};
use crate::token::{tokens_view, Scalar, Token, TokenView};

verus! {

/// The tag on a label taken from a field's or type's own name.
pub fn value_ident() -> (t: Tag)
    ensures
        t == value_ident_tag(),
{
    Tag::new("VALUE_IDENT")
}

pub open spec fn value_ident_tag() -> Tag {
    Tag { data: "VALUE_IDENT" }
}

/// The tag on an index given by a field's position.
pub fn value_offset() -> (t: Tag)
    ensures
        t == value_offset_tag(),
{
    Tag::new("VALUE_OFFSET")
}

pub open spec fn value_offset_tag() -> Tag {
    Tag { data: "VALUE_OFFSET" }
}

/// A document that owns its text.
#[derive(Debug)]
pub struct OwnedData {
    id: i32,
    title: String,
    attributes: Vec<String>,
}

/// A document that borrows its text.
#[derive(Debug)]
pub struct BorrowedData<'a> {
    id: i32,
    title: &'a str,
    attributes: &'a [&'a str],
}

/// The contents of a document.
pub struct DataView {
    pub id: i32,
    pub title: Seq<char>,
    pub attributes: Seq<Seq<char>>,
}

impl View for OwnedData {
    type V = DataView;

    closed spec fn view(&self) -> DataView {
        DataView {
            id: self.id,
            title: self.title@,
            attributes: self.attributes@.map_values(|s: String| s@),
        }
    }
}

impl<'a> View for BorrowedData<'a> {
    type V = DataView;

    closed spec fn view(&self) -> DataView {
        DataView {
            id: self.id,
            title: self.title@,
            attributes: self.attributes@.map_values(|s: &'a str| s@),
        }
    }
}

/// The sample document.
pub open spec fn sample() -> DataView {
    DataView {
        id: 42,
        title: "A very important document"@,
        attributes: seq!["#1"@, "#2"@, "#3"@],
    }
}

pub fn owned_data() -> (d: OwnedData)
    ensures
        d@ == sample(),
{
    let mut attributes: Vec<String> = Vec::new();
    attributes.push(String::from_str("#1"));
    attributes.push(String::from_str("#2"));
    attributes.push(String::from_str("#3"));
    let d = OwnedData { id: 42, title: String::from_str("A very important document"), attributes };
    assert(d@.attributes =~= sample().attributes);
    d
}

pub fn borrowed_data() -> (d: BorrowedData<'static>)
    ensures
        d@ == sample(),
{
    let attributes: &'static [&'static str] = &["#1", "#2", "#3"];
    let d = BorrowedData { id: 42, title: "A very important document", attributes };
    assert(d@.attributes =~= sample().attributes);
    d
}

/// A label from a field's or type's name.
pub open spec fn ident_label(name: Seq<char>) -> LabelView {
    LabelView { text: name, is_static: true, tag: Some(value_ident_tag()) }
}

/// The metadata of a document field: its name and position.
pub open spec fn field_meta(name: Seq<char>, i: i64) -> MetaView {
    MetaView {
        tag: None,
        label: Some(ident_label(name)),
        index: Some(Index { value: i, tag: Some(value_offset_tag()) }),
    }
}

pub open spec fn empty_meta() -> MetaView {
    MetaView { tag: None, label: None, index: None }
}

/// The tokens of a field: its value wrapped in the field's delimiters.
pub open spec fn field_tokens(name: Seq<char>, i: i64, value: Seq<TokenView>) -> Seq<TokenView> {
    seq![TokenView::Begin(ContainerKind::RecordTupleValue, field_meta(name, i), None)] + value
        + seq![TokenView::End(ContainerKind::RecordTupleValue, field_meta(name, i))]
}

/// The tokens of the values of a sequence of borrowed texts.
pub open spec fn text_items(items: Seq<Seq<char>>) -> Seq<TokenView>
    decreases items.len(),
{
    if items.len() == 0 {
        Seq::empty()
    } else {
        text_items(items.drop_last()) + seq![TokenView::Begin(ContainerKind::SeqValue, empty_meta(), None)]
            + text_tokens(items.last(), true)
            + seq![TokenView::End(ContainerKind::SeqValue, empty_meta())]
    }
}

/// The tokens of a sequence of borrowed texts.
pub open spec fn text_seq_tokens(items: Seq<Seq<char>>) -> Seq<TokenView> {
    seq![TokenView::Begin(ContainerKind::Sequence, empty_meta(), Some(items.len() as usize))]
        + text_items(items) + seq![TokenView::End(ContainerKind::Sequence, empty_meta())]
}

/// The tokens a document streams as: a record of its fields, each both
/// named and numbered.
pub open spec fn data_tokens(name: Seq<char>, d: DataView) -> Seq<TokenView> {
    let meta = MetaView { tag: None, label: Some(ident_label(name)), index: None };
    seq![TokenView::Begin(ContainerKind::RecordTuple, meta, Some(3))]
        + field_tokens("id"@, 0, seq![TokenView::Scalar(Scalar::I32(d.id))])
        + field_tokens("title"@, 1, text_tokens(d.title, true))
        + field_tokens("attributes"@, 2, text_seq_tokens(d.attributes))
        + seq![TokenView::End(ContainerKind::RecordTuple, meta)]
}

fn push_token<'a>(out: &mut Vec<Token<'a>>, t: Token<'a>)
    ensures
        tokens_view(final(out)@) == tokens_view(old(out)@).push(t@),
{
    let ghost v = t@;
    out.push(t);
    assert(tokens_view(out@) =~= tokens_view(old(out)@).push(v));
}

fn ident(name: &'static str) -> (l: Label<'static>)
    ensures
        l@ == ident_label(name@),
{
    Label::new(name).with_tag(value_ident())
}

fn field(name: &'static str, i: i64) -> (m: Meta<'static>)
    ensures
        m@ == field_meta(name@, i),
{
    Meta { tag: None, label: Some(ident(name)), index: Some(Index { value: i, tag: Some(value_offset()) }) }
}

fn push_text<'a>(out: &mut Vec<Token<'a>>, s: &'a str)
    ensures
        tokens_view(final(out)@) == tokens_view(old(out)@) + text_tokens(s@, true),
{
    push_token(out, Token::TextBegin(Some(s.len())));
    push_token(out, Token::TextFragment(s));
    push_token(out, Token::TextEnd);
    assert(tokens_view(out@) =~= tokens_view(old(out)@) + text_tokens(s@, true));
}

/// Stream the start of a document: the record's delimiter, its first two
/// fields, and the delimiter of its attributes.
fn push_record_begin<'a>(out: &mut Vec<Token<'a>>, name: &'static str, id: i32, title: &'a str)
    ensures
        tokens_view(final(out)@) == tokens_view(old(out)@)
            + seq![TokenView::Begin(ContainerKind::RecordTuple, MetaView { tag: None, label: Some(ident_label(name@)), index: None }, Some(3))]
            + field_tokens("id"@, 0, seq![TokenView::Scalar(Scalar::I32(id))])
            + field_tokens("title"@, 1, text_tokens(title@, true))
            + seq![
                TokenView::Begin(ContainerKind::RecordTupleValue, field_meta("attributes"@, 2), None),
            ],
{
    let ghost start = tokens_view(out@);
    push_token(out, Token::Begin(ContainerKind::RecordTuple, Meta { tag: None, label: Some(ident(name)), index: None }, Some(3)));
    push_token(out, Token::Begin(ContainerKind::RecordTupleValue, field("id", 0), None));
    push_token(out, Token::Scalar(Scalar::I32(id)));
    push_token(out, Token::End(ContainerKind::RecordTupleValue, field("id", 0)));
    push_token(out, Token::Begin(ContainerKind::RecordTupleValue, field("title", 1), None));
    push_text(out, title);
    push_token(out, Token::End(ContainerKind::RecordTupleValue, field("title", 1)));
    push_token(out, Token::Begin(ContainerKind::RecordTupleValue, field("attributes", 2), None));
    assert(tokens_view(out@) =~= start
        + seq![TokenView::Begin(ContainerKind::RecordTuple, MetaView { tag: None, label: Some(ident_label(name@)), index: None }, Some(3))]
        + field_tokens("id"@, 0, seq![TokenView::Scalar(Scalar::I32(id))])
        + field_tokens("title"@, 1, text_tokens(title@, true))
        + seq![
            TokenView::Begin(ContainerKind::RecordTupleValue, field_meta("attributes"@, 2), None),
        ]);
}

fn push_record_end<'a>(out: &mut Vec<Token<'a>>, name: &'static str)
    ensures
        tokens_view(final(out)@) == tokens_view(old(out)@)
            + seq![
                TokenView::End(ContainerKind::RecordTupleValue, field_meta("attributes"@, 2)),
                TokenView::End(ContainerKind::RecordTuple, MetaView { tag: None, label: Some(ident_label(name@)), index: None }),
            ],
{
    push_token(out, Token::End(ContainerKind::RecordTupleValue, field("attributes", 2)));
    push_token(out, Token::End(ContainerKind::RecordTuple, Meta { tag: None, label: Some(ident(name)), index: None }));
    assert(tokens_view(out@) =~= tokens_view(old(out)@)
        + seq![
            TokenView::End(ContainerKind::RecordTupleValue, field_meta("attributes"@, 2)),
            TokenView::End(ContainerKind::RecordTuple, MetaView { tag: None, label: Some(ident_label(name@)), index: None }),
        ]);
}

proof fn lemma_data_tokens(name: Seq<char>, d: DataView, out: Seq<TokenView>, head: Seq<TokenView>, tail: Seq<TokenView>)
    requires
        head == seq![TokenView::Begin(ContainerKind::RecordTuple, MetaView { tag: None, label: Some(ident_label(name)), index: None }, Some(3))]
            + field_tokens("id"@, 0, seq![TokenView::Scalar(Scalar::I32(d.id))])
            + field_tokens("title"@, 1, text_tokens(d.title, true))
            + seq![TokenView::Begin(ContainerKind::RecordTupleValue, field_meta("attributes"@, 2), None)],
        tail == seq![
            TokenView::End(ContainerKind::RecordTupleValue, field_meta("attributes"@, 2)),
            TokenView::End(ContainerKind::RecordTuple, MetaView { tag: None, label: Some(ident_label(name)), index: None }),
        ],
        out == head + text_seq_tokens(d.attributes) + tail,
    ensures
        out == data_tokens(name, d),
{
    assert(out =~= data_tokens(name, d));
}

impl OwnedData {
    /// The tokens this document streams as.
    pub fn to_tokens(&self) -> (ts: Vec<Token<'_>>)
        ensures
            tokens_view(ts@) == data_tokens("OwnedData"@, self@),
    {
        let mut out: Vec<Token<'_>> = Vec::new();
        push_record_begin(&mut out, "OwnedData", self.id, self.title.as_str());
        let ghost head = tokens_view(out@);
        push_token(&mut out, Token::Begin(ContainerKind::Sequence, Meta::empty(), Some(self.attributes.len())));
        let ghost items = self@.attributes;
        let mut i: usize = 0;
        while i < self.attributes.len()
            invariant
                i <= self.attributes@.len(),
                items == self@.attributes,
                items.len() == self.attributes@.len(),
                tokens_view(out@) == head
                    + seq![TokenView::Begin(ContainerKind::Sequence, empty_meta(), Some(items.len() as usize))]
                    + text_items(items.take(i as int)),
            decreases self.attributes@.len() - i,
        {
            push_token(&mut out, Token::Begin(ContainerKind::SeqValue, Meta::empty(), None));
            push_text(&mut out, self.attributes[i].as_str());
            push_token(&mut out, Token::End(ContainerKind::SeqValue, Meta::empty()));
            assert(items.take(i + 1).drop_last() =~= items.take(i as int));
            assert(items.take(i + 1).last() == items[i as int]);
            i = i + 1;
        }
        push_token(&mut out, Token::End(ContainerKind::Sequence, Meta::empty()));
        assert(items.take(i as int) =~= items);
        assert(tokens_view(out@) =~= head + text_seq_tokens(items));
        push_record_end(&mut out, "OwnedData");
        proof {
            lemma_data_tokens("OwnedData"@, self@, tokens_view(out@), head,
                seq![
                    TokenView::End(ContainerKind::RecordTupleValue, field_meta("attributes"@, 2)),
                    TokenView::End(ContainerKind::RecordTuple, MetaView { tag: None, label: Some(ident_label("OwnedData"@)), index: None }),
                ]);
        }
        out
    }
}

impl<'a> BorrowedData<'a> {
    /// The tokens this document streams as.
    pub fn to_tokens(&self) -> (ts: Vec<Token<'a>>)
        ensures
            tokens_view(ts@) == data_tokens("BorrowedData"@, self@),
    {
        let mut out: Vec<Token<'a>> = Vec::new();
        push_record_begin(&mut out, "BorrowedData", self.id, self.title);
        let ghost head = tokens_view(out@);
        push_token(&mut out, Token::Begin(ContainerKind::Sequence, Meta::empty(), Some(self.attributes.len())));
        let ghost items = self@.attributes;
        let mut i: usize = 0;
        while i < self.attributes.len()
            invariant
                i <= self.attributes@.len(),
                items == self@.attributes,
                items.len() == self.attributes@.len(),
                tokens_view(out@) == head
                    + seq![TokenView::Begin(ContainerKind::Sequence, empty_meta(), Some(items.len() as usize))]
                    + text_items(items.take(i as int)),
            decreases self.attributes@.len() - i,
        {
            push_token(&mut out, Token::Begin(ContainerKind::SeqValue, Meta::empty(), None));
            push_text(&mut out, self.attributes[i]);
            push_token(&mut out, Token::End(ContainerKind::SeqValue, Meta::empty()));
            assert(items.take(i + 1).drop_last() =~= items.take(i as int));
            assert(items.take(i + 1).last() == items[i as int]);
            i = i + 1;
        }
        push_token(&mut out, Token::End(ContainerKind::Sequence, Meta::empty()));
        assert(items.take(i as int) =~= items);
        assert(tokens_view(out@) =~= head + text_seq_tokens(items));
        push_record_end(&mut out, "BorrowedData");
        proof {
            lemma_data_tokens("BorrowedData"@, self@, tokens_view(out@), head,
                seq![
                    TokenView::End(ContainerKind::RecordTupleValue, field_meta("attributes"@, 2)),
                    TokenView::End(ContainerKind::RecordTuple, MetaView { tag: None, label: Some(ident_label("BorrowedData"@)), index: None }),
                ]);
        }
        out
    }
}

/// How severe a log record is.
#[derive(Debug, Clone, Copy, PartialEq, Eq, Structural)]
pub enum SeverityNumber {
    Unspecified,
    Trace,
    Debug,
    Info,
    Warn,
    Error,
    Fatal,
}

pub open spec fn severity_number(s: SeverityNumber) -> i32 {
    match s {
        SeverityNumber::Unspecified => 0,
        SeverityNumber::Trace => 1,
        SeverityNumber::Debug => 5,
        SeverityNumber::Info => 9,
        SeverityNumber::Warn => 13,
        SeverityNumber::Error => 17,
        SeverityNumber::Fatal => 21,
    }
}

impl SeverityNumber {
    /// The number that stands for this severity.
    pub fn number(self) -> (n: i32)
        ensures
            n == severity_number(self),
    {
        match self {
            SeverityNumber::Unspecified => 0,
            SeverityNumber::Trace => 1,
            SeverityNumber::Debug => 5,
            SeverityNumber::Info => 9,
            SeverityNumber::Warn => 13,
            SeverityNumber::Error => 17,
            SeverityNumber::Fatal => 21,
        }
    }
}

/// A map of short text keys to numbers, kept in the order of its keys.
#[derive(Debug)]
pub struct SmallKeyMap {
    entries: Vec<(String, u64)>,
}

impl View for SmallKeyMap {
    type V = Seq<(Seq<char>, u64)>;

    closed spec fn view(&self) -> Seq<(Seq<char>, u64)> {
        self.entries@.map_values(|e: (String, u64)| (e.0@, e.1))
    }
}

/// The numbers below 32 in the order of their decimal text: `0`, `1`,
/// `10` to `19`, `2`, `20` to `29`, `3`, `30`, `31`, then `4` to `9`.
pub open spec fn small_key_order(k: int) -> u64 {
    if k == 0 {
        0
    } else if k == 1 {
        1
    } else if k <= 11 {
        (k + 8) as u64
    } else if k == 12 {
        2
    } else if k <= 22 {
        (k + 7) as u64
    } else if k == 23 {
        3
    } else if k <= 25 {
        (k + 6) as u64
    } else {
        (k - 22) as u64
    }
}

/// The key of the number `n`.
pub open spec fn small_key(n: u64) -> Seq<char> {
    "key-"@ + decimal(n as nat)
}

/// The entries of the sample map: `key-n` for each number `n` below 32,
/// in the order of their keys.
pub open spec fn small_key_entries() -> Seq<(Seq<char>, u64)> {
    Seq::new(32, |k: int| (small_key(small_key_order(k)), small_key_order(k)))
}

fn small_key_number(k: u64) -> (n: u64)
    requires
        k < 32,
    ensures
        n == small_key_order(k as int),
{
    if k == 0 {
        0
    } else if k == 1 {
        1
    } else if k <= 11 {
        k + 8
    } else if k == 12 {
        2
    } else if k <= 22 {
        k + 7
    } else if k == 23 {
        3
    } else if k <= 25 {
        k + 6
    } else {
        k - 22
    }
}

/// The sample map of short keys.
pub fn small_key_map_data() -> (m: SmallKeyMap)
    ensures
        m@ == small_key_entries(),
{
    let mut entries: Vec<(String, u64)> = Vec::new();
    let mut k: u64 = 0;
    while k < 32
        invariant
            k <= 32,
            entries@.len() == k,
            forall|j: int| 0 <= j < k ==> ((#[trigger] entries@[j]).0@, entries@[j].1) == small_key_entries()[j],
        decreases 32 - k,
    {
        let n = small_key_number(k);
        proof {
            reveal_strlit("key-");
        }
        let mut key = String::from_str("key-");
        let digits = decimal_u128(n as u128);
        key.append(digits.as_str());
        entries.push((key, n));
        k = k + 1;
    }
    let m = SmallKeyMap { entries };
    assert(m@ =~= small_key_entries());
    m
}

/// The tokens of the entries of a map of texts to numbers.
pub open spec fn small_key_items(entries: Seq<(Seq<char>, u64)>) -> Seq<TokenView>
    decreases entries.len(),
{
    if entries.len() == 0 {
        Seq::empty()
    } else {
        small_key_items(entries.drop_last()) + seq![TokenView::Begin(ContainerKind::MapKey, empty_meta(), None)]
            + text_tokens(entries.last().0, true) + seq![
            TokenView::End(ContainerKind::MapKey, empty_meta()),
            TokenView::Begin(ContainerKind::MapValue, empty_meta(), None),
            TokenView::Scalar(Scalar::U64(entries.last().1)),
            TokenView::End(ContainerKind::MapValue, empty_meta()),
        ]
    }
}

/// The tokens a map of texts to numbers streams as, its keys borrowed.
pub open spec fn small_key_tokens(entries: Seq<(Seq<char>, u64)>) -> Seq<TokenView> {
    seq![TokenView::Begin(ContainerKind::Mapping, empty_meta(), Some(entries.len() as usize))]
        + small_key_items(entries) + seq![TokenView::End(ContainerKind::Mapping, empty_meta())]
}

impl SmallKeyMap {
    /// The tokens this map streams as.
    pub fn to_tokens(&self) -> (ts: Vec<Token<'_>>)
        ensures
            tokens_view(ts@) == small_key_tokens(self@),
    {
        let mut out: Vec<Token<'_>> = Vec::new();
        push_token(&mut out, Token::Begin(ContainerKind::Mapping, Meta::empty(), Some(self.entries.len())));
        let ghost head = tokens_view(out@);
        let ghost items = self@;
        let mut i: usize = 0;
        while i < self.entries.len()
            invariant
                i <= self.entries@.len(),
                items == self@,
                items.len() == self.entries@.len(),
                head == seq![TokenView::Begin(ContainerKind::Mapping, empty_meta(), Some(items.len() as usize))],
                tokens_view(out@) == head + small_key_items(items.take(i as int)),
            decreases self.entries@.len() - i,
        {
            let (key, n) = &self.entries[i];
            push_token(&mut out, Token::Begin(ContainerKind::MapKey, Meta::empty(), None));
            push_text(&mut out, key.as_str());
            push_token(&mut out, Token::End(ContainerKind::MapKey, Meta::empty()));
            push_token(&mut out, Token::Begin(ContainerKind::MapValue, Meta::empty(), None));
            push_token(&mut out, Token::Scalar(Scalar::U64(*n)));
            push_token(&mut out, Token::End(ContainerKind::MapValue, Meta::empty()));
            assert(items.take(i + 1).drop_last() =~= items.take(i as int));
            assert(items.take(i + 1).last() == items[i as int]);
            assert(tokens_view(out@) =~= head + small_key_items(items.take(i + 1)));
            i = i + 1;
        }
        push_token(&mut out, Token::End(ContainerKind::Mapping, Meta::empty()));
        assert(items.take(i as int) =~= items);
        assert(tokens_view(out@) =~= small_key_tokens(items));
        out
    }
}

} // verus!
