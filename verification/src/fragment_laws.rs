//! What collecting text or binary does, whatever the fragments: the
//! fragments are joined in order, and enum and tagged wrappers and tag
//! hints leave the result as it was.
use vstd::prelude::*;

use crate::data::{ContainerKind, MetaView, Tag};
use crate::fragments::{binary_collect, text_collect, BinaryBufView, TextBufView};
use crate::token::TokenView;

verus! {

/// Whether a token is a fragment of text.
pub open spec fn is_text_fragment(t: TokenView) -> bool {
    t is TextFragment || t is TextFragmentComputed
}

/// Whether a token is a fragment of binary.
pub open spec fn is_binary_fragment(t: TokenView) -> bool {
    t is BinaryFragment || t is BinaryFragmentComputed
}

/// The text of some text fragments, one after another.
pub open spec fn fragment_text(fs: Seq<TokenView>) -> Seq<char>
    decreases fs.len(),
{
    if fs.len() == 0 {
        Seq::empty()
    } else {
        fragment_text(fs.drop_last()) + match fs.last() {
            TokenView::TextFragment(f) => f,
            TokenView::TextFragmentComputed(f) => f,
            _ => Seq::empty(),
        }
    }
}

/// The bytes of some binary fragments, one after another.
pub open spec fn fragment_bytes(fs: Seq<TokenView>) -> Seq<u8>
    decreases fs.len(),
{
    if fs.len() == 0 {
        Seq::empty()
    } else {
        fragment_bytes(fs.drop_last()) + match fs.last() {
            TokenView::BinaryFragment(f) => f,
            TokenView::BinaryFragmentComputed(f) => f,
            _ => Seq::empty(),
        }
    }
}

pub proof fn lemma_text_collect_append(b: TextBufView, xs: Seq<TokenView>, ys: Seq<TokenView>)
    ensures
        text_collect(b, xs + ys) == match text_collect(b, xs) {
            Ok(b2) => text_collect(b2, ys),
            Err(e) => Err(e),
        },
    decreases xs.len(),
{
    if xs.len() == 0 {
        assert(xs + ys =~= ys);
    } else {
        assert((xs + ys).drop_first() =~= xs.drop_first() + ys);
        assert((xs + ys)[0] == xs[0]);
        match crate::fragments::text_collect_step(b, xs[0]) {
            Ok(b1) => lemma_text_collect_append(b1, xs.drop_first(), ys),
            Err(_) => {},
        }
    }
}

pub proof fn lemma_binary_collect_append(b: BinaryBufView, xs: Seq<TokenView>, ys: Seq<TokenView>)
    ensures
        binary_collect(b, xs + ys) == match binary_collect(b, xs) {
            Ok(b2) => binary_collect(b2, ys),
            Err(e) => Err(e),
        },
    decreases xs.len(),
{
    if xs.len() == 0 {
        assert(xs + ys =~= ys);
    } else {
        assert((xs + ys).drop_first() =~= xs.drop_first() + ys);
        assert((xs + ys)[0] == xs[0]);
        match crate::fragments::binary_collect_step(b, xs[0]) {
            Ok(b1) => lemma_binary_collect_append(b1, xs.drop_first(), ys),
            Err(_) => {},
        }
    }
}

proof fn lemma_text_collect_single(b: TextBufView, t: TokenView)
    ensures
        text_collect(b, seq![t]) == crate::fragments::text_collect_step(b, t),
{
    assert(seq![t].drop_first() =~= Seq::<TokenView>::empty());
    assert(seq![t][0] == t);
    match crate::fragments::text_collect_step(b, t) {
        Ok(b2) => assert(text_collect(b2, seq![t].drop_first()) == Ok::<TextBufView, crate::error::Error>(b2)),
        Err(_) => {},
    }
}

proof fn lemma_binary_collect_single(b: BinaryBufView, t: TokenView)
    ensures
        binary_collect(b, seq![t]) == crate::fragments::binary_collect_step(b, t),
{
    assert(seq![t].drop_first() =~= Seq::<TokenView>::empty());
    assert(seq![t][0] == t);
    match crate::fragments::binary_collect_step(b, t) {
        Ok(b2) => assert(binary_collect(b2, seq![t].drop_first()) == Ok::<BinaryBufView, crate::error::Error>(b2)),
        Err(_) => {},
    }
}

/// Text fragments, borrowed or computed, are joined in order after the
/// text already collected.
pub proof fn law_text_fragments_joined(b: TextBufView, fs: Seq<TokenView>)
    requires
        forall|i: int| 0 <= i < fs.len() ==> is_text_fragment(#[trigger] fs[i]),
    ensures
        text_collect(b, fs) matches Ok(r) && r.text == b.text + fragment_text(fs),
    decreases fs.len(),
{
    if fs.len() == 0 {
        assert(b.text + Seq::<char>::empty() =~= b.text);
    } else {
        let init = fs.drop_last();
        assert forall|i: int| 0 <= i < init.len() implies is_text_fragment(#[trigger] init[i]) by {
            assert(init[i] == fs[i]);
        }
        law_text_fragments_joined(b, init);
        assert(fs =~= init + seq![fs.last()]);
        lemma_text_collect_append(b, init, seq![fs.last()]);
        let b2 = text_collect(b, init)->Ok_0;
        lemma_text_collect_single(b2, fs.last());
        assert(is_text_fragment(fs[fs.len() - 1]));
        let f = match fs.last() {
            TokenView::TextFragment(f) => f,
            TokenView::TextFragmentComputed(f) => f,
            _ => Seq::empty(),
        };
        assert(Seq::<char>::empty() + f =~= f);
        assert(b.text + fragment_text(init) + f =~= b.text + fragment_text(fs));
    }
}

/// Binary fragments, borrowed or computed, are joined in order after the
/// bytes already collected.
pub proof fn law_binary_fragments_joined(b: BinaryBufView, fs: Seq<TokenView>)
    requires
        forall|i: int| 0 <= i < fs.len() ==> is_binary_fragment(#[trigger] fs[i]),
    ensures
        binary_collect(b, fs) matches Ok(r) && r.bytes == b.bytes + fragment_bytes(fs),
    decreases fs.len(),
{
    if fs.len() == 0 {
        assert(b.bytes + Seq::<u8>::empty() =~= b.bytes);
    } else {
        let init = fs.drop_last();
        assert forall|i: int| 0 <= i < init.len() implies is_binary_fragment(#[trigger] init[i]) by {
            assert(init[i] == fs[i]);
        }
        law_binary_fragments_joined(b, init);
        assert(fs =~= init + seq![fs.last()]);
        lemma_binary_collect_append(b, init, seq![fs.last()]);
        let b2 = binary_collect(b, init)->Ok_0;
        lemma_binary_collect_single(b2, fs.last());
        assert(is_binary_fragment(fs[fs.len() - 1]));
        let f = match fs.last() {
            TokenView::BinaryFragment(f) => f,
            TokenView::BinaryFragmentComputed(f) => f,
            _ => Seq::empty(),
        };
        assert(Seq::<u8>::empty() + f =~= f);
        assert(b.bytes + fragment_bytes(init) + f =~= b.bytes + fragment_bytes(fs));
    }
}

/// A whole text value, from its begin to its end, collects into the
/// text of its fragments, in order.
pub proof fn law_text_value_collected(hint: Option<usize>, fs: Seq<TokenView>)
    requires
        forall|i: int| 0 <= i < fs.len() ==> is_text_fragment(#[trigger] fs[i]),
    ensures
        text_collect(TextBufView { text: Seq::empty(), borrowed: true },
            seq![TokenView::TextBegin(hint)] + fs + seq![TokenView::TextEnd]) matches Ok(r)
            && r.text == fragment_text(fs),
{
    let b = TextBufView { text: Seq::empty(), borrowed: true };
    lemma_text_collect_append(b, seq![TokenView::TextBegin(hint)], fs);
    lemma_text_collect_single(b, TokenView::TextBegin(hint));
    law_text_fragments_joined(b, fs);
    lemma_text_collect_append(b, seq![TokenView::TextBegin(hint)] + fs, seq![TokenView::TextEnd]);
    let r = text_collect(b, fs)->Ok_0;
    lemma_text_collect_single(r, TokenView::TextEnd);
    assert(Seq::<char>::empty() + fragment_text(fs) =~= fragment_text(fs));
}

/// A whole binary value, from its begin to its end, collects into the
/// bytes of its fragments, in order.
pub proof fn law_binary_value_collected(hint: Option<usize>, fs: Seq<TokenView>)
    requires
        forall|i: int| 0 <= i < fs.len() ==> is_binary_fragment(#[trigger] fs[i]),
    ensures
        binary_collect(BinaryBufView { bytes: Seq::empty(), borrowed: true },
            seq![TokenView::BinaryBegin(hint)] + fs + seq![TokenView::BinaryEnd]) matches Ok(r)
            && r.bytes == fragment_bytes(fs),
{
    let b = BinaryBufView { bytes: Seq::empty(), borrowed: true };
    lemma_binary_collect_append(b, seq![TokenView::BinaryBegin(hint)], fs);
    lemma_binary_collect_single(b, TokenView::BinaryBegin(hint));
    law_binary_fragments_joined(b, fs);
    lemma_binary_collect_append(b, seq![TokenView::BinaryBegin(hint)] + fs, seq![TokenView::BinaryEnd]);
    let r = binary_collect(b, fs)->Ok_0;
    lemma_binary_collect_single(r, TokenView::BinaryEnd);
    assert(Seq::<u8>::empty() + fragment_bytes(fs) =~= fragment_bytes(fs));
}

/// Whether a container kind only wraps the value inside it.
pub open spec fn is_wrapper(kind: ContainerKind) -> bool {
    kind == ContainerKind::Enum || kind == ContainerKind::Tagged
}

/// An enum or tagged wrapper around text collects as the text inside it.
pub proof fn law_text_wrapper_transparent(
    b: TextBufView,
    kind: ContainerKind,
    m: MetaView,
    hint: Option<usize>,
    m2: MetaView,
    ts: Seq<TokenView>,
)
    requires
        is_wrapper(kind),
    ensures
        text_collect(b, seq![TokenView::Begin(kind, m, hint)] + ts + seq![TokenView::End(kind, m2)])
            == text_collect(b, ts),
{
    let w = seq![TokenView::Begin(kind, m, hint)];
    let e = seq![TokenView::End(kind, m2)];
    lemma_text_collect_append(b, w + ts, e);
    lemma_text_collect_append(b, w, ts);
    lemma_text_collect_single(b, TokenView::Begin(kind, m, hint));
    match text_collect(b, ts) {
        Ok(b2) => lemma_text_collect_single(b2, TokenView::End(kind, m2)),
        Err(_) => {},
    }
}

/// An enum or tagged wrapper around binary collects as the binary inside it.
pub proof fn law_binary_wrapper_transparent(
    b: BinaryBufView,
    kind: ContainerKind,
    m: MetaView,
    hint: Option<usize>,
    m2: MetaView,
    ts: Seq<TokenView>,
)
    requires
        is_wrapper(kind),
    ensures
        binary_collect(b, seq![TokenView::Begin(kind, m, hint)] + ts + seq![TokenView::End(kind, m2)])
            == binary_collect(b, ts),
{
    let w = seq![TokenView::Begin(kind, m, hint)];
    let e = seq![TokenView::End(kind, m2)];
    lemma_binary_collect_append(b, w + ts, e);
    lemma_binary_collect_append(b, w, ts);
    lemma_binary_collect_single(b, TokenView::Begin(kind, m, hint));
    match binary_collect(b, ts) {
        Ok(b2) => lemma_binary_collect_single(b2, TokenView::End(kind, m2)),
        Err(_) => {},
    }
}

/// A tag hint anywhere among text tokens changes nothing.
pub proof fn law_text_tag_hint_ignored(b: TextBufView, xs: Seq<TokenView>, t: Tag, ys: Seq<TokenView>)
    ensures
        text_collect(b, xs + seq![TokenView::TagHint(t)] + ys) == text_collect(b, xs + ys),
{
    lemma_text_collect_append(b, xs + seq![TokenView::TagHint(t)], ys);
    lemma_text_collect_append(b, xs, seq![TokenView::TagHint(t)]);
    lemma_text_collect_append(b, xs, ys);
    match text_collect(b, xs) {
        Ok(b2) => lemma_text_collect_single(b2, TokenView::TagHint(t)),
        Err(_) => {},
    }
}

/// A tag hint anywhere among binary tokens changes nothing.
pub proof fn law_binary_tag_hint_ignored(b: BinaryBufView, xs: Seq<TokenView>, t: Tag, ys: Seq<TokenView>)
    ensures
        binary_collect(b, xs + seq![TokenView::TagHint(t)] + ys) == binary_collect(b, xs + ys),
{
    lemma_binary_collect_append(b, xs + seq![TokenView::TagHint(t)], ys);
    lemma_binary_collect_append(b, xs, seq![TokenView::TagHint(t)]);
    lemma_binary_collect_append(b, xs, ys);
    match binary_collect(b, xs) {
        Ok(b2) => lemma_binary_collect_single(b2, TokenView::TagHint(t)),
        Err(_) => {},
    }
}

} // verus!
