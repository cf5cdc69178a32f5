//! Streaming buffered parts back out as tokens.
use vstd::prelude::*;

use crate::data::{ContainerKind, MetaView};
use crate::token::{tokens_view, Scalar, Token, TokenView};
use super::part::{text_size, BinaryPart, Part, PartView, TextPart};
use super::parts::Parts;

verus! {

/// The hint a container's begin token carries: its number of entries, for
/// containers that count them.
pub open spec fn entries_hint(kind: ContainerKind, num_entries: u32) -> Option<usize> {
    if kind.is_entry_tracking() {
        Some(num_entries as usize)
    } else {
        None
    }
}

/// The tokens a part without a body streams as.
pub open spec fn leaf_tokens(p: PartView) -> Seq<TokenView> {
    match p {
        PartView::Scalar(s) => seq![TokenView::Scalar(s)],
        PartView::Tag(m) => seq![TokenView::Tag(m)],
        PartView::TagHint(t) => seq![TokenView::TagHint(t)],
        PartView::Text { borrowed, text } => seq![
            TokenView::TextBegin(Some(text_size(text))),
            if borrowed { TokenView::TextFragment(text) } else { TokenView::TextFragmentComputed(text) },
            TokenView::TextEnd,
        ],
        PartView::Binary { borrowed, bytes } => seq![
            TokenView::BinaryBegin(Some(bytes.len() as usize)),
            if borrowed { TokenView::BinaryFragment(bytes) } else { TokenView::BinaryFragmentComputed(bytes) },
            TokenView::BinaryEnd,
        ],
        PartView::Container { .. } => Seq::empty(),
    }
}

/// Where the body of the container at `s` ends, kept within `e`.
pub open spec fn body_end(ps: Seq<PartView>, s: int, e: int) -> int {
    if s + 1 + ps[s]->len <= e {
        s + 1 + ps[s]->len
    } else {
        e
    }
}

/// The tokens the parts in `[s, e)` stream as: each container's body sits
/// in the parts after its header, as many as its length says.
pub open spec fn decode_range(ps: Seq<PartView>, s: int, e: int) -> Seq<TokenView>
    decreases e - s,
{
    if s < 0 || e > ps.len() || s >= e {
        Seq::empty()
    } else {
        match ps[s] {
            PartView::Container { kind, len, num_entries, meta } => {
                let be = body_end(ps, s, e);
                seq![TokenView::Begin(kind, meta, entries_hint(kind, num_entries))]
                    + decode_range(ps, s + 1, be)
                    + seq![TokenView::End(kind, meta)]
                    + decode_range(ps, be, e)
            },
            p => leaf_tokens(p) + decode_range(ps, s + 1, e),
        }
    }
}

/// The tokens a buffer streams as; an empty buffer streams as null.
pub open spec fn decode(ps: Seq<PartView>) -> Seq<TokenView> {
    if ps.len() == 0 {
        seq![TokenView::Scalar(Scalar::Null)]
    } else {
        decode_range(ps, 0, ps.len() as int)
    }
}

pub proof fn lemma_decode_range_unfold(ps: Seq<PartView>, s: int, e: int)
    requires
        0 <= s < e <= ps.len(),
    ensures
        decode_range(ps, s, e) == (match ps[s] {
            PartView::Container { kind, len, num_entries, meta } => {
                let be = body_end(ps, s, e);
                seq![TokenView::Begin(kind, meta, entries_hint(kind, num_entries))]
                    + decode_range(ps, s + 1, be)
                    + seq![TokenView::End(kind, meta)]
                    + decode_range(ps, be, e)
            },
            p => leaf_tokens(p) + decode_range(ps, s + 1, e),
        }),
{
}

fn push_token<'sval>(out: &mut Vec<Token<'sval>>, t: Token<'sval>)
    ensures
        tokens_view(final(out)@) == tokens_view(old(out)@).push(t@),
{
    let ghost v = t@;
    out.push(t);
    assert(tokens_view(out@) =~= tokens_view(old(out)@).push(v));
}

/// Stream the parts in `[s, e)` out as tokens.
pub fn decode_into<'sval>(parts: &Parts<'sval>, s: usize, e: usize, out: &mut Vec<Token<'sval>>)
    requires
        s <= e <= parts@.len(),
    ensures
        tokens_view(final(out)@) == tokens_view(old(out)@) + decode_range(parts@, s as int, e as int),
    decreases e - s,
{
    let ghost ps = parts@;
    let mut i = s;
    assert(tokens_view(out@) + decode_range(ps, s as int, e as int) =~= tokens_view(old(out)@) + decode_range(ps, s as int, e as int));
    while i < e
        invariant
            s <= i <= e <= ps.len(),
            ps == parts@,
            tokens_view(out@) + decode_range(ps, i as int, e as int)
                == tokens_view(old(out)@) + decode_range(ps, s as int, e as int),
        decreases e - i,
    {
        let ghost before = tokens_view(out@);
        proof {
            lemma_decode_range_unfold(ps, i as int, e as int);
        }
        match parts.get(i) {
            Part::Container(h) => {
                let hint = if h.kind.entry_tracking() { Some(h.num_entries as usize) } else { None };
                push_token(out, Token::Begin(h.kind, h.meta.to_owned(), hint));
                let be = if h.len as usize <= e - (i + 1) { i + 1 + h.len as usize } else { e };
                decode_into(parts, i + 1, be, out);
                push_token(out, Token::End(h.kind, h.meta.to_owned()));
                let ghost k = h.kind;
                let ghost m = h.meta@;
                assert(tokens_view(out@) + decode_range(ps, be as int, e as int) =~= before
                    + (seq![TokenView::Begin(k, m, super::decode::entries_hint(k, h.num_entries))]
                    + decode_range(ps, i + 1, be as int)
                    + seq![TokenView::End(k, m)]
                    + decode_range(ps, be as int, e as int)));
                i = be;
            },
            p => {
                let ghost pv = p@;
                push_leaf(p, out);
                assert(tokens_view(out@) + decode_range(ps, i + 1, e as int) =~= before
                    + (leaf_tokens(pv) + decode_range(ps, i + 1, e as int)));
                i = i + 1;
            },
        }
    }
}

/// Stream a part without a body out as tokens.
fn push_leaf<'sval>(p: &Part<'sval>, out: &mut Vec<Token<'sval>>)
    requires
        !(p@ is Container),
    ensures
        tokens_view(final(out)@) == tokens_view(old(out)@) + leaf_tokens(p@),
{
    match p {
        Part::Scalar(s) => push_token(out, Token::Scalar(*s)),
        Part::Tag(m) => push_token(out, Token::Tag(m.to_owned())),
        Part::TagHint(t) => push_token(out, Token::TagHint(*t)),
        Part::Text(TextPart::Borrowed(s)) => {
            push_token(out, Token::TextBegin(Some(s.len())));
            push_token(out, Token::TextFragment(*s));
            push_token(out, Token::TextEnd);
        },
        Part::Text(TextPart::Inline(s)) => {
            push_token(out, Token::TextBegin(Some(s.as_str().len())));
            push_token(out, Token::TextFragmentComputed(s.clone()));
            push_token(out, Token::TextEnd);
        },
        Part::Binary(BinaryPart::Borrowed(b)) => {
            push_token(out, Token::BinaryBegin(Some(b.len())));
            push_token(out, Token::BinaryFragment(*b));
            push_token(out, Token::BinaryEnd);
        },
        Part::Binary(BinaryPart::Inline(b)) => {
            push_token(out, Token::BinaryBegin(Some(b.len())));
            push_token(out, Token::BinaryFragmentComputed(vstd::slice::slice_to_vec(b.as_slice())));
            push_token(out, Token::BinaryEnd);
        },
        Part::Container(_) => {},
    }
    assert(tokens_view(out@) =~= tokens_view(old(out)@) + leaf_tokens(p@));
}

/// Stream a whole buffer out as tokens.
pub fn decode_parts<'sval>(parts: &Parts<'sval>) -> (ts: Vec<Token<'sval>>)
    ensures
        tokens_view(ts@) == decode(parts@),
{
    let mut out = Vec::new();
    if parts.len() == 0 {
        push_token(&mut out, Token::Scalar(Scalar::Null));
        assert(tokens_view(Seq::<Token<'sval>>::empty()) =~= Seq::<TokenView>::empty());
        assert(tokens_view(out@) =~= decode(parts@));
        return out;
    }
    assert(tokens_view(out@) =~= Seq::<TokenView>::empty());
    decode_into(parts, 0, parts.len(), &mut out);
    assert(tokens_view(out@) =~= decode(parts@));
    out
}

} // verus!
