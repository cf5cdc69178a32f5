//! The primitive values of a buffer come back out as they went in.
use vstd::prelude::*;

use crate::token::{Scalar, TokenView};
use super::decode::{body_end, decode, decode_range, leaf_tokens, lemma_decode_range_unfold};
use super::laws::{lemma_step_structured, lemma_structured_empty, structured};
use super::model::{empty_buf, run, step, token_op, BufferingView, FragmentState, ValueBufView};
use super::part::PartView;

verus! {

/// The primitive values among some tokens, in order.
pub open spec fn primitives(ts: Seq<TokenView>) -> Seq<Scalar>
    decreases ts.len(),
{
    if ts.len() == 0 {
        Seq::empty()
    } else {
        (match ts[0] {
            TokenView::Scalar(x) => seq![x],
            _ => Seq::empty(),
        }) + primitives(ts.drop_first())
    }
}

/// The primitive values among some parts, in order.
pub open spec fn part_primitives(ps: Seq<PartView>) -> Seq<Scalar>
    decreases ps.len(),
{
    if ps.len() == 0 {
        Seq::empty()
    } else {
        (match ps[0] {
            PartView::Scalar(x) => seq![x],
            _ => Seq::empty(),
        }) + part_primitives(ps.drop_first())
    }
}

proof fn lemma_primitives_concat(a: Seq<TokenView>, b: Seq<TokenView>)
    ensures
        primitives(a + b) == primitives(a) + primitives(b),
    decreases a.len(),
{
    if a.len() == 0 {
        assert(a + b =~= b);
        assert(primitives(a) + primitives(b) =~= primitives(b));
    } else {
        assert((a + b)[0] == a[0]);
        assert((a + b).drop_first() =~= a.drop_first() + b);
        lemma_primitives_concat(a.drop_first(), b);
        let h = match a[0] {
            TokenView::Scalar(x) => seq![x],
            _ => Seq::<Scalar>::empty(),
        };
        assert(h + (primitives(a.drop_first()) + primitives(b)) =~= (h + primitives(a.drop_first())) + primitives(b));
    }
}

proof fn lemma_part_primitives_concat(a: Seq<PartView>, b: Seq<PartView>)
    ensures
        part_primitives(a + b) == part_primitives(a) + part_primitives(b),
    decreases a.len(),
{
    if a.len() == 0 {
        assert(a + b =~= b);
        assert(part_primitives(a) + part_primitives(b) =~= part_primitives(b));
    } else {
        assert((a + b)[0] == a[0]);
        assert((a + b).drop_first() =~= a.drop_first() + b);
        lemma_part_primitives_concat(a.drop_first(), b);
        let h = match a[0] {
            PartView::Scalar(x) => seq![x],
            _ => Seq::<Scalar>::empty(),
        };
        assert(h + (part_primitives(a.drop_first()) + part_primitives(b)) =~= (h + part_primitives(a.drop_first())) + part_primitives(b));
    }
}

proof fn lemma_part_primitives_single(p: PartView)
    ensures
        part_primitives(seq![p]) == (match p {
            PartView::Scalar(x) => seq![x],
            _ => Seq::<Scalar>::empty(),
        }),
{
    let ps = seq![p];
    assert(ps.drop_first() =~= Seq::<PartView>::empty());
    assert(ps[0] == p);
    assert(part_primitives(ps.drop_first()) =~= Seq::<Scalar>::empty());
    let h = match p {
        PartView::Scalar(x) => seq![x],
        _ => Seq::<Scalar>::empty(),
    };
    assert(h + Seq::<Scalar>::empty() =~= h);
}

proof fn lemma_primitives_single(t: TokenView)
    ensures
        primitives(seq![t]) == (match t {
            TokenView::Scalar(x) => seq![x],
            _ => Seq::<Scalar>::empty(),
        }),
{
    let ts = seq![t];
    assert(ts.drop_first() =~= Seq::<TokenView>::empty());
    assert(ts[0] == t);
    assert(primitives(ts.drop_first()) =~= Seq::<Scalar>::empty());
    let h = match t {
        TokenView::Scalar(x) => seq![x],
        _ => Seq::<Scalar>::empty(),
    };
    assert(h + Seq::<Scalar>::empty() =~= h);
}

/// Tokens without a primitive value among them have no primitives.
proof fn lemma_primitives_none(ts: Seq<TokenView>)
    requires
        forall|i: int| 0 <= i < ts.len() ==> !(#[trigger] ts[i] is Scalar),
    ensures
        primitives(ts) == Seq::<Scalar>::empty(),
    decreases ts.len(),
{
    if ts.len() > 0 {
        assert(!(ts[0] is Scalar));
        assert forall|i: int| 0 <= i < ts.drop_first().len() implies !(#[trigger] ts.drop_first()[i] is Scalar) by {
            assert(ts.drop_first()[i] == ts[i + 1]);
        }
        lemma_primitives_none(ts.drop_first());
        assert(Seq::<Scalar>::empty() + Seq::<Scalar>::empty() =~= Seq::<Scalar>::empty());
    }
}

/// Pushing a part adds its primitive value, if it is one.
proof fn lemma_part_primitives_push(ps: Seq<PartView>, p: PartView)
    ensures
        part_primitives(ps.push(p)) == part_primitives(ps) + (match p {
            PartView::Scalar(x) => seq![x],
            _ => Seq::<Scalar>::empty(),
        }),
{
    assert(ps.push(p) =~= ps + seq![p]);
    lemma_part_primitives_concat(ps, seq![p]);
    lemma_part_primitives_single(p);
}

/// Replacing a part that isn't a primitive with another that isn't keeps
/// the primitives.
proof fn lemma_part_primitives_update(ps: Seq<PartView>, i: int, q: PartView)
    requires
        0 <= i < ps.len(),
        !(ps[i] is Scalar),
        !(q is Scalar),
    ensures
        part_primitives(ps.update(i, q)) == part_primitives(ps),
    decreases ps.len(),
{
    let us = ps.update(i, q);
    if i == 0 {
        assert(us.drop_first() =~= ps.drop_first());
    } else {
        assert(us[0] == ps[0]);
        assert(us.drop_first() =~= ps.drop_first().update(i - 1, q));
        lemma_part_primitives_update(ps.drop_first(), i - 1, q);
    }
}

/// What a successful call does to the primitives among a buffer's parts:
/// a primitive value is added, and nothing else changes them.
proof fn lemma_step_primitives(b: ValueBufView, t: TokenView)
    requires
        structured(b),
        token_op(b, t).1 is Ok,
    ensures
        part_primitives(token_op(b, t).0.parts) == part_primitives(b.parts) + primitives(seq![t]),
{
    let ps = b.parts;
    lemma_primitives_single(t);
    let out = token_op(b, t).0.parts;
    match t {
        TokenView::Scalar(x) => {
            lemma_part_primitives_push(ps, PartView::Scalar(x));
        },
        TokenView::Tag(m) => {
            lemma_part_primitives_push(ps, PartView::Tag(m));
            assert(part_primitives(ps) + Seq::<Scalar>::empty() =~= part_primitives(ps));
        },
        TokenView::TagHint(h) => {
            lemma_part_primitives_push(ps, PartView::TagHint(h));
            assert(part_primitives(ps) + Seq::<Scalar>::empty() =~= part_primitives(ps));
        },
        TokenView::Begin(k, m, _) => {
            lemma_part_primitives_push(ps, PartView::Container { kind: k, len: 0, num_entries: 0, meta: m.for_kind(k) });
            assert(part_primitives(ps) + Seq::<Scalar>::empty() =~= part_primitives(ps));
        },
        TokenView::End(..) => {
            let f = b.stack.last();
            if ps[f.len_at as int] is Container {
                lemma_part_primitives_update(ps, f.len_at as int, out[f.len_at as int]);
            }
            assert(part_primitives(ps) + Seq::<Scalar>::empty() =~= part_primitives(ps));
        },
        TokenView::TextFragment(f) => {
            if !(b.buffering matches BufferingView::Text(FragmentState::Empty)) {
                lemma_text_primitives(b, f);
            }
            assert(part_primitives(ps) + Seq::<Scalar>::empty() =~= part_primitives(ps));
        },
        TokenView::TextFragmentComputed(f) => {
            lemma_text_primitives(b, f);
            assert(part_primitives(ps) + Seq::<Scalar>::empty() =~= part_primitives(ps));
        },
        TokenView::TextEnd => {
            lemma_text_end_primitives(b);
            assert(part_primitives(ps) + Seq::<Scalar>::empty() =~= part_primitives(ps));
        },
        TokenView::BinaryFragment(f) => {
            if !(b.buffering matches BufferingView::Binary(FragmentState::Empty)) {
                lemma_binary_primitives(b, f);
            }
            assert(part_primitives(ps) + Seq::<Scalar>::empty() =~= part_primitives(ps));
        },
        TokenView::BinaryFragmentComputed(f) => {
            lemma_binary_primitives(b, f);
            assert(part_primitives(ps) + Seq::<Scalar>::empty() =~= part_primitives(ps));
        },
        TokenView::BinaryEnd => {
            lemma_binary_end_primitives(b);
            assert(part_primitives(ps) + Seq::<Scalar>::empty() =~= part_primitives(ps));
        },
        _ => {
            assert(part_primitives(ps) + Seq::<Scalar>::empty() =~= part_primitives(ps));
        },
    }
}

proof fn lemma_text_primitives(b: ValueBufView, f: Seq<char>)
    requires
        structured(b),
        super::model::text_inline(b, f).1 is Ok,
    ensures
        part_primitives(super::model::text_inline(b, f).0.parts) == part_primitives(b.parts),
{
    let ps = b.parts;
    let at = ps.len() as int;
    let e = PartView::Text { borrowed: false, text: Seq::empty() };
    match b.buffering {
        BufferingView::Text(FragmentState::Inline(i)) => {
            lemma_part_primitives_update(ps, i as int, super::model::text_inline(b, f).0.parts[i as int]);
        },
        BufferingView::Text(FragmentState::Borrowed(prev)) => {
            lemma_part_primitives_push(ps, e);
            let p1 = ps.push(e);
            let p2 = super::model::text_appended(p1, at, prev);
            lemma_part_primitives_update(p1, at, p2[at]);
            lemma_part_primitives_update(p2, at, super::model::text_appended(p2, at, f)[at]);
        },
        BufferingView::Text(FragmentState::Empty) => {
            lemma_part_primitives_push(ps, e);
            let p1 = ps.push(e);
            lemma_part_primitives_update(p1, at, super::model::text_appended(p1, at, f)[at]);
        },
        _ => {},
    }
    assert(part_primitives(ps) + Seq::<Scalar>::empty() =~= part_primitives(ps));
}

proof fn lemma_binary_primitives(b: ValueBufView, f: Seq<u8>)
    requires
        structured(b),
        super::model::binary_inline(b, f).1 is Ok,
    ensures
        part_primitives(super::model::binary_inline(b, f).0.parts) == part_primitives(b.parts),
{
    let ps = b.parts;
    let at = ps.len() as int;
    let e = PartView::Binary { borrowed: false, bytes: Seq::empty() };
    match b.buffering {
        BufferingView::Binary(FragmentState::Inline(i)) => {
            lemma_part_primitives_update(ps, i as int, super::model::binary_inline(b, f).0.parts[i as int]);
        },
        BufferingView::Binary(FragmentState::Borrowed(prev)) => {
            lemma_part_primitives_push(ps, e);
            let p1 = ps.push(e);
            let p2 = super::model::binary_appended(p1, at, prev);
            lemma_part_primitives_update(p1, at, p2[at]);
            lemma_part_primitives_update(p2, at, super::model::binary_appended(p2, at, f)[at]);
        },
        BufferingView::Binary(FragmentState::Empty) => {
            lemma_part_primitives_push(ps, e);
            let p1 = ps.push(e);
            lemma_part_primitives_update(p1, at, super::model::binary_appended(p1, at, f)[at]);
        },
        _ => {},
    }
    assert(part_primitives(ps) + Seq::<Scalar>::empty() =~= part_primitives(ps));
}

proof fn lemma_text_end_primitives(b: ValueBufView)
    requires
        structured(b),
        super::model::text_end(b).1 is Ok,
    ensures
        part_primitives(super::model::text_end(b).0.parts) == part_primitives(b.parts),
{
    let ps = b.parts;
    let at = ps.len() as int;
    let e = PartView::Text { borrowed: false, text: Seq::empty() };
    match b.buffering {
        BufferingView::Text(FragmentState::Borrowed(v)) => {
            lemma_part_primitives_push(ps, e);
            lemma_part_primitives_push(ps, PartView::Text { borrowed: true, text: v });
            let p1 = ps.push(e);
            lemma_part_primitives_update(p1, at, super::model::text_appended(p1, at, v)[at]);
        },
        _ => {
            lemma_part_primitives_push(ps, e);
        },
    }
    assert(part_primitives(ps) + Seq::<Scalar>::empty() =~= part_primitives(ps));
}

proof fn lemma_binary_end_primitives(b: ValueBufView)
    requires
        structured(b),
        super::model::binary_end(b).1 is Ok,
    ensures
        part_primitives(super::model::binary_end(b).0.parts) == part_primitives(b.parts),
{
    let ps = b.parts;
    let at = ps.len() as int;
    let e = PartView::Binary { borrowed: false, bytes: Seq::empty() };
    match b.buffering {
        BufferingView::Binary(FragmentState::Borrowed(v)) => {
            lemma_part_primitives_push(ps, e);
            lemma_part_primitives_push(ps, PartView::Binary { borrowed: true, bytes: v });
            let p1 = ps.push(e);
            lemma_part_primitives_update(p1, at, super::model::binary_appended(p1, at, v)[at]);
        },
        _ => {
            lemma_part_primitives_push(ps, e);
        },
    }
    assert(part_primitives(ps) + Seq::<Scalar>::empty() =~= part_primitives(ps));
}

proof fn lemma_run_primitives(b: ValueBufView, ts: Seq<TokenView>)
    requires
        structured(b),
        run(b, ts).1,
    ensures
        part_primitives(run(b, ts).0.parts) == part_primitives(b.parts) + primitives(ts),
    decreases ts.len(),
{
    if ts.len() == 0 {
        assert(part_primitives(b.parts) + primitives(ts) =~= part_primitives(b.parts));
    } else {
        let t = ts[0];
        let (b1, ok) = step(b, t);
        lemma_step_primitives(b, t);
        lemma_step_structured(b, t);
        lemma_run_primitives(b1, ts.drop_first());
        assert(ts =~= seq![t] + ts.drop_first());
        lemma_primitives_concat(seq![t], ts.drop_first());
        assert(part_primitives(b.parts) + primitives(seq![t]) + primitives(ts.drop_first())
            =~= part_primitives(b.parts) + (primitives(seq![t]) + primitives(ts.drop_first())));
    }
}

/// The tokens of any run of parts hold their primitive values, in order.
proof fn lemma_decode_primitives(ps: Seq<PartView>, s: int, e: int)
    requires
        0 <= s <= e <= ps.len(),
    ensures
        primitives(decode_range(ps, s, e)) == part_primitives(ps.subrange(s, e)),
    decreases e - s,
{
    if s == e {
        assert(ps.subrange(s, e) =~= Seq::<PartView>::empty());
        assert(decode_range(ps, s, e) =~= Seq::<TokenView>::empty());
    } else {
        lemma_decode_range_unfold(ps, s, e);
        lemma_part_primitives_single(ps[s]);
        match ps[s] {
            PartView::Container { kind, len, num_entries, meta } => {
                let be = body_end(ps, s, e);
                lemma_decode_primitives(ps, s + 1, be);
                lemma_decode_primitives(ps, be, e);
                let b1 = seq![TokenView::Begin(kind, meta, super::decode::entries_hint(kind, num_entries))];
                let e1 = seq![TokenView::End(kind, meta)];
                lemma_primitives_concat(b1, decode_range(ps, s + 1, be));
                lemma_primitives_concat(b1 + decode_range(ps, s + 1, be), e1);
                lemma_primitives_concat(b1 + decode_range(ps, s + 1, be) + e1, decode_range(ps, be, e));
                lemma_primitives_single(TokenView::Begin(kind, meta, super::decode::entries_hint(kind, num_entries)));
                lemma_primitives_single(TokenView::End(kind, meta));
                assert(ps.subrange(s, e) =~= seq![ps[s]] + ps.subrange(s + 1, be) + ps.subrange(be, e));
                lemma_part_primitives_concat(seq![ps[s]], ps.subrange(s + 1, be));
                lemma_part_primitives_concat(seq![ps[s]] + ps.subrange(s + 1, be), ps.subrange(be, e));
                assert(Seq::<Scalar>::empty() + part_primitives(ps.subrange(s + 1, be)) =~= part_primitives(ps.subrange(s + 1, be)));
                assert(part_primitives(ps.subrange(s + 1, be)) + Seq::<Scalar>::empty() =~= part_primitives(ps.subrange(s + 1, be)));
            },
            p => {
                lemma_decode_primitives(ps, s + 1, e);
                lemma_primitives_concat(leaf_tokens(p), decode_range(ps, s + 1, e));
                assert(ps.subrange(s, e) =~= seq![p] + ps.subrange(s + 1, e));
                lemma_part_primitives_concat(seq![p], ps.subrange(s + 1, e));
                let lt = leaf_tokens(p);
                assert(primitives(lt) == part_primitives(seq![p])) by {
                    match p {
                        PartView::Scalar(x) => {
                            lemma_primitives_single(TokenView::Scalar(x));
                            assert(lt =~= seq![TokenView::Scalar(x)]);
                        },
                        _ => {
                            assert forall|i: int| 0 <= i < lt.len() implies !(#[trigger] lt[i] is Scalar) by {}
                            lemma_primitives_none(lt);
                        },
                    }
                }
            },
        }
    }
}

/// Every primitive value streamed into a buffer, by calls that all
/// succeeded, is streamed back out, in the same order; a buffer that holds
/// nothing streams back out as null.
pub proof fn law_replay_keeps_primitives(ts: Seq<TokenView>)
    requires
        run(empty_buf(), ts).1,
    ensures
        run(empty_buf(), ts).0.parts.len() > 0 ==> primitives(decode(run(empty_buf(), ts).0.parts)) == primitives(ts),
        run(empty_buf(), ts).0.parts.len() == 0 ==> primitives(ts).len() == 0,
{
    let ps = run(empty_buf(), ts).0.parts;
    lemma_structured_empty();
    lemma_run_primitives(empty_buf(), ts);
    assert(part_primitives(Seq::<PartView>::empty()) + primitives(ts) =~= primitives(ts));
    if ps.len() > 0 {
        lemma_decode_primitives(ps, 0, ps.len() as int);
        assert(ps.subrange(0, ps.len() as int) =~= ps);
    }
}

} // verus!
