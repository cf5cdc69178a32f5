//! Collecting a value with every fragment computed gives the same buffer
//! as collecting it as it is and then copying in whatever it borrows.
use vstd::prelude::*;

use crate::token::{computed_token, computed_tokens, TokenView};
use super::laws::{lemma_run_structured, lemma_step_structured, lemma_structured_empty, structured};
use super::model::{
    binary_appended, empty_buf, run, step, text_appended, token_op, BufferingView, FragmentState,
    ValueBufView, MAX_INLINE_FRAGMENT_LEN,
};
use super::part::{owned_part, text_size, PartView};
use super::parts::{any_borrowed, owned_parts, patched, MAX_PARTS_LEN};

verus! {

/// What a buffer holds once its borrowed parts are copied in: a text or
/// binary value still held as a single borrowed fragment is copied into
/// an inline part of its own.
pub open spec fn owned_state(b: ValueBufView) -> ValueBufView {
    match b.buffering {
        BufferingView::Text(FragmentState::Borrowed(f)) => ValueBufView {
            parts: owned_parts(b.parts).push(PartView::Text { borrowed: false, text: f }),
            buffering: BufferingView::Text(FragmentState::Inline(b.parts.len() as usize)),
            ..b
        },
        BufferingView::Binary(FragmentState::Borrowed(f)) => ValueBufView {
            parts: owned_parts(b.parts).push(PartView::Binary { borrowed: false, bytes: f }),
            buffering: BufferingView::Binary(FragmentState::Inline(b.parts.len() as usize)),
            ..b
        },
        _ => ValueBufView { parts: owned_parts(b.parts), ..b },
    }
}

/// A buffer holding a borrowed fragment with no room left to copy it in:
/// no call but a tag hint can succeed on it.
pub open spec fn stuck(b: ValueBufView) -> bool {
    &&& b.parts.len() >= MAX_PARTS_LEN
    &&& match b.buffering {
        BufferingView::Text(FragmentState::Borrowed(_)) => true,
        BufferingView::Binary(FragmentState::Borrowed(_)) => true,
        _ => false,
    }
}

proof fn lemma_owned_parts_push(ps: Seq<PartView>, p: PartView)
    ensures
        owned_parts(ps.push(p)) == owned_parts(ps).push(owned_part(p)),
{
    assert(owned_parts(ps.push(p)) =~= owned_parts(ps).push(owned_part(p)));
}

proof fn lemma_owned_parts_patched(ps: Seq<PartView>, at: int, len: u32, n: Option<u32>)
    requires
        0 <= at < ps.len(),
    ensures
        owned_parts(patched(ps, at, len, n)) == patched(owned_parts(ps), at, len, n),
{
    assert(owned_parts(patched(ps, at, len, n)) =~= patched(owned_parts(ps), at, len, n));
}

proof fn lemma_owned_parts_text_appended(ps: Seq<PartView>, at: int, f: Seq<char>)
    requires
        0 <= at < ps.len(),
        ps[at] is Text,
    ensures
        owned_parts(text_appended(ps, at, f)) == text_appended(owned_parts(ps), at, f),
{
    assert(owned_parts(text_appended(ps, at, f)) =~= text_appended(owned_parts(ps), at, f));
}

proof fn lemma_owned_parts_binary_appended(ps: Seq<PartView>, at: int, f: Seq<u8>)
    requires
        0 <= at < ps.len(),
        ps[at] is Binary,
    ensures
        owned_parts(binary_appended(ps, at, f)) == binary_appended(owned_parts(ps), at, f),
{
    assert(owned_parts(binary_appended(ps, at, f)) =~= binary_appended(owned_parts(ps), at, f));
}

/// From a stuck buffer, every call that succeeds leaves it as it is.
proof fn lemma_stuck_step(b: ValueBufView, t: TokenView)
    requires
        stuck(b),
        step(b, t).1,
    ensures
        step(b, t).0 == b,
{
}

proof fn lemma_stuck_run(b: ValueBufView, ts: Seq<TokenView>)
    requires
        stuck(b),
        run(b, ts).1,
    ensures
        run(b, ts).0 == b,
    decreases ts.len(),
{
    if ts.len() > 0 {
        lemma_stuck_step(b, ts[0]);
        lemma_stuck_run(b, ts.drop_first());
    }
}

/// A call that succeeds on a buffer succeeds on its owned state with the
/// call's fragment computed, and the two stay in step.
proof fn lemma_step_owned(b: ValueBufView, t: TokenView)
    requires
        structured(b),
        step(b, t).1,
        !stuck(step(b, t).0),
    ensures
        step(owned_state(b), computed_token(t)) == (owned_state(step(b, t).0), true),
{
    let b1 = step(b, t).0;
    let c = owned_state(b);
    let ct = computed_token(t);
    let ps = b.parts;
    assert(b1 == token_op(b, t).0);
    match b.buffering {
        BufferingView::Value => {
            assert(c.parts == owned_parts(ps));
            match t {
                TokenView::Scalar(x) => {
                    lemma_owned_parts_push(ps, PartView::Scalar(x));
                },
                TokenView::Tag(m) => {
                    lemma_owned_parts_push(ps, PartView::Tag(m));
                },
                TokenView::TagHint(g) => {
                    lemma_owned_parts_push(ps, PartView::TagHint(g));
                },
                TokenView::Begin(k, m, _) => {
                    lemma_owned_parts_push(ps, super::model::header(k, m.for_kind(k)));
                },
                TokenView::End(_, _) => {
                    let f = b.stack.last();
                    lemma_owned_parts_patched(ps, f.len_at as int, (ps.len() - (f.len_at + 1)) as u32, f.spec_num_entries());
                },
                _ => {},
            }
        },
        BufferingView::Text(FragmentState::Empty) => {
            match t {
                TokenView::TextFragment(f) => {
                    assert(ps.len() < MAX_PARTS_LEN);
                    lemma_owned_parts_push(ps, super::model::empty_text());
                    assert(owned_parts(ps).push(super::model::empty_text()).update(ps.len() as int,
                        PartView::Text { borrowed: false, text: Seq::empty() + f })
                        =~= owned_parts(ps).push(PartView::Text { borrowed: false, text: f }));
                },
                TokenView::TextFragmentComputed(f) => {
                    lemma_owned_parts_push(ps, super::model::empty_text());
                    lemma_owned_parts_text_appended(ps.push(super::model::empty_text()), ps.len() as int, f);
                },
                TokenView::TextEnd => {
                    lemma_owned_parts_push(ps, super::model::empty_text());
                },
                _ => {},
            }
        },
        BufferingView::Binary(FragmentState::Empty) => {
            match t {
                TokenView::BinaryFragment(f) => {
                    assert(ps.len() < MAX_PARTS_LEN);
                    lemma_owned_parts_push(ps, super::model::empty_binary());
                    assert(owned_parts(ps).push(super::model::empty_binary()).update(ps.len() as int,
                        PartView::Binary { borrowed: false, bytes: Seq::empty() + f })
                        =~= owned_parts(ps).push(PartView::Binary { borrowed: false, bytes: f }));
                },
                TokenView::BinaryFragmentComputed(f) => {
                    lemma_owned_parts_push(ps, super::model::empty_binary());
                    lemma_owned_parts_binary_appended(ps.push(super::model::empty_binary()), ps.len() as int, f);
                },
                TokenView::BinaryEnd => {
                    lemma_owned_parts_push(ps, super::model::empty_binary());
                },
                _ => {},
            }
        },
        BufferingView::Text(FragmentState::Borrowed(prev)) => {
            match t {
                TokenView::TextFragment(f) | TokenView::TextFragmentComputed(f) => {
                    lemma_owned_parts_push(ps, super::model::empty_text());
                    let n = ps.len() as int;
                    let q = ps.push(super::model::empty_text());
                    let q2 = text_appended(q, n, prev);
                    lemma_owned_parts_text_appended(q, n, prev);
                    lemma_owned_parts_text_appended(q2, n, f);
                    assert(text_appended(owned_parts(ps).push(PartView::Text { borrowed: false, text: prev }), n, f)
                        =~= owned_parts(text_appended(q2, n, f)));
                },
                TokenView::TextEnd => {
                    let p = b1.parts[ps.len() as int];
                    assert(b1.parts =~= ps.push(p));
                    lemma_owned_parts_push(ps, p);
                },
                _ => {},
            }
        },
        BufferingView::Binary(FragmentState::Borrowed(prev)) => {
            match t {
                TokenView::BinaryFragment(f) | TokenView::BinaryFragmentComputed(f) => {
                    lemma_owned_parts_push(ps, super::model::empty_binary());
                    let n = ps.len() as int;
                    let q = ps.push(super::model::empty_binary());
                    let q2 = binary_appended(q, n, prev);
                    lemma_owned_parts_binary_appended(q, n, prev);
                    lemma_owned_parts_binary_appended(q2, n, f);
                    assert(binary_appended(owned_parts(ps).push(PartView::Binary { borrowed: false, bytes: prev }), n, f)
                        =~= owned_parts(binary_appended(q2, n, f)));
                },
                TokenView::BinaryEnd => {
                    let p = b1.parts[ps.len() as int];
                    assert(b1.parts =~= ps.push(p));
                    lemma_owned_parts_push(ps, p);
                },
                _ => {},
            }
        },
        BufferingView::Text(FragmentState::Inline(at)) => {
            match t {
                TokenView::TextFragment(f) | TokenView::TextFragmentComputed(f) => {
                    lemma_owned_parts_text_appended(ps, at as int, f);
                },
                _ => {},
            }
        },
        BufferingView::Binary(FragmentState::Inline(at)) => {
            match t {
                TokenView::BinaryFragment(f) | TokenView::BinaryFragmentComputed(f) => {
                    lemma_owned_parts_binary_appended(ps, at as int, f);
                },
                _ => {},
            }
        },
    }
}

proof fn lemma_computed_tokens_unfold(ts: Seq<TokenView>)
    requires
        ts.len() > 0,
    ensures
        computed_tokens(ts)[0] == computed_token(ts[0]),
        computed_tokens(ts).drop_first() == computed_tokens(ts.drop_first()),
{
    assert(computed_tokens(ts).drop_first() =~= computed_tokens(ts.drop_first()));
}

/// Streaming tokens into a buffer and into its owned state, with the
/// tokens' fragments computed, keeps the two in step, as long as the run
/// does not end stuck.
proof fn lemma_run_owned(b: ValueBufView, ts: Seq<TokenView>)
    requires
        structured(b),
        run(b, ts).1,
        !stuck(run(b, ts).0),
    ensures
        run(owned_state(b), computed_tokens(ts)) == (owned_state(run(b, ts).0), true),
    decreases ts.len(),
{
    if ts.len() > 0 {
        let t = ts[0];
        let (b1, ok) = step(b, t);
        lemma_computed_tokens_unfold(ts);
        if stuck(b1) {
            lemma_stuck_run(b1, ts.drop_first());
        }
        lemma_step_owned(b, t);
        lemma_step_structured(b, t);
        lemma_run_owned(b1, ts.drop_first());
    } else {
        assert(computed_tokens(ts) =~= Seq::<TokenView>::empty());
    }
}

/// Collecting a value with every fragment computed gives the buffer that
/// collecting it as it is and then copying in what it borrows gives.
pub proof fn law_computed_collect_is_owned_collect(ts: Seq<TokenView>)
    requires
        run(empty_buf(), ts).1,
        run(empty_buf(), ts).0.complete(),
    ensures
        run(empty_buf(), computed_tokens(ts)) == (
            ValueBufView { parts: owned_parts(run(empty_buf(), ts).0.parts), ..run(empty_buf(), ts).0 },
            true,
        ),
{
    lemma_structured_empty();
    assert(owned_state(empty_buf()) == empty_buf()) by {
        assert(owned_parts(Seq::<PartView>::empty()) =~= Seq::<PartView>::empty());
    }
    lemma_run_owned(empty_buf(), ts);
}

/// Collecting a value with every fragment computed, whether or not the
/// calls make a whole value, gives the buffer that collecting it as it is
/// gives, with what it borrows copied in, a fragment still pending
/// included. It fails only where a borrowed fragment is pending and the
/// buffer has no room left to copy it in.
pub proof fn law_computed_collect_is_owned_state(ts: Seq<TokenView>)
    requires
        run(empty_buf(), ts).1,
        !stuck(run(empty_buf(), ts).0),
    ensures
        run(empty_buf(), computed_tokens(ts)) == (owned_state(run(empty_buf(), ts).0), true),
{
    lemma_structured_empty();
    assert(owned_state(empty_buf()) == empty_buf()) by {
        assert(owned_parts(Seq::<PartView>::empty()) =~= Seq::<PartView>::empty());
    }
    lemma_run_owned(empty_buf(), ts);
}

/// Every borrowed fragment among the tokens is small enough to be copied in.
pub open spec fn small_fragments(ts: Seq<TokenView>) -> bool {
    forall|i: int| 0 <= i < ts.len() ==> small_fragment(#[trigger] ts[i])
}

pub open spec fn small_fragment(t: TokenView) -> bool {
    match t {
        TokenView::TextFragment(f) => text_size(f) <= MAX_INLINE_FRAGMENT_LEN,
        TokenView::BinaryFragment(f) => f.len() <= MAX_INLINE_FRAGMENT_LEN,
        _ => true,
    }
}

/// Nothing in the buffer borrows, and a fragment it holds borrowed is small.
pub open spec fn borrows_nothing(b: ValueBufView) -> bool {
    &&& !any_borrowed(b.parts)
    &&& match b.buffering {
        BufferingView::Text(FragmentState::Borrowed(f)) => text_size(f) <= MAX_INLINE_FRAGMENT_LEN,
        BufferingView::Binary(FragmentState::Borrowed(f)) => f.len() <= MAX_INLINE_FRAGMENT_LEN,
        _ => true,
    }
}

proof fn lemma_not_borrowed_push(ps: Seq<PartView>, p: PartView)
    requires
        !any_borrowed(ps),
        !p.is_borrowed(),
    ensures
        !any_borrowed(ps.push(p)),
{
    if any_borrowed(ps.push(p)) {
        let i = choose|i: int| 0 <= i < ps.push(p).len() && (#[trigger] ps.push(p)[i]).is_borrowed();
        if i < ps.len() {
            assert(ps[i].is_borrowed());
        }
    }
}

proof fn lemma_not_borrowed_update(ps: Seq<PartView>, at: int, p: PartView)
    requires
        !any_borrowed(ps),
        !p.is_borrowed(),
        0 <= at < ps.len(),
    ensures
        !any_borrowed(ps.update(at, p)),
{
    if any_borrowed(ps.update(at, p)) {
        let i = choose|i: int| 0 <= i < ps.update(at, p).len() && (#[trigger] ps.update(at, p)[i]).is_borrowed();
        if i != at {
            assert(ps[i].is_borrowed());
        }
    }
}

/// A call with a small fragment, if any, keeps a buffer from borrowing,
/// whether it succeeds or not.
proof fn lemma_step_borrows_nothing(b: ValueBufView, t: TokenView)
    requires
        b.inv(),
        borrows_nothing(b),
        small_fragment(t),
    ensures
        borrows_nothing(step(b, t).0),
{
    let ps = b.parts;
    let b1 = step(b, t).0;
    assert(b1.parts == token_op(b, t).0.parts);
    assert(b1.buffering == token_op(b, t).0.buffering);
    match t {
        TokenView::Scalar(x) => lemma_not_borrowed_push(ps, PartView::Scalar(x)),
        TokenView::Tag(m) => lemma_not_borrowed_push(ps, PartView::Tag(m)),
        TokenView::TagHint(g) => lemma_not_borrowed_push(ps, PartView::TagHint(g)),
        TokenView::Begin(k, m, _) => lemma_not_borrowed_push(ps, super::model::header(k, m.for_kind(k))),
        TokenView::End(_, _) => {
            if b.buffering is Value && b.stack.len() > 0 {
                let f = b.stack.last();
                let len = (ps.len() - (f.len_at + 1)) as u32;
                let p2 = patched(ps, f.len_at as int, len, f.spec_num_entries());
                assert(p2.len() == ps.len());
                assert forall|i: int| 0 <= i < p2.len() implies !(#[trigger] p2[i]).is_borrowed() by {
                    assert(!ps[i].is_borrowed());
                }
            }
        },
        TokenView::TextBegin(_) | TokenView::BinaryBegin(_) => {},
        TokenView::TextEnd => {
            if ps.len() < MAX_PARTS_LEN {
                let q = ps.push(super::model::empty_text());
                lemma_not_borrowed_push(ps, super::model::empty_text());
                if let BufferingView::Text(FragmentState::Borrowed(v)) = b.buffering {
                    lemma_not_borrowed_update(q, ps.len() as int, PartView::Text { borrowed: false, text: Seq::empty() + v });
                }
            }
        },
        TokenView::BinaryEnd => {
            if ps.len() < MAX_PARTS_LEN {
                let q = ps.push(super::model::empty_binary());
                lemma_not_borrowed_push(ps, super::model::empty_binary());
                if let BufferingView::Binary(FragmentState::Borrowed(v)) = b.buffering {
                    lemma_not_borrowed_update(q, ps.len() as int, PartView::Binary { borrowed: false, bytes: Seq::empty() + v });
                }
            }
        },
        TokenView::TextFragment(f) | TokenView::TextFragmentComputed(f) => {
            match b.buffering {
                BufferingView::Text(FragmentState::Inline(at)) => {
                    lemma_not_borrowed_update(ps, at as int, PartView::Text { borrowed: false, text: ps[at as int]->text + f });
                },
                BufferingView::Text(FragmentState::Borrowed(prev)) => {
                    if ps.len() < MAX_PARTS_LEN {
                        let q = ps.push(super::model::empty_text());
                        lemma_not_borrowed_push(ps, super::model::empty_text());
                        lemma_not_borrowed_push(ps, PartView::Text { borrowed: false, text: prev });
                        lemma_not_borrowed_update(q, ps.len() as int, PartView::Text { borrowed: false, text: Seq::empty() + prev });
                        let q2 = text_appended(q, ps.len() as int, prev);
                        lemma_not_borrowed_update(q2, ps.len() as int, PartView::Text { borrowed: false, text: q2[ps.len() as int]->text + f });
                    }
                },
                BufferingView::Text(FragmentState::Empty) => {
                    if ps.len() < MAX_PARTS_LEN {
                        let q = ps.push(super::model::empty_text());
                        lemma_not_borrowed_push(ps, super::model::empty_text());
                        lemma_not_borrowed_update(q, ps.len() as int, PartView::Text { borrowed: false, text: Seq::empty() + f });
                    }
                },
                _ => {},
            }
        },
        TokenView::BinaryFragment(f) | TokenView::BinaryFragmentComputed(f) => {
            match b.buffering {
                BufferingView::Binary(FragmentState::Inline(at)) => {
                    lemma_not_borrowed_update(ps, at as int, PartView::Binary { borrowed: false, bytes: ps[at as int]->bytes + f });
                },
                BufferingView::Binary(FragmentState::Borrowed(prev)) => {
                    if ps.len() < MAX_PARTS_LEN {
                        let q = ps.push(super::model::empty_binary());
                        lemma_not_borrowed_push(ps, super::model::empty_binary());
                        lemma_not_borrowed_push(ps, PartView::Binary { borrowed: false, bytes: prev });
                        lemma_not_borrowed_update(q, ps.len() as int, PartView::Binary { borrowed: false, bytes: Seq::empty() + prev });
                        let q2 = binary_appended(q, ps.len() as int, prev);
                        lemma_not_borrowed_update(q2, ps.len() as int, PartView::Binary { borrowed: false, bytes: q2[ps.len() as int]->bytes + f });
                    }
                },
                BufferingView::Binary(FragmentState::Empty) => {
                    if ps.len() < MAX_PARTS_LEN {
                        let q = ps.push(super::model::empty_binary());
                        lemma_not_borrowed_push(ps, super::model::empty_binary());
                        lemma_not_borrowed_update(q, ps.len() as int, PartView::Binary { borrowed: false, bytes: Seq::empty() + f });
                    }
                },
                _ => {},
            }
        },
    }
}

proof fn lemma_run_borrows_nothing(b: ValueBufView, ts: Seq<TokenView>)
    requires
        structured(b),
        borrows_nothing(b),
        small_fragments(ts),
    ensures
        borrows_nothing(run(b, ts).0),
    decreases ts.len(),
{
    if ts.len() > 0 {
        let (b1, ok) = step(b, ts[0]);
        assert(small_fragment(ts[0]));
        lemma_step_borrows_nothing(b, ts[0]);
        if ok {
            lemma_step_structured(b, ts[0]);
            assert forall|i: int| 0 <= i < ts.drop_first().len() implies small_fragment(#[trigger] ts.drop_first()[i]) by {
                assert(small_fragment(ts[i + 1]));
            }
            lemma_run_borrows_nothing(b1, ts.drop_first());
        }
    }
}

/// Small borrowed fragments are copied in as they arrive: a value whose
/// borrowed fragments are all small leaves nothing borrowed in the buffer,
/// whether buffering it succeeds or stops part-way.
pub proof fn law_small_fragments_borrow_nothing(ts: Seq<TokenView>)
    requires
        small_fragments(ts),
    ensures
        !any_borrowed(run(empty_buf(), ts).0.parts),
{
    lemma_structured_empty();
    lemma_run_borrows_nothing(empty_buf(), ts);
}

/// A value collected with every fragment computed borrows nothing.
pub proof fn law_computed_collect_borrows_nothing(ts: Seq<TokenView>)
    ensures
        !any_borrowed(run(empty_buf(), computed_tokens(ts)).0.parts),
{
    assert forall|i: int| 0 <= i < computed_tokens(ts).len() implies small_fragment(#[trigger] computed_tokens(ts)[i]) by {}
    law_small_fragments_borrow_nothing(computed_tokens(ts));
}

} // verus!
