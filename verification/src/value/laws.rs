//! What holds of every buffer: its structure, and that streaming a
//! complete buffer back into a new one rebuilds it exactly.
use vstd::prelude::*;

use crate::data::ContainerKind;
use crate::token::{computed_tokens, TokenView};
use super::decode::{body_end, decode, decode_range, entries_hint, leaf_tokens, lemma_decode_range_unfold};
use super::frame::Frame;
use super::model::{container_end, empty_buf, run, step, token_op, BufferingView, FragmentState, ValueBufView, MAX_INLINE_FRAGMENT_LEN, empty_text, empty_binary, text_appended, binary_appended, header};
use super::part::{text_size, PartView};
use super::parts::{any_borrowed, owned_parts, MAX_PARTS_LEN};

verus! {

/// The number of entries directly inside the parts `[s, e)`.
pub open spec fn top_entries(ps: Seq<PartView>, s: int, e: int) -> nat
    decreases e - s,
{
    if s < 0 || e > ps.len() || s >= e {
        0
    } else {
        match ps[s] {
            PartView::Container { kind, .. } => {
                let be = body_end(ps, s, e);
                (if kind.is_entry() { 1nat } else { 0nat }) + top_entries(ps, be, e)
            },
            _ => top_entries(ps, s + 1, e),
        }
    }
}

/// A borrowed fragment at `i` is one the buffer would keep borrowed.
pub open spec fn borrow_ok(ps: Seq<PartView>, i: int) -> bool {
    match ps[i] {
        PartView::Text { borrowed, text } => borrowed ==> {
            &&& text_size(text) > MAX_INLINE_FRAGMENT_LEN || any_borrowed(ps.take(i))
            &&& text_size(text) <= MAX_PARTS_LEN
        },
        PartView::Binary { borrowed, bytes } => borrowed ==> {
            &&& bytes.len() > MAX_INLINE_FRAGMENT_LEN || any_borrowed(ps.take(i))
            &&& bytes.len() <= MAX_PARTS_LEN
        },
        _ => true,
    }
}

/// The parts `[s, e)` are a sequence of whole values: every container's
/// body lies within them, its length and entry count are right, and it
/// keeps only the metadata its kind has.
pub open spec fn closed_seg(ps: Seq<PartView>, s: int, e: int) -> bool
    decreases e - s,
{
    if s < 0 || e > ps.len() || s > e {
        false
    } else if s == e {
        true
    } else {
        match ps[s] {
            PartView::Container { kind, len, num_entries, meta } => {
                let be = s + 1 + len;
                if be <= e {
                    &&& meta == meta.for_kind(kind)
                    &&& closed_seg(ps, s + 1, be)
                    &&& num_entries == (if kind.is_entry_tracking() {
                        top_entries(ps, s + 1, be)
                    } else {
                        0
                    })
                    &&& closed_seg(ps, be, e)
                } else {
                    false
                }
            },
            _ => borrow_ok(ps, s) && closed_seg(ps, s + 1, e),
        }
    }
}

/// Two part sequences borrow alike in their first `n` parts.
pub open spec fn same_borrow(a: Seq<PartView>, b: Seq<PartView>, n: int) -> bool {
    forall|j: int| 0 <= j < n ==> (#[trigger] a[j]).is_borrowed() == b[j].is_borrowed()
}

/// The stack with `n` more entries counted in its innermost frame.
pub open spec fn bumped(stack: Seq<Frame>, n: nat) -> Seq<Frame> {
    if stack.len() == 0 {
        stack
    } else {
        let f = stack.last();
        stack.update(stack.len() - 1, Frame { entries: (f.entries + n) as u32, ..f })
    }
}

pub proof fn lemma_run_append(b: ValueBufView, xs: Seq<TokenView>, ys: Seq<TokenView>)
    ensures
        run(b, xs + ys) == (if run(b, xs).1 {
            run(run(b, xs).0, ys)
        } else {
            run(b, xs)
        }),
    decreases xs.len(),
{
    if xs.len() == 0 {
        assert(xs + ys =~= ys);
    } else {
        assert((xs + ys).drop_first() =~= xs.drop_first() + ys);
        assert((xs + ys)[0] == xs[0]);
        let (b1, ok) = step(b, xs[0]);
        if ok {
            lemma_run_append(b1, xs.drop_first(), ys);
        }
    }
}

pub proof fn lemma_run_single(b: ValueBufView, t: TokenView)
    ensures
        run(b, seq![t]) == step(b, t),
{
    let ts = seq![t];
    assert(ts.drop_first() =~= Seq::<TokenView>::empty());
    let (b1, ok) = step(b, t);
    if ok {
        assert(run(b1, ts.drop_first()) == (b1, true));
    }
}

pub proof fn lemma_any_borrowed_same(a: Seq<PartView>, b: Seq<PartView>)
    requires
        a.len() == b.len(),
        same_borrow(a, b, a.len() as int),
    ensures
        any_borrowed(a) == any_borrowed(b),
{
    if any_borrowed(a) {
        let i = choose|i: int| 0 <= i < a.len() && (#[trigger] a[i]).is_borrowed();
        assert(b[i].is_borrowed());
    }
    if any_borrowed(b) {
        let i = choose|i: int| 0 <= i < b.len() && (#[trigger] b[i]).is_borrowed();
        assert(a[i].is_borrowed());
    }
}

pub proof fn lemma_top_entries_bound(ps: Seq<PartView>, s: int, e: int)
    requires
        0 <= s <= e <= ps.len(),
    ensures
        top_entries(ps, s, e) <= e - s,
    decreases e - s,
{
    if s < e {
        match ps[s] {
            PartView::Container { .. } => lemma_top_entries_bound(ps, body_end(ps, s, e), e),
            _ => lemma_top_entries_bound(ps, s + 1, e),
        }
    }
}


/// The buffer after beginning a container of `kind` in a buffer that is
/// not collecting text or binary.
pub open spec fn begun(q: ValueBufView, kind: ContainerKind, meta: crate::data::MetaView) -> ValueBufView {
    let st = if kind.is_entry() && q.stack.len() >= 1 {
        q.stack.update(q.stack.len() - 1, q.stack.last().counted())
    } else {
        q.stack
    };
    ValueBufView {
        parts: q.parts.push(header(kind, meta)),
        stack: st.push(Frame::spec_new(kind, q.parts.len() as int)),
        ..q
    }
}

pub proof fn lemma_begin_step(q: ValueBufView, kind: ContainerKind, meta: crate::data::MetaView, hint: Option<usize>)
    requires
        q.buffering is Value,
        q.inv(),
        q.parts.len() < MAX_PARTS_LEN,
        meta.for_kind(kind) == meta,
    ensures
        step(q, TokenView::Begin(kind, meta, hint)) == (begun(q, kind, meta), true),
        begun(q, kind, meta).inv(),
{
    let b = begun(q, kind, meta);
    let o = token_op(q, TokenView::Begin(kind, meta, hint));
    if kind.is_entry() && q.stack.len() >= 1 {
        let f = Frame::spec_new(kind, q.parts.len() as int);
        let s1 = q.stack.push(f);
        assert(s1.update(s1.len() - 2, s1[s1.len() - 2].counted())
            =~= q.stack.update(q.stack.len() - 1, q.stack.last().counted()).push(f));
    }
    assert(o.0 == b);
    assert forall|k: int| 0 <= k < b.stack.len() implies {
        let f = #[trigger] b.stack[k];
        &&& f.len_at < b.parts.len()
        &&& b.parts[f.len_at as int] is Container
        &&& f.len_at + f.entries < b.parts.len()
    } by {
        if k < q.stack.len() {
            let f0 = q.stack[k];
            assert(f0.len_at < q.parts.len());
            assert(b.parts[f0.len_at as int] == q.parts[f0.len_at as int]);
        }
    }
}


/// The buffer after replaying the parts `[s, e)` on `q`.
pub open spec fn replayed(q: ValueBufView, ps: Seq<PartView>, s: int, e: int) -> ValueBufView {
    ValueBufView {
        parts: q.parts + ps.subrange(s, e),
        stack: bumped(q.stack, top_entries(ps, s, e)),
        ..q
    }
}

pub proof fn lemma_bumped_zero(stack: Seq<Frame>)
    ensures
        bumped(stack, 0) == stack,
{
    if stack.len() > 0 {
        let f = stack.last();
        assert(Frame { entries: (f.entries + 0nat) as u32, ..f } == f);
        assert(bumped(stack, 0) =~= stack);
    }
}

/// Streaming a leaf part's tokens into a buffer that is not collecting
/// text or binary appends the part.
pub proof fn lemma_replay_leaf(ps: Seq<PartView>, s: int, q: ValueBufView)
    requires
        0 <= s < ps.len() <= MAX_PARTS_LEN,
        !(ps[s] is Container),
        borrow_ok(ps, s),
        q.buffering is Value,
        q.inv(),
        q.parts.len() == s,
        same_borrow(q.parts, ps, s),
    ensures
        run(q, leaf_tokens(ps[s])) == (q.with_parts(q.parts.push(ps[s])), true),
        q.with_parts(q.parts.push(ps[s])).inv(),
{
    let p = ps[s];
    let q1 = q.with_parts(q.parts.push(p));
    assert forall|k: int| 0 <= k < q1.stack.len() implies {
        let f = #[trigger] q1.stack[k];
        &&& f.len_at < q1.parts.len()
        &&& q1.parts[f.len_at as int] is Container
        &&& f.len_at + f.entries < q1.parts.len()
    } by {
        let f0 = q.stack[k];
        assert(q1.parts[f0.len_at as int] == q.parts[f0.len_at as int]);
    }
    match p {
        PartView::Scalar(x) => {
            lemma_run_single(q, TokenView::Scalar(x));
        },
        PartView::Tag(m) => {
            lemma_run_single(q, TokenView::Tag(m));
        },
        PartView::TagHint(t) => {
            lemma_run_single(q, TokenView::TagHint(t));
        },
        PartView::Text { borrowed, text } => {
            let t0 = TokenView::TextBegin(Some(text_size(text)));
            let t1 = if borrowed { TokenView::TextFragment(text) } else { TokenView::TextFragmentComputed(text) };
            let t2 = TokenView::TextEnd;
            assert(leaf_tokens(p) =~= seq![t0] + (seq![t1] + seq![t2]));
            lemma_run_append(q, seq![t0], seq![t1] + seq![t2]);
            lemma_run_single(q, t0);
            let qa = q.with_buffering(BufferingView::Text(FragmentState::Empty));
            assert(step(q, t0) == (qa, true));
            lemma_run_append(qa, seq![t1], seq![t2]);
            lemma_run_single(qa, t1);
            if borrowed {
                let qb = q.with_buffering(BufferingView::Text(FragmentState::Borrowed(text)));
                assert(step(qa, t1) == (qb, true));
                lemma_run_single(qb, t2);
                lemma_any_borrowed_same(q.parts, ps.take(s));
                assert(step(qb, t2) == (q1, true));
            } else {
                let qb = q.with_parts(text_appended(q.parts.push(empty_text()), s, text)).with_buffering(
                    BufferingView::Text(FragmentState::Inline(s as usize)),
                );
                assert(text_appended(q.parts.push(empty_text()), s, text) =~= q.parts.push(p));
                assert(step(qa, t1) == (qb, true));
                lemma_run_single(qb, t2);
                assert(step(qb, t2) == (q1, true));
            }
        },
        PartView::Binary { borrowed, bytes } => {
            let t0 = TokenView::BinaryBegin(Some(bytes.len() as usize));
            let t1 = if borrowed { TokenView::BinaryFragment(bytes) } else { TokenView::BinaryFragmentComputed(bytes) };
            let t2 = TokenView::BinaryEnd;
            assert(leaf_tokens(p) =~= seq![t0] + (seq![t1] + seq![t2]));
            lemma_run_append(q, seq![t0], seq![t1] + seq![t2]);
            lemma_run_single(q, t0);
            let qa = q.with_buffering(BufferingView::Binary(FragmentState::Empty));
            assert(step(q, t0) == (qa, true));
            lemma_run_append(qa, seq![t1], seq![t2]);
            lemma_run_single(qa, t1);
            if borrowed {
                let qb = q.with_buffering(BufferingView::Binary(FragmentState::Borrowed(bytes)));
                assert(step(qa, t1) == (qb, true));
                lemma_run_single(qb, t2);
                lemma_any_borrowed_same(q.parts, ps.take(s));
                assert(step(qb, t2) == (q1, true));
            } else {
                let qb = q.with_parts(binary_appended(q.parts.push(empty_binary()), s, bytes)).with_buffering(
                    BufferingView::Binary(FragmentState::Inline(s as usize)),
                );
                assert(binary_appended(q.parts.push(empty_binary()), s, bytes) =~= q.parts.push(p));
                assert(step(qa, t1) == (qb, true));
                lemma_run_single(qb, t2);
                assert(step(qb, t2) == (q1, true));
            }
        },
        PartView::Container { .. } => {},
    }
}


/// Streaming the tokens of a sequence of whole values into a buffer that
/// is not collecting text or binary appends their parts, and counts their
/// entries in the innermost open container.
pub proof fn lemma_replay(ps: Seq<PartView>, s: int, e: int, q: ValueBufView)
    requires
        0 <= s <= e <= ps.len(),
        ps.len() <= MAX_PARTS_LEN,
        closed_seg(ps, s, e),
        q.buffering is Value,
        q.inv(),
        q.parts.len() == s,
        same_borrow(q.parts, ps, s),
    ensures
        run(q, decode_range(ps, s, e)) == (replayed(q, ps, s, e), true),
        replayed(q, ps, s, e).inv(),
    decreases e - s,
{
    if s == e {
        assert(q.parts + ps.subrange(s, e) =~= q.parts);
        lemma_bumped_zero(q.stack);
        assert(replayed(q, ps, s, e) == q);
        assert(decode_range(ps, s, e) =~= Seq::<TokenView>::empty());
    } else {
        super::decode::lemma_decode_range_unfold(ps, s, e);
        match ps[s] {
            PartView::Container { kind, len, num_entries, meta } => {
                let be = s + 1 + len;
                assert(body_end(ps, s, e) == be);
                let tb = TokenView::Begin(kind, meta, entries_hint(kind, num_entries));
                let te = TokenView::End(kind, meta);
                let body = decode_range(ps, s + 1, be);
                let rest = decode_range(ps, be, e);
                assert(decode_range(ps, s, e) =~= seq![tb] + (body + (seq![te] + rest)));
                // Begin
                lemma_begin_step(q, kind, meta, entries_hint(kind, num_entries));
                lemma_run_append(q, seq![tb], body + (seq![te] + rest));
                lemma_run_single(q, tb);
                let q1 = begun(q, kind, meta);
                // Body
                assert(same_borrow(q1.parts, ps, s + 1)) by {
                    assert forall|j: int| 0 <= j < s + 1 implies (#[trigger] q1.parts[j]).is_borrowed() == ps[j].is_borrowed() by {
                        if j < s {
                            assert(q1.parts[j] == q.parts[j]);
                        }
                    }
                }
                lemma_replay(ps, s + 1, be, q1);
                lemma_run_append(q1, body, seq![te] + rest);
                let q2 = replayed(q1, ps, s + 1, be);
                let n_body = top_entries(ps, s + 1, be);
                lemma_top_entries_bound(ps, s + 1, be);
                // End
                lemma_run_append(q2, seq![te], rest);
                lemma_run_single(q2, te);
                let f = q2.stack.last();
                assert(f == Frame { entries: n_body as u32, ..Frame::spec_new(kind, s) });
                let q3 = ValueBufView {
                    parts: q.parts + ps.subrange(s, be),
                    stack: q1.stack.drop_last(),
                    ..q
                };
                assert(q2.parts[s] == header(kind, meta));
                assert(super::parts::patched(q2.parts, s, len, f.spec_num_entries()) =~= q3.parts);
                assert(q2.stack.drop_last() =~= q1.stack.drop_last());
                assert(step(q2, te) == (q3, true));
                // Rest
                assert(same_borrow(q3.parts, ps, be)) by {
                    assert forall|j: int| 0 <= j < be implies (#[trigger] q3.parts[j]).is_borrowed() == ps[j].is_borrowed() by {
                        if j < s {
                            assert(q3.parts[j] == q.parts[j]);
                        } else {
                            assert(q3.parts[j] == ps[j]);
                        }
                    }
                }
                assert(q3.inv()) by {
                    assert forall|k: int| 0 <= k < q3.stack.len() implies {
                        let g = #[trigger] q3.stack[k];
                        &&& g.len_at < q3.parts.len()
                        &&& q3.parts[g.len_at as int] is Container
                        &&& g.len_at + g.entries < q3.parts.len()
                    } by {
                        let g = q1.stack[k];
                        assert(q3.stack[k] == g);
                        assert(g.len_at < s + 1);
                        assert(q.parts[g.len_at as int] is Container || g.len_at == s);
                        if g.len_at < s {
                            assert(q3.parts[g.len_at as int] == q.parts[g.len_at as int]);
                        }
                    }
                }
                lemma_replay(ps, be, e, q3);
                // Combine
                let n_rest = top_entries(ps, be, e);
                assert(top_entries(ps, s, e) == (if kind.is_entry() { 1nat } else { 0nat }) + n_rest);
                assert(q3.parts + ps.subrange(be, e) =~= q.parts + ps.subrange(s, e));
                assert(bumped(q3.stack, n_rest) =~= bumped(q.stack, top_entries(ps, s, e)));
                assert(replayed(q3, ps, be, e) == replayed(q, ps, s, e));
            },
            p => {
                lemma_replay_leaf(ps, s, q);
                let q1 = q.with_parts(q.parts.push(p));
                lemma_run_append(q, leaf_tokens(p), decode_range(ps, s + 1, e));
                assert(same_borrow(q1.parts, ps, s + 1)) by {
                    assert forall|j: int| 0 <= j < s + 1 implies (#[trigger] q1.parts[j]).is_borrowed() == ps[j].is_borrowed() by {
                        if j < s {
                            assert(q1.parts[j] == q.parts[j]);
                        }
                    }
                }
                lemma_replay(ps, s + 1, e, q1);
                assert(q1.parts + ps.subrange(s + 1, e) =~= q.parts + ps.subrange(s, e));
                assert(top_entries(ps, s, e) == top_entries(ps, s + 1, e));
                assert(replayed(q1, ps, s + 1, e) == replayed(q, ps, s, e));
            },
        }
    }
}


/// Whole values depend only on their own parts and on which earlier parts borrow.
pub proof fn lemma_closed_seg_frame(p: Seq<PartView>, q: Seq<PartView>, s: int, e: int)
    requires
        0 <= s <= e,
        e <= p.len(),
        e <= q.len(),
        forall|j: int| s <= j < e ==> #[trigger] p[j] == q[j],
        same_borrow(p, q, e),
    ensures
        closed_seg(p, s, e) == closed_seg(q, s, e),
        top_entries(p, s, e) == top_entries(q, s, e),
    decreases e - s,
{
    if s < e {
        match p[s] {
            PartView::Container { kind, len, .. } => {
                let be = s + 1 + len;
                if be <= e {
                    lemma_closed_seg_frame(p, q, s + 1, be);
                    lemma_closed_seg_frame(p, q, be, e);
                } else {
                    lemma_closed_seg_frame(p, q, e, e);
                }
                assert(body_end(p, s, e) == body_end(q, s, e));
                lemma_closed_seg_frame(p, q, body_end(p, s, e), e);
            },
            _ => {
                lemma_closed_seg_frame(p, q, s + 1, e);
                assert(same_borrow(p.take(s), q.take(s), s));
                lemma_any_borrowed_same(p.take(s), q.take(s));
            },
        }
    }
}

/// Whole values followed by whole values are whole values.
pub proof fn lemma_closed_seg_concat(p: Seq<PartView>, a: int, b: int, c: int)
    requires
        closed_seg(p, a, b),
        closed_seg(p, b, c),
    ensures
        closed_seg(p, a, c),
        top_entries(p, a, c) == top_entries(p, a, b) + top_entries(p, b, c),
    decreases b - a,
{
    if a < b {
        match p[a] {
            PartView::Container { kind, len, .. } => {
                let be = a + 1 + len;
                assert(body_end(p, a, b) == be);
                assert(body_end(p, a, c) == be);
                lemma_closed_seg_concat(p, be, b, c);
            },
            _ => {
                lemma_closed_seg_concat(p, a + 1, b, c);
            },
        }
    }
}

/// A single part without a body is a whole value when it borrows as the buffer would.
pub proof fn lemma_closed_seg_leaf(p: Seq<PartView>, i: int)
    requires
        0 <= i < p.len(),
        !(p[i] is Container),
        borrow_ok(p, i),
    ensures
        closed_seg(p, i, i + 1),
        top_entries(p, i, i + 1) == 0,
{
    assert(closed_seg(p, i + 1, i + 1));
    assert(top_entries(p, i + 1, i + 1) == 0);
}

pub open spec fn seg_start(st: Seq<Frame>, j: int) -> int {
    if j == 0 {
        0
    } else {
        st[j - 1].len_at + 1
    }
}

/// Where the buffered parts end, leaving out a text or binary part still being collected.
pub open spec fn content_end(b: ValueBufView) -> int {
    match b.buffering {
        BufferingView::Text(FragmentState::Inline(_)) => b.parts.len() - 1,
        BufferingView::Binary(FragmentState::Inline(_)) => b.parts.len() - 1,
        _ => b.parts.len() as int,
    }
}

pub open spec fn seg_end(b: ValueBufView, j: int) -> int {
    if j < b.stack.len() {
        b.stack[j].len_at as int
    } else {
        content_end(b)
    }
}

pub open spec fn is_entry_header(p: PartView) -> bool {
    p matches PartView::Container { kind, .. } && kind.is_entry()
}

/// The open container of frame `j` holds what its frame says: an
/// unpatched header, and the entries counted so far.
pub open spec fn frame_ok(b: ValueBufView, j: int) -> bool {
    let f = b.stack[j];
    &&& b.parts[f.len_at as int] matches PartView::Container { kind, len, num_entries, meta } && {
        &&& len == 0
        &&& num_entries == 0
        &&& meta.for_kind(kind) == meta
        &&& f.entry_tracking == kind.is_entry_tracking()
    }
    &&& f.entries == top_entries(b.parts, f.len_at + 1, seg_end(b, j + 1)) + (if j + 1 < b.stack.len()
        && is_entry_header(b.parts[b.stack[j + 1].len_at as int]) {
        1nat
    } else {
        0nat
    })
}

/// The structure of a buffer: between the headers of its open
/// containers lie whole values, and each frame agrees with its container.
pub open spec fn structured(b: ValueBufView) -> bool {
    &&& b.inv()
    &&& content_end(b) >= 0
    &&& forall|j: int| 0 <= j < b.stack.len() ==> (#[trigger] b.stack[j]).len_at < content_end(b)
    &&& forall|j: int| 0 <= j <= b.stack.len() ==> closed_seg(b.parts, #[trigger] seg_start(b.stack, j), seg_end(b, j))
    &&& forall|j: int| 0 <= j < b.stack.len() ==> #[trigger] frame_ok(b, j)
}


/// Changes that leave the buffered parts and the open containers alone keep the structure.
pub proof fn lemma_structured_same_content(b: ValueBufView, b2: ValueBufView)
    requires
        structured(b),
        b2.inv(),
        b2.stack == b.stack,
        content_end(b2) == content_end(b),
        content_end(b) <= b2.parts.len(),
        forall|j: int| 0 <= j < content_end(b) ==> #[trigger] b2.parts[j] == b.parts[j],
    ensures
        structured(b2),
{
    let ce = content_end(b);
    assert(same_borrow(b.parts, b2.parts, ce));
    assert forall|j: int| 0 <= j <= b2.stack.len() implies closed_seg(b2.parts, #[trigger] seg_start(b2.stack, j), seg_end(b2, j)) by {
        assert(closed_seg(b.parts, seg_start(b.stack, j), seg_end(b, j)));
        lemma_closed_seg_frame(b.parts, b2.parts, seg_start(b.stack, j), seg_end(b, j));
    }
    assert forall|j: int| 0 <= j < b2.stack.len() implies #[trigger] frame_ok(b2, j) by {
        assert(frame_ok(b, j));
        let f = b.stack[j];
        assert(closed_seg(b.parts, seg_start(b.stack, j + 1), seg_end(b, j + 1)));
        lemma_closed_seg_frame(b.parts, b2.parts, f.len_at + 1, seg_end(b, j + 1));
        if j + 1 < b.stack.len() {
            assert(b.stack[j + 1].len_at < ce);
        }
    }
}

/// Appending one whole part without a body to the buffered parts keeps the structure.
pub proof fn lemma_structured_extend(b: ValueBufView, b2: ValueBufView)
    requires
        structured(b),
        b2.inv(),
        b2.stack == b.stack,
        content_end(b2) == content_end(b) + 1,
        content_end(b2) <= b2.parts.len(),
        forall|j: int| 0 <= j < content_end(b) ==> #[trigger] b2.parts[j] == b.parts[j],
        !(b2.parts[content_end(b)] is Container),
        borrow_ok(b2.parts, content_end(b)),
    ensures
        structured(b2),
{
    let ce = content_end(b);
    let n = b.stack.len() as int;
    assert(same_borrow(b.parts, b2.parts, ce));
    lemma_closed_seg_leaf(b2.parts, ce);
    assert forall|j: int| 0 <= j <= b2.stack.len() implies closed_seg(b2.parts, #[trigger] seg_start(b2.stack, j), seg_end(b2, j)) by {
        assert(closed_seg(b.parts, seg_start(b.stack, j), seg_end(b, j)));
        lemma_closed_seg_frame(b.parts, b2.parts, seg_start(b.stack, j), seg_end(b, j));
        if j == n {
            lemma_closed_seg_concat(b2.parts, seg_start(b.stack, j), ce, ce + 1);
        }
    }
    assert forall|j: int| 0 <= j < b2.stack.len() implies #[trigger] frame_ok(b2, j) by {
        assert(frame_ok(b, j));
        let f = b.stack[j];
        assert(closed_seg(b.parts, seg_start(b.stack, j + 1), seg_end(b, j + 1)));
        lemma_closed_seg_frame(b.parts, b2.parts, f.len_at + 1, seg_end(b, j + 1));
        if j + 1 < n {
            assert(b.stack[j + 1].len_at < ce);
        } else {
            lemma_closed_seg_concat(b2.parts, f.len_at + 1, ce, ce + 1);
        }
    }
}


/// Beginning a container keeps the structure.
pub proof fn lemma_structured_begin(b: ValueBufView, kind: ContainerKind, meta: crate::data::MetaView)
    requires
        structured(b),
        b.buffering is Value,
        b.parts.len() < MAX_PARTS_LEN,
        meta.for_kind(kind) == meta,
    ensures
        structured(begun(b, kind, meta)),
{
    let b2 = begun(b, kind, meta);
    let p = b.parts;
    let p2 = b2.parts;
    let n = b.stack.len() as int;
    let ce = p.len() as int;
    lemma_begin_step(b, kind, meta, None);
    assert(same_borrow(p, p2, ce));
    assert forall|j: int| 0 <= j < n implies (#[trigger] b2.stack[j]).len_at == b.stack[j].len_at by {}
    assert forall|j: int| 0 <= j < b2.stack.len() implies (#[trigger] b2.stack[j]).len_at < content_end(b2) by {
        if j < n {
            assert(b.stack[j].len_at < ce);
        }
    }
    assert forall|j: int| 0 <= j <= b2.stack.len() implies closed_seg(p2, #[trigger] seg_start(b2.stack, j), seg_end(b2, j)) by {
        if j <= n {
            assert(seg_start(b2.stack, j) == seg_start(b.stack, j));
            assert(seg_end(b2, j) == seg_end(b, j));
            assert(closed_seg(p, seg_start(b.stack, j), seg_end(b, j)));
            if j < n {
                assert(b.stack[j].len_at < ce);
            }
            lemma_closed_seg_frame(p, p2, seg_start(b.stack, j), seg_end(b, j));
        } else {
            assert(seg_start(b2.stack, j) == ce + 1);
            assert(seg_end(b2, j) == ce + 1);
        }
    }
    assert forall|j: int| 0 <= j < b2.stack.len() implies #[trigger] frame_ok(b2, j) by {
        if j < n {
            assert(frame_ok(b, j));
            let f = b.stack[j];
            assert(f.len_at < ce);
            assert(p2[f.len_at as int] == p[f.len_at as int]);
            assert(closed_seg(p, seg_start(b.stack, j + 1), seg_end(b, j + 1)));
            if j + 1 < n {
                assert(b.stack[j + 1].len_at < ce);
                assert(seg_end(b2, j + 1) == seg_end(b, j + 1));
            } else {
                assert(seg_end(b2, j + 1) == ce);
                assert(seg_end(b, j + 1) == ce);
                assert(p2[ce] == header(kind, meta));
            }
            lemma_closed_seg_frame(p, p2, f.len_at + 1, seg_end(b, j + 1));
        } else {
            assert(top_entries(p2, ce + 1, ce + 1) == 0);
        }
    }
}

/// Ending the innermost open container keeps the structure.
pub proof fn lemma_structured_end(b: ValueBufView)
    requires
        structured(b),
        b.buffering is Value,
        b.stack.len() > 0,
    ensures
        structured(container_end(b).0),
{
    let b2 = container_end(b).0;
    let p = b.parts;
    let p2 = b2.parts;
    let n = b.stack.len() as int;
    let ce = p.len() as int;
    let f = b.stack.last();
    let a = f.len_at as int;
    assert(frame_ok(b, n - 1));
    assert(a < ce);
    let len = (ce - (a + 1)) as u32;
    assert(p2 =~= super::parts::patched(p, a, len, f.spec_num_entries()));
    assert(p2.len() == p.len());
    assert forall|j: int| 0 <= j < ce && j != a implies #[trigger] p2[j] == p[j] by {}
    assert(same_borrow(p, p2, ce));
    assert forall|k: int| 0 <= k < n - 1 implies (#[trigger] b.stack[k]).len_at < a by {
        assert(closed_seg(p, seg_start(b.stack, k + 1), seg_end(b, k + 1)));
        if k + 1 < n - 1 {
            assert(closed_seg(p, seg_start(b.stack, k + 2), seg_end(b, k + 2)));
        }
        lemma_frames_increasing(b, k, n - 1);
    }
    // The container that ends is now a whole value
    assert(closed_seg(p, seg_start(b.stack, n), seg_end(b, n)));
    lemma_closed_seg_frame(p, p2, a + 1, ce);
    assert(closed_seg(p2, ce, ce));
    assert(top_entries(p2, ce, ce) == 0);
    assert(closed_seg(p2, a, ce));
    assert(body_end(p2, a, ce) == ce);
    assert(top_entries(p2, a, ce) == (if is_entry_header(p[a]) { 1nat } else { 0nat }));
    // Its segment joins the one before it
    assert(closed_seg(p, seg_start(b.stack, n - 1), seg_end(b, n - 1)));
    lemma_closed_seg_frame(p, p2, seg_start(b.stack, n - 1), a);
    lemma_closed_seg_concat(p2, seg_start(b.stack, n - 1), a, ce);
    assert(b2.inv()) by {
        assert forall|k: int| 0 <= k < b2.stack.len() implies {
            let g = #[trigger] b2.stack[k];
            &&& g.len_at < b2.parts.len()
            &&& b2.parts[g.len_at as int] is Container
            &&& g.len_at + g.entries < b2.parts.len()
        } by {
            assert(b.stack[k].len_at < a);
            assert(b2.stack[k] == b.stack[k]);
        }
    }
    assert forall|j: int| 0 <= j < b2.stack.len() implies (#[trigger] b2.stack[j]).len_at < content_end(b2) by {
        assert(b.stack[j].len_at < a);
    }
    assert forall|j: int| 0 <= j <= b2.stack.len() implies closed_seg(p2, #[trigger] seg_start(b2.stack, j), seg_end(b2, j)) by {
        assert(seg_start(b2.stack, j) == seg_start(b.stack, j));
        if j < n - 1 {
            assert(seg_end(b2, j) == seg_end(b, j));
            assert(closed_seg(p, seg_start(b.stack, j), seg_end(b, j)));
            assert(b.stack[j].len_at < a);
            lemma_closed_seg_frame(p, p2, seg_start(b.stack, j), seg_end(b, j));
        } else {
            assert(seg_end(b2, j) == ce);
        }
    }
    assert forall|j: int| 0 <= j < b2.stack.len() implies #[trigger] frame_ok(b2, j) by {
        assert(frame_ok(b, j));
        let g = b.stack[j];
        assert(g.len_at < a);
        assert(p2[g.len_at as int] == p[g.len_at as int]);
        if j + 1 < n - 1 {
            assert(b.stack[j + 1].len_at < a);
            assert(closed_seg(p, seg_start(b.stack, j + 1), seg_end(b, j + 1)));
            lemma_closed_seg_frame(p, p2, g.len_at + 1, seg_end(b, j + 1));
            assert(p2[b.stack[j + 1].len_at as int] == p[b.stack[j + 1].len_at as int]);
        } else {
            assert(j == n - 2);
            assert(seg_end(b2, j + 1) == ce);
            assert(seg_end(b, j + 1) == a);
        }
    }
}

/// Open containers begin in order.
pub proof fn lemma_frames_increasing(b: ValueBufView, i: int, k: int)
    requires
        structured(b),
        0 <= i < k < b.stack.len(),
    ensures
        b.stack[i].len_at < b.stack[k].len_at,
    decreases k - i,
{
    assert(closed_seg(b.parts, seg_start(b.stack, i + 1), seg_end(b, i + 1)));
    if i + 1 < k {
        lemma_frames_increasing(b, i + 1, k);
    }
}


/// Appending a part to a buffer that is not collecting inline keeps the safety invariant.
pub proof fn lemma_inv_push(b: ValueBufView, x: PartView, buffering: BufferingView)
    requires
        b.inv(),
        b.parts.len() < MAX_PARTS_LEN,
        !(buffering is Text && buffering->Text_0 is Inline),
        !(buffering is Binary && buffering->Binary_0 is Inline),
    ensures
        b.with_parts(b.parts.push(x)).with_buffering(buffering).inv(),
{
    let b2 = b.with_parts(b.parts.push(x)).with_buffering(buffering);
    assert forall|k: int| 0 <= k < b2.stack.len() implies {
        let f = #[trigger] b2.stack[k];
        &&& f.len_at < b2.parts.len()
        &&& b2.parts[f.len_at as int] is Container
        &&& f.len_at + f.entries < b2.parts.len()
    } by {
        let f = b.stack[k];
        assert(b2.parts[f.len_at as int] == b.parts[f.len_at as int]);
    }
}

pub proof fn lemma_for_kind_idempotent(m: crate::data::MetaView, k: ContainerKind)
    ensures
        m.for_kind(k).for_kind(k) == m.for_kind(k),
{
}

/// Every operation that succeeds keeps the structure of a buffer.
pub proof fn lemma_step_structured(b: ValueBufView, t: TokenView)
    requires
        structured(b),
        step(b, t).1,
    ensures
        structured(step(b, t).0),
{
    let (b2, ok) = step(b, t);
    let o = token_op(b, t);
    assert(b2 == o.0);
    let p = b.parts;
    let ce = p.len() as int;
    match t {
        TokenView::Scalar(x) => {
            lemma_inv_push(b, PartView::Scalar(x), BufferingView::Value);
            lemma_structured_extend(b, b2);
        },
        TokenView::Tag(m) => {
            lemma_inv_push(b, PartView::Tag(m), BufferingView::Value);
            lemma_structured_extend(b, b2);
        },
        TokenView::TagHint(g) => {
            if b.buffering is Value {
                lemma_inv_push(b, PartView::TagHint(g), BufferingView::Value);
                lemma_structured_extend(b, b2);
            } else {
                assert(b2 == b);
            }
        },
        TokenView::TextBegin(_) | TokenView::BinaryBegin(_) => {
            lemma_structured_same_content(b, b2);
        },
        TokenView::TextFragment(_) | TokenView::TextFragmentComputed(_)
        | TokenView::BinaryFragment(_) | TokenView::BinaryFragmentComputed(_) => {
            match b.buffering {
                BufferingView::Text(FragmentState::Inline(at)) => {
                    lemma_structured_same_content(b, b2);
                },
                BufferingView::Binary(FragmentState::Inline(at)) => {
                    lemma_structured_same_content(b, b2);
                },
                _ => {
                    if b2.parts.len() > ce {
                        lemma_inv_push(b, b2.parts[ce], BufferingView::Value);
                        assert forall|k: int| 0 <= k < b2.stack.len() implies {
                            let f = #[trigger] b2.stack[k];
                            &&& f.len_at < b2.parts.len()
                            &&& b2.parts[f.len_at as int] is Container
                            &&& f.len_at + f.entries < b2.parts.len()
                        } by {
                            let f = b.stack[k];
                            assert(b2.parts[f.len_at as int] == b.parts[f.len_at as int]);
                        }
                    }
                    lemma_structured_same_content(b, b2);
                },
            }
        },
        TokenView::TextEnd => {
            match b.buffering {
                BufferingView::Text(FragmentState::Inline(at)) => {
                    lemma_structured_extend(b, b2);
                },
                BufferingView::Text(FragmentState::Borrowed(v)) => {
                    lemma_inv_push(b, b2.parts[ce], BufferingView::Value);
                    assert(b2.parts =~= p.push(b2.parts[ce]));
                    assert(b2.parts.take(ce) =~= p);
                    lemma_structured_extend(b, b2);
                },
                _ => {
                    lemma_inv_push(b, b2.parts[ce], BufferingView::Value);
                    assert(b2.parts =~= p.push(b2.parts[ce]));
                    lemma_structured_extend(b, b2);
                },
            }
        },
        TokenView::BinaryEnd => {
            match b.buffering {
                BufferingView::Binary(FragmentState::Inline(at)) => {
                    lemma_structured_extend(b, b2);
                },
                BufferingView::Binary(FragmentState::Borrowed(v)) => {
                    lemma_inv_push(b, b2.parts[ce], BufferingView::Value);
                    assert(b2.parts =~= p.push(b2.parts[ce]));
                    assert(b2.parts.take(ce) =~= p);
                    lemma_structured_extend(b, b2);
                },
                _ => {
                    lemma_inv_push(b, b2.parts[ce], BufferingView::Value);
                    assert(b2.parts =~= p.push(b2.parts[ce]));
                    lemma_structured_extend(b, b2);
                },
            }
        },
        TokenView::Begin(k, m, h) => {
            lemma_for_kind_idempotent(m, k);
            lemma_begin_step(b, k, m.for_kind(k), h);
            lemma_structured_begin(b, k, m.for_kind(k));
        },
        TokenView::End(_, _) => {
            lemma_structured_end(b);
        },
    }
}


/// An empty buffer is structured.
pub proof fn lemma_structured_empty()
    ensures
        structured(empty_buf()),
{
    let b = empty_buf();
    assert(seg_start(b.stack, 0) == 0);
    assert(seg_end(b, 0) == 0);
    assert(closed_seg(b.parts, 0, 0));
}

/// A successful operation records no error.
pub proof fn lemma_step_keeps_err(b: ValueBufView, t: TokenView)
    requires
        step(b, t).1,
    ensures
        step(b, t).0.err == b.err,
{
}

/// Streaming tokens into a structured buffer, as long as every call
/// succeeds, keeps it structured and records no error.
pub proof fn lemma_run_structured(b: ValueBufView, ts: Seq<TokenView>)
    requires
        structured(b),
        run(b, ts).1,
    ensures
        structured(run(b, ts).0),
        run(b, ts).0.err == b.err,
    decreases ts.len(),
{
    if ts.len() > 0 {
        let (b1, ok) = step(b, ts[0]);
        lemma_step_structured(b, ts[0]);
        lemma_step_keeps_err(b, ts[0]);
        lemma_run_structured(b1, ts.drop_first());
    }
}

/// Streaming the tokens of a complete buffer into a new buffer rebuilds
/// it exactly: the same parts, borrowed where they were borrowed.
pub proof fn law_rebuffer_roundtrip(ts: Seq<TokenView>)
    requires
        run(empty_buf(), ts).1,
        run(empty_buf(), ts).0.complete(),
    ensures
        run(empty_buf(), decode(run(empty_buf(), ts).0.parts)) == (run(empty_buf(), ts).0, true),
{
    let b = run(empty_buf(), ts).0;
    let ps = b.parts;
    lemma_structured_empty();
    lemma_run_structured(empty_buf(), ts);
    assert(seg_start(b.stack, 0) == 0);
    assert(seg_end(b, 0) == ps.len());
    assert(closed_seg(ps, 0, ps.len() as int));
    let q = empty_buf();
    assert(same_borrow(q.parts, ps, 0));
    lemma_replay(ps, 0, ps.len() as int, q);
    assert(q.parts + ps.subrange(0, ps.len() as int) =~= ps);
    assert(b.stack =~= Seq::<Frame>::empty());
    assert(bumped(q.stack, top_entries(ps, 0, ps.len() as int)) =~= b.stack);
    assert(replayed(q, ps, 0, ps.len() as int) == b);
}


proof fn lemma_computed_tokens_concat(a: Seq<TokenView>, b: Seq<TokenView>)
    ensures
        computed_tokens(a + b) == computed_tokens(a) + computed_tokens(b),
{
    assert(computed_tokens(a + b) =~= computed_tokens(a) + computed_tokens(b));
}

/// The owned copies of the parts `[s, e)` stream as their tokens, with
/// fragments computed.
proof fn lemma_decode_range_owned(ps: Seq<PartView>, s: int, e: int)
    ensures
        decode_range(owned_parts(ps), s, e) == computed_tokens(decode_range(ps, s, e)),
    decreases e - s,
{
    let qs = owned_parts(ps);
    if s < 0 || e > ps.len() || s >= e {
        assert(computed_tokens(Seq::<TokenView>::empty()) =~= Seq::<TokenView>::empty());
    } else {
        super::decode::lemma_decode_range_unfold(ps, s, e);
        super::decode::lemma_decode_range_unfold(qs, s, e);
        match ps[s] {
            PartView::Container { kind, len, num_entries, meta } => {
                let be = body_end(ps, s, e);
                assert(body_end(qs, s, e) == be);
                lemma_decode_range_owned(ps, s + 1, be);
                lemma_decode_range_owned(ps, be, e);
                let tb = seq![TokenView::Begin(kind, meta, entries_hint(kind, num_entries))];
                let te = seq![TokenView::End(kind, meta)];
                let body = decode_range(ps, s + 1, be);
                let rest = decode_range(ps, be, e);
                assert(computed_tokens(tb) =~= tb);
                assert(computed_tokens(te) =~= te);
                lemma_computed_tokens_concat(tb, body);
                lemma_computed_tokens_concat(tb + body, te);
                lemma_computed_tokens_concat(tb + body + te, rest);
            },
            p => {
                lemma_decode_range_owned(ps, s + 1, e);
                lemma_computed_tokens_concat(leaf_tokens(p), decode_range(ps, s + 1, e));
                assert(leaf_tokens(qs[s]) =~= computed_tokens(leaf_tokens(p)));
            },
        }
    }
}

/// Making a buffer's parts owned keeps the value they stream as: the same
/// tokens, with every fragment computed rather than borrowed. Nothing is
/// borrowed afterwards.
pub proof fn law_owned_parts_stream_alike(ps: Seq<PartView>)
    ensures
        decode(owned_parts(ps)) == computed_tokens(decode(ps)),
        !any_borrowed(owned_parts(ps)),
{
    super::parts::lemma_owned_parts_flags(ps);
    if ps.len() == 0 {
        assert(computed_tokens(decode(ps)) =~= decode(ps));
    } else {
        lemma_decode_range_owned(ps, 0, ps.len() as int);
    }
}

/// A call that fails leaves the buffer's structure as it was: it either
/// changes nothing, or stops collecting text or binary, keeping what was
/// copied in so far as a whole value.
proof fn lemma_failed_step_structured(b: ValueBufView, t: TokenView)
    requires
        structured(b),
        !step(b, t).1,
    ensures
        structured(step(b, t).0),
{
    let o = token_op(b, t);
    let b2 = step(b, t).0;
    let b0 = b.with_buffering(BufferingView::Value);
    let same = ValueBufView { err: b2.err, ..b };
    let reset = ValueBufView { err: b2.err, ..b0 };
    assert(b2 == same || b2 == reset);
    if b2 == same {
        lemma_structured_same_content(b, b2);
    } else {
        match b.buffering {
            BufferingView::Text(FragmentState::Inline(_)) | BufferingView::Binary(FragmentState::Inline(_)) => {
                lemma_structured_extend(b, b2);
            },
            _ => {
                lemma_structured_same_content(b, b2);
            },
        }
    }
}

/// Whatever is streamed into a buffer, whether the calls succeed or fail,
/// it stays structured: its parts between open containers are whole
/// values, and its open containers' headers agree with their frames.
pub proof fn law_streaming_keeps_structure(ts: Seq<TokenView>)
    ensures
        structured(run(empty_buf(), ts).0),
{
    lemma_structured_empty();
    lemma_run_keeps_structure(empty_buf(), ts);
}

proof fn lemma_run_keeps_structure(b: ValueBufView, ts: Seq<TokenView>)
    requires
        structured(b),
    ensures
        structured(run(b, ts).0),
    decreases ts.len(),
{
    if ts.len() > 0 {
        let (b1, ok) = step(b, ts[0]);
        if ok {
            lemma_step_structured(b, ts[0]);
            lemma_run_keeps_structure(b1, ts.drop_first());
        } else {
            lemma_failed_step_structured(b, ts[0]);
        }
    }
}

/// Streaming tokens one after another, carrying on after a failure, as a
/// caller that ignores errors does: the buffer, and whether every call
/// succeeded.
pub open spec fn run_all(b: ValueBufView, ts: Seq<TokenView>) -> (ValueBufView, bool)
    decreases ts.len(),
{
    if ts.len() == 0 {
        (b, true)
    } else {
        let (b1, ok) = step(b, ts[0]);
        let (b2, rest_ok) = run_all(b1, ts.drop_first());
        (b2, ok && rest_ok)
    }
}

/// What a token does to a buffer never touches its recorded error.
proof fn lemma_token_op_err(b: ValueBufView, t: TokenView)
    ensures
        token_op(b, t).0.err == b.err,
{
}

proof fn lemma_run_all_err(b: ValueBufView, ts: Seq<TokenView>)
    ensures
        run_all(b, ts).0.err is Some <==> (b.err is Some || !run_all(b, ts).1),
    decreases ts.len(),
{
    if ts.len() > 0 {
        lemma_token_op_err(b, ts[0]);
        let (b1, ok) = step(b, ts[0]);
        lemma_run_all_err(b1, ts.drop_first());
    }
}

/// A buffer records an error exactly when one of the calls made on it
/// since it was created failed, and keeps it through any calls made after
/// the failure.
pub proof fn law_error_recorded(ts: Seq<TokenView>)
    ensures
        run_all(empty_buf(), ts).0.err is Some <==> !run_all(empty_buf(), ts).1,
{
    lemma_run_all_err(empty_buf(), ts);
}

/// A text value streamed as a single borrowed fragment is kept borrowed
/// only when it is longer than the inline limit, or when the buffer
/// already borrows something; otherwise it is copied into the buffer.
pub proof fn law_single_text_fragment_inlined(b: ValueBufView, hint: Option<usize>, s: Seq<char>)
    requires
        b.buffering is Value,
        b.parts.len() < MAX_PARTS_LEN,
        text_size(s) <= MAX_PARTS_LEN,
    ensures
        run(b, seq![TokenView::TextBegin(hint), TokenView::TextFragment(s), TokenView::TextEnd]) == (
            b.with_parts(b.parts.push(PartView::Text {
                borrowed: text_size(s) > MAX_INLINE_FRAGMENT_LEN || any_borrowed(b.parts),
                text: s,
            })),
            true,
        ),
{
    let ts = seq![TokenView::TextBegin(hint), TokenView::TextFragment(s), TokenView::TextEnd];
    let b1 = b.with_buffering(BufferingView::Text(FragmentState::Empty));
    let b2 = b.with_buffering(BufferingView::Text(FragmentState::Borrowed(s)));
    assert(step(b, ts[0]) == (b1, true));
    assert(step(b1, ts[1]) == (b2, true));
    assert(b2.with_buffering(BufferingView::Value) == b);
    let p = PartView::Text { borrowed: text_size(s) > MAX_INLINE_FRAGMENT_LEN || any_borrowed(b.parts), text: s };
    if text_size(s) <= MAX_INLINE_FRAGMENT_LEN && !any_borrowed(b.parts) {
        assert(Seq::<char>::empty() + s =~= s);
        assert(text_appended(b.parts.push(empty_text()), b.parts.len() as int, s) =~= b.parts.push(p));
    }
    assert(step(b2, ts[2]) == (b.with_parts(b.parts.push(p)), true));
    lemma_run_single(b2, ts[2]);
    assert(ts.drop_first().drop_first() =~= seq![ts[2]]);
    assert(ts.drop_first()[0] == ts[1]);
    assert(run(b1, ts.drop_first()) == run(b2, ts.drop_first().drop_first()));
    assert(run(b, ts) == run(b1, ts.drop_first()));
}

/// A binary value streamed as a single borrowed fragment is kept borrowed
/// only when it is longer than the inline limit, or when the buffer
/// already borrows something; otherwise it is copied into the buffer.
pub proof fn law_single_binary_fragment_inlined(b: ValueBufView, hint: Option<usize>, s: Seq<u8>)
    requires
        b.buffering is Value,
        b.parts.len() < MAX_PARTS_LEN,
        s.len() <= MAX_PARTS_LEN,
    ensures
        run(b, seq![TokenView::BinaryBegin(hint), TokenView::BinaryFragment(s), TokenView::BinaryEnd]) == (
            b.with_parts(b.parts.push(PartView::Binary {
                borrowed: s.len() > MAX_INLINE_FRAGMENT_LEN || any_borrowed(b.parts),
                bytes: s,
            })),
            true,
        ),
{
    let ts = seq![TokenView::BinaryBegin(hint), TokenView::BinaryFragment(s), TokenView::BinaryEnd];
    let b1 = b.with_buffering(BufferingView::Binary(FragmentState::Empty));
    let b2 = b.with_buffering(BufferingView::Binary(FragmentState::Borrowed(s)));
    assert(step(b, ts[0]) == (b1, true));
    assert(step(b1, ts[1]) == (b2, true));
    assert(b2.with_buffering(BufferingView::Value) == b);
    let p = PartView::Binary { borrowed: s.len() > MAX_INLINE_FRAGMENT_LEN || any_borrowed(b.parts), bytes: s };
    if s.len() <= MAX_INLINE_FRAGMENT_LEN && !any_borrowed(b.parts) {
        assert(Seq::<u8>::empty() + s =~= s);
        assert(binary_appended(b.parts.push(empty_binary()), b.parts.len() as int, s) =~= b.parts.push(p));
    }
    assert(step(b2, ts[2]) == (b.with_parts(b.parts.push(p)), true));
    lemma_run_single(b2, ts[2]);
    assert(ts.drop_first().drop_first() =~= seq![ts[2]]);
    assert(ts.drop_first()[0] == ts[1]);
    assert(run(b1, ts.drop_first()) == run(b2, ts.drop_first().drop_first()));
    assert(run(b, ts) == run(b1, ts.drop_first()));
}

/// The containers begun and not yet ended by the calls `ts`.
pub open spec fn open_containers(ts: Seq<TokenView>) -> int
    decreases ts.len(),
{
    if ts.len() == 0 {
        0
    } else {
        open_containers(ts.drop_last()) + match ts.last() {
            TokenView::Begin(..) => 1int,
            TokenView::End(..) => -1int,
            _ => 0int,
        }
    }
}

/// Whether the last text or binary value begun by the calls `ts` is still
/// waiting for its end.
pub open spec fn fragments_open(ts: Seq<TokenView>) -> bool
    decreases ts.len(),
{
    if ts.len() == 0 {
        false
    } else {
        match ts.last() {
            TokenView::TextBegin(_) | TokenView::BinaryBegin(_) => true,
            TokenView::TextEnd | TokenView::BinaryEnd => false,
            _ => fragments_open(ts.drop_last()),
        }
    }
}

/// A call that encodes something: a value, a tag, a tag hint, a
/// container, or the end of a text or binary value.
pub open spec fn encodes(t: TokenView) -> bool {
    match t {
        TokenView::Scalar(_) | TokenView::Tag(_) | TokenView::TagHint(_) | TokenView::Begin(..)
        | TokenView::TextEnd | TokenView::BinaryEnd => true,
        _ => false,
    }
}

/// Whether any of the calls `ts` encodes something.
pub open spec fn any_encoded(ts: Seq<TokenView>) -> bool
    decreases ts.len(),
{
    ts.len() > 0 && (encodes(ts.last()) || any_encoded(ts.drop_last()))
}

proof fn lemma_ok_prefix(b: ValueBufView, ts: Seq<TokenView>)
    requires
        ts.len() > 0,
        run(b, ts).1,
    ensures
        run(b, ts.drop_last()).1,
        run(b, ts) == step(run(b, ts.drop_last()).0, ts.last()),
{
    let xs = ts.drop_last();
    let ys = seq![ts.last()];
    assert(xs + ys =~= ts);
    lemma_run_append(b, xs, ys);
    lemma_run_single(run(b, xs).0, ts.last());
}

proof fn lemma_history(ts: Seq<TokenView>)
    requires
        run(empty_buf(), ts).1,
    ensures
        run(empty_buf(), ts).0.stack.len() == open_containers(ts),
        (run(empty_buf(), ts).0.buffering is Value) == !fragments_open(ts),
        run(empty_buf(), ts).0.buffering is Value ==> (run(empty_buf(), ts).0.parts.len() > 0 <==> any_encoded(ts)),
    decreases ts.len(),
{
    lemma_structured_empty();
    lemma_run_structured(empty_buf(), ts);
    if ts.len() > 0 {
        let xs = ts.drop_last();
        let t = ts.last();
        lemma_ok_prefix(empty_buf(), ts);
        lemma_history(xs);
        lemma_run_structured(empty_buf(), xs);
        let q0 = run(empty_buf(), xs).0;
        let o = token_op(q0, t);
        assert(o.1 is Ok);
        assert(run(empty_buf(), ts).0 == o.0);
        match t {
            TokenView::End(..) => {
                assert(o.0.parts.len() == q0.parts.len());
            },
            TokenView::TextEnd => {
                assert(o.0.parts.len() > 0);
            },
            TokenView::BinaryEnd => {
                assert(o.0.parts.len() > 0);
            },
            _ => {},
        }
    }
}

/// After calls that all succeeded on a new buffer, the buffer holds a
/// whole value exactly when every container begun has ended, no text or
/// binary value waits for its end, and something was encoded.
pub proof fn law_complete_after_calls(ts: Seq<TokenView>)
    requires
        run(empty_buf(), ts).1,
    ensures
        run(empty_buf(), ts).0.complete() <==> (open_containers(ts) == 0 && !fragments_open(ts) && any_encoded(ts)),
{
    lemma_history(ts);
}

/// Tokens in the form a buffer streams them back in, those of any whole
/// values that fit in a buffer, are collected and streamed back unchanged.
pub proof fn law_replay_normal_form(ps: Seq<PartView>)
    requires
        0 < ps.len() <= MAX_PARTS_LEN,
        closed_seg(ps, 0, ps.len() as int),
    ensures
        run(empty_buf(), decode(ps)).1,
        run(empty_buf(), decode(ps)).0.complete(),
        decode(run(empty_buf(), decode(ps)).0.parts) == decode(ps),
{
    let q = empty_buf();
    assert(same_borrow(q.parts, ps, 0));
    lemma_replay(ps, 0, ps.len() as int, q);
    assert(q.parts + ps.subrange(0, ps.len() as int) =~= ps);
    assert(bumped(q.stack, top_entries(ps, 0, ps.len() as int)) =~= Seq::<Frame>::empty());
}

/// The parts up to the header of open container `j` are whole values.
proof fn lemma_structured_prefix(b: ValueBufView, j: int)
    requires
        structured(b),
        0 <= j <= b.stack.len(),
    ensures
        closed_seg(b.parts, 0, seg_end(b, j)),
    decreases j,
{
    if j == 0 {
        assert(seg_start(b.stack, 0) == 0);
    } else {
        lemma_structured_prefix(b, j - 1);
        let h = b.stack[j - 1].len_at as int;
        assert(seg_end(b, j - 1) == h);
        assert(frame_ok(b, j - 1));
        lemma_frames_bounds(b, j - 1);
        let ps = b.parts;
        // An open header is a whole value with an empty body, for now.
        assert(closed_seg(ps, h + 1, h + 1));
        assert(top_entries(ps, h + 1, h + 1) == 0);
        assert(closed_seg(ps, h, h + 1));
        lemma_closed_seg_concat(ps, 0, h, h + 1);
        assert(seg_start(b.stack, j) == h + 1);
        assert(closed_seg(ps, h + 1, seg_end(b, j)));
        lemma_closed_seg_concat(ps, 0, h + 1, seg_end(b, j));
    }
}

proof fn lemma_frames_bounds(b: ValueBufView, j: int)
    requires
        structured(b),
        0 <= j < b.stack.len(),
    ensures
        b.stack[j].len_at < content_end(b),
        content_end(b) <= b.parts.len(),
{
}

/// Every buffer's parts, read with each open container's body still
/// empty, are whole values.
proof fn lemma_structured_closed(b: ValueBufView)
    requires
        structured(b),
    ensures
        closed_seg(b.parts, 0, b.parts.len() as int),
{
    lemma_structured_prefix(b, b.stack.len() as int);
    let ps = b.parts;
    let c = content_end(b);
    assert(seg_end(b, b.stack.len() as int) == c);
    if c < ps.len() {
        assert(c == ps.len() - 1);
        assert(borrow_ok(ps, c));
        lemma_closed_seg_leaf(ps, c);
        lemma_closed_seg_concat(ps, 0, c, c + 1);
    }
}

/// Whatever calls a buffer was given, complete or not, streaming it back
/// into a new buffer succeeds and streams back the same tokens: buffering
/// a buffer loses nothing.
pub proof fn law_rebuffer_tokens(ts: Seq<TokenView>)
    ensures
        run(empty_buf(), decode(run(empty_buf(), ts).0.parts)).1,
        decode(run(empty_buf(), decode(run(empty_buf(), ts).0.parts)).0.parts)
            == decode(run(empty_buf(), ts).0.parts),
{
    let b = run(empty_buf(), ts).0;
    lemma_structured_empty();
    lemma_run_keeps_structure(empty_buf(), ts);
    if b.parts.len() == 0 {
        let null = TokenView::Scalar(crate::token::Scalar::Null);
        lemma_run_single(empty_buf(), null);
        let ps = seq![PartView::Scalar(crate::token::Scalar::Null)];
        assert(run(empty_buf(), decode(b.parts)).0.parts =~= ps);
        lemma_decode_range_unfold(ps, 0, 1);
        assert(decode_range(ps, 1, 1) =~= Seq::<TokenView>::empty());
        assert(decode(ps) =~= seq![null]);
    } else {
        lemma_structured_closed(b);
        law_replay_normal_form(b.parts);
    }
}

} // verus!
