//! What flattening writes into the stream: a primitive goes by the
//! stream's method for its type, binary as one sequence of its bytes in
//! order, each kind of container through the calls of its own kind, in
//! order, and nested enum variants are begun in the order they were
//! streamed, the innermost taking the value with its own metadata.
use vstd::prelude::*;

use crate::data::{ContainerKind, Index, LabelView, MetaView};
use crate::error::Error;
use crate::token::{Scalar, TokenView};
use super::flat::{
    done, flat_run, flat_step, held_after, initial_view, lemma_flat_run_append, lemma_flat_run_single, nested_calls,
    variant_of, CallView, FlatView, Held, StateView,
};
use super::flat_enum::NestedVariantView;
use super::{binary_written, scalar_call, took_bytes, Stream, StreamEnum, StreamRecord, StreamSeq};

verus! {

/// A value given to a map goes to it as a key or as a value, as the
/// entry it is in says, handed over as its tokens.
pub proof fn law_map_routes_values(v: FlatView, is_key: bool, x: Scalar)
    requires
        v.buffered is None,
        v.state == StateView::Mapping(true, is_key),
    ensures
        flat_step(v, TokenView::Scalar(x)) == (v, seq![if is_key {
            CallView::MapKey(seq![TokenView::Scalar(x)])
        } else {
            CallView::MapValue(seq![TokenView::Scalar(x)])
        }], Ok::<(), crate::error::Error>(())),
{
    reveal(flat_step);
}

/// Beginning a map key or value marks which the next value is.
pub proof fn law_map_marks_entries(v: FlatView, kind: ContainerKind, m: MetaView, hint: Option<usize>, is_key: bool)
    requires
        v.buffered is None,
        v.state == StateView::Mapping(true, is_key),
        kind == ContainerKind::MapKey || kind == ContainerKind::MapValue,
    ensures
        flat_step(v, TokenView::Begin(kind, m, hint)) == (
            FlatView { state: StateView::Mapping(true, kind == ContainerKind::MapKey), ..v },
            Seq::<CallView>::empty(),
            Ok::<(), crate::error::Error>(()),
        ),
{
    reveal(flat_step);
}

/// Streaming a map of one entry writes the map's begin, the key, the
/// value and the map's end, and completes the value.
pub proof fn law_flat_map_entry(m: MetaView, hint: Option<usize>, k: MetaView, vm: MetaView, a: Scalar, b: Scalar)
    ensures
        ({
            let ts = seq![
                TokenView::Begin(ContainerKind::Mapping, m, hint),
                TokenView::Begin(ContainerKind::MapKey, k, None),
                TokenView::Scalar(a),
                TokenView::End(ContainerKind::MapKey, k),
                TokenView::Begin(ContainerKind::MapValue, vm, None),
                TokenView::Scalar(b),
                TokenView::End(ContainerKind::MapValue, vm),
                TokenView::End(ContainerKind::Mapping, m),
            ];
            let (next, calls, res) = flat_run(initial_view(), ts);
            &&& res is Ok
            &&& next.state is Done
            &&& calls == seq![
                CallView::MapBegin(hint),
                CallView::MapKey(seq![TokenView::Scalar(a)]),
                CallView::MapValue(seq![TokenView::Scalar(b)]),
                CallView::MapEnd,
            ]
        }),
{
    reveal(flat_step);
    reveal_with_fuel(flat_run, 9);
    let ts = seq![
        TokenView::Begin(ContainerKind::Mapping, m, hint),
        TokenView::Begin(ContainerKind::MapKey, k, None),
        TokenView::Scalar(a),
        TokenView::End(ContainerKind::MapKey, k),
        TokenView::Begin(ContainerKind::MapValue, vm, None),
        TokenView::Scalar(b),
        TokenView::End(ContainerKind::MapValue, vm),
        TokenView::End(ContainerKind::Mapping, m),
    ];
    assert(flat_run(initial_view(), ts).1 =~= seq![
        CallView::MapBegin(hint),
        CallView::MapKey(seq![TokenView::Scalar(a)]),
        CallView::MapValue(seq![TokenView::Scalar(b)]),
        CallView::MapEnd,
    ]);
}

/// Streaming a tuple of one value writes the tuple's begin, the value at
/// its index, and the tuple's end, and completes the value.
pub proof fn law_flat_tuple_value(m: MetaView, hint: Option<usize>, im: MetaView, i: Index, a: Scalar)
    requires
        im.index == Some(i),
    ensures
        ({
            let ts = seq![
                TokenView::Begin(ContainerKind::Tuple, m, hint),
                TokenView::Begin(ContainerKind::TupleValue, im, None),
                TokenView::Scalar(a),
                TokenView::End(ContainerKind::TupleValue, im),
                TokenView::End(ContainerKind::Tuple, m),
            ];
            let (next, calls, res) = flat_run(initial_view(), ts);
            &&& res is Ok
            &&& next.state is Done
            &&& calls == seq![
                CallView::TupleBegin(m, hint),
                CallView::TupleValue(im.tag, i, seq![TokenView::Scalar(a)]),
                CallView::TupleEnd,
            ]
        }),
{
    reveal(flat_step);
    reveal_with_fuel(flat_run, 6);
    let ts = seq![
        TokenView::Begin(ContainerKind::Tuple, m, hint),
        TokenView::Begin(ContainerKind::TupleValue, im, None),
        TokenView::Scalar(a),
        TokenView::End(ContainerKind::TupleValue, im),
        TokenView::End(ContainerKind::Tuple, m),
    ];
    assert(flat_run(initial_view(), ts).1 =~= seq![
        CallView::TupleBegin(m, hint),
        CallView::TupleValue(im.tag, i, seq![TokenView::Scalar(a)]),
        CallView::TupleEnd,
    ]);
}

/// An enum begun inside an enum waits to be begun as its variant; nothing
/// is written yet.
pub proof fn law_enum_waits(v: FlatView, m: MetaView, hint: Option<usize>)
    requires
        v.buffered is None,
        v.state == StateView::Enum(true),
    ensures
        flat_step(v, TokenView::Begin(ContainerKind::Enum, m, hint)) == (
            FlatView { waiting: v.waiting.push(variant_of(m)), ..v },
            Seq::<CallView>::empty(),
            Ok::<(), Error>(()),
        ),
{
    reveal(flat_step);
}

/// A tagged value given to an enum begins the waiting variants, outermost
/// first, then writes the value into the innermost as a tagged variant,
/// and completes the value.
pub proof fn law_enum_tagged_variant(v: FlatView, m: MetaView, hint: Option<usize>, x: Scalar)
    requires
        v.buffered is None,
        v.state == StateView::Enum(true),
    ensures
        flat_run(v, seq![TokenView::Begin(ContainerKind::Tagged, m, hint), TokenView::Scalar(x)]) == (
            done(v),
            nested_calls(v.waiting).push(CallView::EnumTagged(variant_of(m), seq![TokenView::Scalar(x)])),
            Ok::<(), Error>(()),
        ),
{
    reveal(flat_step);
    reveal_with_fuel(flat_run, 3);
    let ts = seq![TokenView::Begin(ContainerKind::Tagged, m, hint), TokenView::Scalar(x)];
    assert(ts.drop_first().drop_first() =~= Seq::<TokenView>::empty());
    let c = nested_calls(v.waiting).push(CallView::EnumTagged(variant_of(m), seq![TokenView::Scalar(x)]));
    assert(Seq::<CallView>::empty() + (c + Seq::<CallView>::empty()) =~= c);
}

/// Ending an enum begins the waiting variants, outermost first, then ends
/// the innermost: the enum stream's end is called once.
pub proof fn law_enum_end(v: FlatView, m: MetaView)
    requires
        v.buffered is None,
        v.state == StateView::Enum(true),
    ensures
        flat_step(v, TokenView::End(ContainerKind::Enum, m)) == (
            done(v),
            nested_calls(v.waiting).push(CallView::EnumEnd),
            Ok::<(), Error>(()),
        ),
        v.waiting.len() == 0 ==> flat_step(v, TokenView::End(ContainerKind::Enum, m)).1 == seq![CallView::EnumEnd],
{
    reveal(flat_step);
    if v.waiting.len() == 0 {
        assert(nested_calls(v.waiting) =~= Seq::<CallView>::empty());
        assert(nested_calls(v.waiting).push(CallView::EnumEnd) =~= seq![CallView::EnumEnd]);
    }
}

/// Enum begins for each of the given metadata, in order.
pub open spec fn enum_begins(ms: Seq<MetaView>) -> Seq<TokenView> {
    ms.map_values(|m: MetaView| TokenView::Begin(ContainerKind::Enum, m, None))
}

/// Enums begun inside an enum wait, in the order they were begun.
proof fn lemma_enums_wait(v: FlatView, ms: Seq<MetaView>)
    requires
        v.buffered is None,
        v.state == StateView::Enum(true),
    ensures
        flat_run(v, enum_begins(ms)) == (
            FlatView { waiting: v.waiting + ms.map_values(|m: MetaView| variant_of(m)), ..v },
            Seq::<CallView>::empty(),
            Ok::<(), Error>(()),
        ),
    decreases ms.len(),
{
    if ms.len() == 0 {
        assert(enum_begins(ms) =~= Seq::<TokenView>::empty());
        assert(v.waiting + ms.map_values(|m: MetaView| variant_of(m)) =~= v.waiting);
    } else {
        let init = ms.drop_last();
        lemma_enums_wait(v, init);
        let v1 = FlatView { waiting: v.waiting + init.map_values(|m: MetaView| variant_of(m)), ..v };
        assert(enum_begins(ms) =~= enum_begins(init) + seq![TokenView::Begin(ContainerKind::Enum, ms.last(), None)]);
        lemma_flat_run_append(v, enum_begins(init), seq![TokenView::Begin(ContainerKind::Enum, ms.last(), None)]);
        law_enum_waits(v1, ms.last(), None);
        let t = TokenView::Begin(ContainerKind::Enum, ms.last(), None);
        let one = seq![t];
        assert(one.drop_first() =~= Seq::<TokenView>::empty());
        assert(flat_run(v1, one) == flat_step(v1, t)) by {
            reveal_with_fuel(flat_run, 2);
            assert(Seq::<CallView>::empty() + Seq::<CallView>::empty() =~= Seq::<CallView>::empty());
        }
        assert(v1.waiting.push(variant_of(ms.last())) =~= v.waiting + ms.map_values(|m: MetaView| variant_of(m)));
        assert(Seq::<CallView>::empty() + Seq::<CallView>::empty() =~= Seq::<CallView>::empty());
    }
}

/// Enums nested in an enum, with a tagged value at the bottom, are written
/// as the outer enum's begin, each nested enum begun as the variant of the
/// one around it, in the order they were streamed, and the tagged value as
/// the innermost enum's variant.
pub proof fn law_nested_enums(m0: MetaView, ms: Seq<MetaView>, mv: MetaView, x: Scalar)
    ensures
        ({
            let ts = seq![TokenView::Begin(ContainerKind::Enum, m0, None)] + enum_begins(ms)
                + seq![TokenView::Begin(ContainerKind::Tagged, mv, None), TokenView::Scalar(x)];
            let (next, calls, res) = flat_run(initial_view(), ts);
            &&& res is Ok
            &&& next.state is Done
            &&& calls == seq![CallView::EnumBegin(m0)]
                + ms.map_values(|m: MetaView| CallView::EnumNested(variant_of(m)))
                + seq![CallView::EnumTagged(variant_of(mv), seq![TokenView::Scalar(x)])]
        }),
{
    let first = seq![TokenView::Begin(ContainerKind::Enum, m0, None)];
    let last = seq![TokenView::Begin(ContainerKind::Tagged, mv, None), TokenView::Scalar(x)];
    let v0 = initial_view();
    let v1 = FlatView { state: StateView::Enum(true), waiting: Seq::empty(), ..v0 };
    assert(flat_run(v0, first) == (v1, seq![CallView::EnumBegin(m0)], Ok::<(), Error>(()))) by {
        reveal(flat_step);
        reveal_with_fuel(flat_run, 2);
        assert(first.drop_first() =~= Seq::<TokenView>::empty());
        assert(seq![CallView::EnumBegin(m0)] + Seq::<CallView>::empty() =~= seq![CallView::EnumBegin(m0)]);
    }
    lemma_enums_wait(v1, ms);
    let w = ms.map_values(|m: MetaView| variant_of(m));
    let v2 = FlatView { waiting: v1.waiting + w, ..v1 };
    law_enum_tagged_variant(v2, mv, None, x);
    lemma_flat_run_append(v0, first, enum_begins(ms));
    lemma_flat_run_append(v0, first + enum_begins(ms), last);
    assert(v1.waiting + w =~= w);
    assert(nested_calls(w) =~= ms.map_values(|m: MetaView| CallView::EnumNested(variant_of(m))));
    let tail = nested_calls(w).push(CallView::EnumTagged(variant_of(mv), seq![TokenView::Scalar(x)]));
    assert(seq![CallView::EnumBegin(m0)] + Seq::<CallView>::empty() + tail
        =~= seq![CallView::EnumBegin(m0)] + ms.map_values(|m: MetaView| CallView::EnumNested(variant_of(m)))
            + seq![CallView::EnumTagged(variant_of(mv), seq![TokenView::Scalar(x)])]);
}

/// A primitive given alone makes exactly one call on the stream, by the
/// stream's method for the primitive's type, with its value: a 32-bit
/// float goes by its own bits, not as a 64-bit float, and what the stream
/// gives for that call completes the value.
pub proof fn law_flatten_scalar<'sval, S: Stream<'sval>>(s: S, x: Scalar)
    ensures
        flat_run(initial_view(), seq![TokenView::Scalar(x)]) == (
            done(initial_view()),
            seq![CallView::Scalar(x)],
            Ok::<(), Error>(()),
        ),
        held_after(s, seq![CallView::Scalar(x)]) == Held::<'sval, S>::Done(s.written(scalar_call(x))),
        x matches Scalar::F32(bits) ==> held_after(s, seq![CallView::Scalar(x)])
            == Held::<'sval, S>::Done(s.written(CallView::Scalar(Scalar::F32(bits)))),
        x matches Scalar::F64(bits) ==> held_after(s, seq![CallView::Scalar(x)])
            == Held::<'sval, S>::Done(s.written(CallView::Scalar(Scalar::F64(bits)))),
{
    reveal(flat_step);
    lemma_flat_run_single(initial_view(), TokenView::Scalar(x));
    assert(flat_run(initial_view(), seq![TokenView::Scalar(x)]).0 =~= done(initial_view()));
    assert(flat_run(initial_view(), seq![TokenView::Scalar(x)]).1 =~= seq![CallView::Scalar(x)]);
    assert(flat_run(initial_view(), seq![TokenView::Scalar(x)]).2 == Ok::<(), Error>(())) by {
        reveal_with_fuel(flat_run, 2);
        assert(seq![TokenView::Scalar(x)].drop_first() =~= Seq::<TokenView>::empty());
    }
    assert(seq![CallView::Scalar(x)].drop_last() =~= Seq::<CallView>::empty());
    reveal_with_fuel(held_after, 2);
}

/// Binary written into a stream as a sequence: the sequence takes the
/// first bytes first, then the rest, so the bytes go in order.
pub proof fn law_took_bytes_append<'sval, Q: StreamSeq<'sval>>(q: Q, a: Seq<u8>, b: Seq<u8>)
    ensures
        took_bytes(q, a + b) == took_bytes(took_bytes(q, a), b),
    decreases b.len(),
{
    if b.len() == 0 {
        assert(a + b =~= a);
    } else {
        law_took_bytes_append(q, a, b.drop_last());
        assert((a + b).drop_last() =~= a + b.drop_last());
        assert((a + b).last() == b.last());
    }
}

/// Binary streamed in fragments, borrowed or computed, is written into
/// the stream once, whole: a sequence of its bytes, the first fragment's
/// first, then the second's.
pub proof fn law_flatten_binary<'sval, S: Stream<'sval>>(s: S, hint: Option<usize>, a: Seq<u8>, b: Seq<u8>)
    ensures
        ({
            let ts = seq![
                TokenView::BinaryBegin(hint),
                TokenView::BinaryFragment(a),
                TokenView::BinaryFragmentComputed(b),
                TokenView::BinaryEnd,
            ];
            let (next, calls, res) = flat_run(initial_view(), ts);
            &&& res is Ok
            &&& next.state is Done
            &&& calls == seq![CallView::Binary(a + b, false)]
            &&& held_after(s, calls) == Held::<'sval, S>::Done(binary_written(s, a + b))
            &&& binary_written(s, a + b)
                == took_bytes(took_bytes(s.opened_seq(Some((a + b).len() as usize)), a), b).seq_ended()
        }),
{
    reveal(flat_step);
    reveal_with_fuel(flat_run, 5);
    let ts = seq![
        TokenView::BinaryBegin(hint),
        TokenView::BinaryFragment(a),
        TokenView::BinaryFragmentComputed(b),
        TokenView::BinaryEnd,
    ];
    assert(ts.drop_first().drop_first().drop_first().drop_first() =~= Seq::<TokenView>::empty());
    let calls = seq![CallView::Binary(a + b, false)];
    assert(flat_run(initial_view(), ts).1 =~= calls);
    assert(calls.drop_last() =~= Seq::<CallView>::empty());
    reveal_with_fuel(held_after, 2);
    law_took_bytes_append(s.opened_seq(Some((a + b).len() as usize)), a, b);
}

/// A newtype variant of an enum: the enum is begun, then its stream is
/// given the value as a tagged variant with the tag, label and index of
/// the variant's own metadata, and what the enum stream gives for that
/// completes the value.
pub proof fn law_flatten_tagged_variant<'sval, S: Stream<'sval>>(s: S, m0: MetaView, m: MetaView, x: Scalar)
    ensures
        ({
            let ts = seq![
                TokenView::Begin(ContainerKind::Enum, m0, None),
                TokenView::Begin(ContainerKind::Tagged, m, None),
                TokenView::Scalar(x),
                TokenView::End(ContainerKind::Tagged, m),
                TokenView::End(ContainerKind::Enum, m0),
            ];
            let (next, calls, res) = flat_run(initial_view(), ts);
            let variant = NestedVariantView { tag: m.tag, label: m.label, index: m.index };
            &&& res is Ok
            &&& next.state is Done
            &&& calls == seq![
                CallView::EnumBegin(m0),
                CallView::EnumTagged(variant, seq![TokenView::Scalar(x)]),
            ]
            &&& held_after(s, calls) == Held::<'sval, S>::Done(
                s.opened_enum(m0).enum_written(CallView::EnumTagged(variant, seq![TokenView::Scalar(x)])),
            )
        }),
{
    reveal(flat_step);
    reveal_with_fuel(flat_run, 6);
    let ts = seq![
        TokenView::Begin(ContainerKind::Enum, m0, None),
        TokenView::Begin(ContainerKind::Tagged, m, None),
        TokenView::Scalar(x),
        TokenView::End(ContainerKind::Tagged, m),
        TokenView::End(ContainerKind::Enum, m0),
    ];
    let variant = NestedVariantView { tag: m.tag, label: m.label, index: m.index };
    let calls = seq![CallView::EnumBegin(m0), CallView::EnumTagged(variant, seq![TokenView::Scalar(x)])];
    assert(nested_calls(Seq::<NestedVariantView>::empty()) =~= Seq::<CallView>::empty());
    assert(flat_run(initial_view(), ts).1 =~= calls);
    assert(calls.drop_last().drop_last() =~= Seq::<CallView>::empty());
    assert(calls.drop_last() =~= seq![CallView::EnumBegin(m0)]);
    reveal_with_fuel(held_after, 3);
}

/// An enum stream after beginning each of the given variants in turn,
/// each inside the one before.
pub open spec fn nested_in<'sval, E: StreamEnum<'sval>>(e: E, ms: Seq<MetaView>) -> E
    decreases ms.len(),
{
    if ms.len() == 0 {
        e
    } else {
        nested_in(e, ms.drop_last()).enum_nested(variant_of(ms.last()))
    }
}

proof fn lemma_held_nested<'sval, S: Stream<'sval>>(s: S, m0: MetaView, ms: Seq<MetaView>)
    ensures
        held_after(s, seq![CallView::EnumBegin(m0)] + ms.map_values(|m: MetaView| CallView::EnumNested(variant_of(m))))
            == Held::<'sval, S>::Enum(nested_in(s.opened_enum(m0), ms)),
    decreases ms.len(),
{
    let calls = seq![CallView::EnumBegin(m0)] + ms.map_values(|m: MetaView| CallView::EnumNested(variant_of(m)));
    if ms.len() == 0 {
        assert(calls =~= seq![CallView::EnumBegin(m0)]);
        assert(calls.drop_last() =~= Seq::<CallView>::empty());
        reveal_with_fuel(held_after, 2);
    } else {
        let init = ms.drop_last();
        lemma_held_nested(s, m0, init);
        assert(calls.drop_last()
            =~= seq![CallView::EnumBegin(m0)] + init.map_values(|m: MetaView| CallView::EnumNested(variant_of(m))));
        assert(calls.last() == CallView::EnumNested(variant_of(ms.last())));
    }
}

/// Enums nested in an enum, with a tagged value at the bottom: what the
/// stream gives is what the outer enum's stream gives once each nested
/// variant is begun in it, in the order they were streamed, and the
/// innermost is given the value as a tagged variant with its own tag,
/// label and index.
pub proof fn law_flatten_nested_enums<'sval, S: Stream<'sval>>(
    s: S,
    m0: MetaView,
    ms: Seq<MetaView>,
    mv: MetaView,
    x: Scalar,
)
    ensures
        ({
            let ts = seq![TokenView::Begin(ContainerKind::Enum, m0, None)] + enum_begins(ms)
                + seq![TokenView::Begin(ContainerKind::Tagged, mv, None), TokenView::Scalar(x)];
            let (next, calls, res) = flat_run(initial_view(), ts);
            let variant = NestedVariantView { tag: mv.tag, label: mv.label, index: mv.index };
            &&& res is Ok
            &&& next.state is Done
            &&& held_after(s, calls) == Held::<'sval, S>::Done(
                nested_in(s.opened_enum(m0), ms).enum_written(
                    CallView::EnumTagged(variant, seq![TokenView::Scalar(x)]),
                ),
            )
        }),
{
    law_nested_enums(m0, ms, mv, x);
    lemma_held_nested(s, m0, ms);
    let front = seq![CallView::EnumBegin(m0)] + ms.map_values(|m: MetaView| CallView::EnumNested(variant_of(m)));
    let last = CallView::EnumTagged(variant_of(mv), seq![TokenView::Scalar(x)]);
    assert(front + seq![last] =~= front.push(last));
    assert(front.push(last).drop_last() =~= front);
}

/// Text streamed in fragments, borrowed or computed, is written into the
/// stream once, whole, as the fragments joined in order.
pub proof fn law_flatten_text<'sval, S: Stream<'sval>>(s: S, hint: Option<usize>, a: Seq<char>, b: Seq<char>)
    ensures
        ({
            let ts = seq![
                TokenView::TextBegin(hint),
                TokenView::TextFragment(a),
                TokenView::TextFragmentComputed(b),
                TokenView::TextEnd,
            ];
            let (next, calls, res) = flat_run(initial_view(), ts);
            &&& res is Ok
            &&& next.state is Done
            &&& calls == seq![CallView::Text(a + b, false)]
            &&& held_after(s, calls) == Held::<'sval, S>::Done(s.written(CallView::Text(a + b, false)))
        }),
{
    reveal(flat_step);
    reveal_with_fuel(flat_run, 5);
    let ts = seq![
        TokenView::TextBegin(hint),
        TokenView::TextFragment(a),
        TokenView::TextFragmentComputed(b),
        TokenView::TextEnd,
    ];
    assert(ts.drop_first().drop_first().drop_first().drop_first() =~= Seq::<TokenView>::empty());
    assert(Seq::<char>::empty() + a =~= a);
    let calls = seq![CallView::Text(a + b, false)];
    assert(flat_run(initial_view(), ts).1 =~= calls);
    assert(calls.drop_last() =~= Seq::<CallView>::empty());
    reveal_with_fuel(held_after, 2);
}

/// A tagged value is written into the stream once, as the tag's
/// metadata and the value's tokens.
pub proof fn law_flatten_tagged<'sval, S: Stream<'sval>>(s: S, m: MetaView, x: Scalar)
    ensures
        ({
            let ts = seq![
                TokenView::Begin(ContainerKind::Tagged, m, None),
                TokenView::Scalar(x),
                TokenView::End(ContainerKind::Tagged, m),
            ];
            let (next, calls, res) = flat_run(initial_view(), ts);
            &&& res is Ok
            &&& next.state is Done
            &&& calls == seq![CallView::Tagged(m, seq![TokenView::Scalar(x)])]
            &&& held_after(s, calls) == Held::<'sval, S>::Done(
                s.written(CallView::Tagged(m, seq![TokenView::Scalar(x)])),
            )
        }),
{
    reveal(flat_step);
    reveal_with_fuel(flat_run, 4);
    let ts = seq![
        TokenView::Begin(ContainerKind::Tagged, m, None),
        TokenView::Scalar(x),
        TokenView::End(ContainerKind::Tagged, m),
    ];
    assert(ts.drop_first().drop_first().drop_first() =~= Seq::<TokenView>::empty());
    let calls = seq![CallView::Tagged(m, seq![TokenView::Scalar(x)])];
    assert(flat_run(initial_view(), ts).1 =~= calls);
    assert(calls.drop_last() =~= Seq::<CallView>::empty());
    reveal_with_fuel(held_after, 2);
}

/// A sequence of two values: the stream's sequence takes the first, then
/// the second, and its end completes the value.
pub proof fn law_flatten_seq<'sval, S: Stream<'sval>>(s: S, hint: Option<usize>, m: MetaView, a: Scalar, b: Scalar)
    ensures
        ({
            let ts = seq![
                TokenView::Begin(ContainerKind::Sequence, m, hint),
                TokenView::Begin(ContainerKind::SeqValue, m, None),
                TokenView::Scalar(a),
                TokenView::End(ContainerKind::SeqValue, m),
                TokenView::Begin(ContainerKind::SeqValue, m, None),
                TokenView::Scalar(b),
                TokenView::End(ContainerKind::SeqValue, m),
                TokenView::End(ContainerKind::Sequence, m),
            ];
            let (next, calls, res) = flat_run(initial_view(), ts);
            &&& res is Ok
            &&& next.state is Done
            &&& calls == seq![
                CallView::SeqBegin(hint),
                CallView::SeqValue(seq![TokenView::Scalar(a)]),
                CallView::SeqValue(seq![TokenView::Scalar(b)]),
                CallView::SeqEnd,
            ]
            &&& held_after(s, calls) == Held::<'sval, S>::Done(
                s.opened_seq(hint).seq_took(seq![TokenView::Scalar(a)]).seq_took(seq![TokenView::Scalar(b)]).seq_ended(),
            )
        }),
{
    reveal(flat_step);
    reveal_with_fuel(flat_run, 9);
    let ts = seq![
        TokenView::Begin(ContainerKind::Sequence, m, hint),
        TokenView::Begin(ContainerKind::SeqValue, m, None),
        TokenView::Scalar(a),
        TokenView::End(ContainerKind::SeqValue, m),
        TokenView::Begin(ContainerKind::SeqValue, m, None),
        TokenView::Scalar(b),
        TokenView::End(ContainerKind::SeqValue, m),
        TokenView::End(ContainerKind::Sequence, m),
    ];
    let calls = seq![
        CallView::SeqBegin(hint),
        CallView::SeqValue(seq![TokenView::Scalar(a)]),
        CallView::SeqValue(seq![TokenView::Scalar(b)]),
        CallView::SeqEnd,
    ];
    assert(flat_run(initial_view(), ts).1 =~= calls);
    assert(calls.drop_last().drop_last().drop_last().drop_last() =~= Seq::<CallView>::empty());
    assert(calls.drop_last().drop_last().drop_last() =~= seq![CallView::SeqBegin(hint)]);
    assert(calls.drop_last().drop_last() =~= seq![CallView::SeqBegin(hint), CallView::SeqValue(seq![TokenView::Scalar(a)])]);
    reveal_with_fuel(held_after, 5);
}

/// A record of one field: the stream's record takes the value under the
/// field's tag and label, and its end completes the value.
pub proof fn law_flatten_record<'sval, S: Stream<'sval>>(
    s: S,
    m: MetaView,
    hint: Option<usize>,
    fm: MetaView,
    l: LabelView,
    a: Scalar,
)
    requires
        fm.label == Some(l),
    ensures
        ({
            let ts = seq![
                TokenView::Begin(ContainerKind::Record, m, hint),
                TokenView::Begin(ContainerKind::RecordValue, fm, None),
                TokenView::Scalar(a),
                TokenView::End(ContainerKind::RecordValue, fm),
                TokenView::End(ContainerKind::Record, m),
            ];
            let (next, calls, res) = flat_run(initial_view(), ts);
            &&& res is Ok
            &&& next.state is Done
            &&& calls == seq![
                CallView::RecordBegin(m, hint),
                CallView::RecordValue(fm.tag, l, seq![TokenView::Scalar(a)]),
                CallView::RecordEnd,
            ]
            &&& held_after(s, calls) == Held::<'sval, S>::Done(
                s.opened_record(m, hint).record_took(fm.tag, l, seq![TokenView::Scalar(a)]).record_ended(),
            )
        }),
{
    let ts = seq![
        TokenView::Begin(ContainerKind::Record, m, hint),
        TokenView::Begin(ContainerKind::RecordValue, fm, None),
        TokenView::Scalar(a),
        TokenView::End(ContainerKind::RecordValue, fm),
        TokenView::End(ContainerKind::Record, m),
    ];
    let calls = seq![
        CallView::RecordBegin(m, hint),
        CallView::RecordValue(fm.tag, l, seq![TokenView::Scalar(a)]),
        CallView::RecordEnd,
    ];
    assert(flat_run(initial_view(), ts).2 is Ok && flat_run(initial_view(), ts).0.state is Done
        && flat_run(initial_view(), ts).1 == calls) by {
        reveal(flat_step);
        reveal_with_fuel(flat_run, 6);
        assert(flat_run(initial_view(), ts).1 =~= calls);
    }
    assert(held_after(s, calls) == Held::<'sval, S>::Done(
        s.opened_record(m, hint).record_took(fm.tag, l, seq![TokenView::Scalar(a)]).record_ended(),
    )) by {
        assert(calls.drop_last().drop_last().drop_last() =~= Seq::<CallView>::empty());
        assert(calls.drop_last().drop_last() =~= seq![CallView::RecordBegin(m, hint)]);
        reveal_with_fuel(held_after, 4);
    }
}

} // verus!
