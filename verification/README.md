# sval_buffer

Buffering for streamed, structured values, verified with Verus.

A value is streamed as a sequence of tokens (`token::Token`): primitives,
text and binary values in fragments, tags, and the delimiters of maps,
sequences, records, tuples, enums and tagged values. This crate buffers
such a stream:

- `TextBuf` and `BinaryBuf` join the fragments of a single text or binary
  value, keeping a single fragment borrowed where they can.
- `ValueBuf` buffers any value into a flat sequence of parts, one header
  per container recording how many parts its body spans. It can be
  streamed back out (`to_tokens`), made independent of borrowed data
  (`into_owned`), and reused (`clear`).
- `stream` declares recursive streams (`Stream`, `StreamSeq`, `StreamMap`,
  `StreamTuple`, `StreamRecord`, `StreamEnum`), where each container is
  written through a stream of its own. `stream::flat::flatten` writes a
  flat token stream into such a stream. What each token does is a spec
  function (`flat_step`) from the flattening stream's state to the next
  state, the calls it hands to the stream (`CallView`), in order, and
  whether the token is refused; `FlatStream` records each call it makes
  and is proved to make exactly those. Values nested deeper than the
  container being written are buffered in a `ValueBuf` until they
  complete. `stream::flat_laws` states what a map, a tuple and nested
  enums are written as. `stream::flat_enum` holds
  the queue of nested enum variants that an enum stream unwinds, and
  `stream::Unsupported` is a stream that refuses every value with an error
  naming what it was.
- Integers that don't fit in 64 bits are streamed as their decimal text,
  tagged as a number (`number`).

Every operation carries a contract over a mathematical model: a buffer is
a sequence of part views with a stack of open-container frames
(`value::model`), and each stream call is a step of that model. The laws
in `value::laws`, `value::owning` and `value::primitives` state what
holds across calls, among them that streaming a complete buffer back into
a new one rebuilds it exactly, that streaming any buffer back into a new
one streams back the same tokens, that the primitive values streamed in
come back out in order, that collecting with computed fragments is the same as
collecting and then making the buffer owned, that a buffer records an
error exactly when a call on it failed, when a buffer holds a whole
value in terms of the calls made on it, and when a single borrowed
fragment is copied rather than borrowed.

Layout:

- `src/error.rs`, `src/data.rs`, `src/token.rs`: errors, tags, labels,
  indexes and container metadata, and tokens.
- `src/fragments.rs`: `TextBuf` and `BinaryBuf`.
- `src/value/`: parts and their storage, the buffer model, `ValueBuf` and
  `Value`, streaming parts back out, the laws, and a fixed-capacity vector.
- `src/number.rs`: decimal text of integers.
- `src/stream.rs`, `src/stream/flat.rs`, `src/stream/flat_enum.rs`: the
  recursive stream traits, owned labels, `Unsupported`, the flattening
  stream, and the nested enum variant queue.
- `src/bench_data.rs`: sample documents and a map of short keys used to
  measure buffering.
- `tests/`: tests of the library on concrete values.
- `app/`: buffering values that implement `sval::Value`: a `sval::Stream`
  that records each call as a token, and a buffer streamed back out
  through `sval::Value`.
