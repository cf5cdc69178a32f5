use sval_buffer::data::{Index, Label, Tag};
use sval_buffer::value::part::Part;
use sval_buffer::value::parts::Parts;
use sval_buffer::ValueBuf;

// Whether a stream call is made, or the value fails before making it. A
// value that panics part-way through a call leaves the buffer untouched in
// the same way as one that returns an error before it.
#[derive(Debug, Clone, Copy)]
enum Fault {
    Clean,
    Fails,
    Panics,
}

impl Fault {
    const ALL: [Fault; 3] = [Fault::Clean, Fault::Fails, Fault::Panics];

    fn apply(self, buf: &mut ValueBuf<'static>, op: fn(&mut ValueBuf<'static>) -> Result<(), ()>) -> Result<(), ()> {
        match self {
            Fault::Clean => op(buf),
            Fault::Fails | Fault::Panics => Err(()),
        }
    }
}

type Op = (&'static str, fn(&mut ValueBuf<'static>) -> Result<(), ()>);

// Fragment contents deliberately include bytes that look like part tags
const TEXT_FRAGMENT: &str = "nönsense \u{9F} bytes ÿ";
const BINARY_FRAGMENT: &[u8] = &[0xFF, 0x9F, 0xC0, 1, 2, 3];

fn test_tag() -> Tag {
    Tag::new("test")
}

fn test_index() -> Index {
    Index::new(1)
}

const BUFFERING_OPS: usize = 8;

const OPS: &[Op] = &[
    ("text_begin", |buf| buf.text_begin(Some(4))),
    ("text_fragment", |buf| buf.text_fragment(TEXT_FRAGMENT)),
    ("text_fragment_computed", |buf| {
        let storage = String::from(TEXT_FRAGMENT);
        buf.text_fragment_computed(&storage)
    }),
    ("text_end", |buf| buf.text_end()),
    ("binary_begin", |buf| buf.binary_begin(Some(4))),
    ("binary_fragment", |buf| buf.binary_fragment(BINARY_FRAGMENT)),
    ("binary_fragment_computed", |buf| {
        let storage = Vec::from(BINARY_FRAGMENT);
        buf.binary_fragment_computed(&storage)
    }),
    ("binary_end", |buf| buf.binary_end()),
    ("null", |buf| buf.null()),
    ("bool", |buf| buf.bool(true)),
    ("u8", |buf| buf.u8(1)),
    ("u16", |buf| buf.u16(2)),
    ("u32", |buf| buf.u32(3)),
    ("u64", |buf| buf.u64(4)),
    ("u128", |buf| buf.u128(5)),
    ("i8", |buf| buf.i8(-1)),
    ("i16", |buf| buf.i16(-2)),
    ("i32", |buf| buf.i32(-3)),
    ("i64", |buf| buf.i64(-4)),
    ("i128", |buf| buf.i128(-5)),
    ("f32", |buf| buf.f32_bits(3.14f32.to_bits())),
    ("f64", |buf| buf.f64_bits(3.1415f64.to_bits())),
    ("map_begin", |buf| buf.map_begin(Some(1))),
    ("map_key_begin", |buf| buf.map_key_begin()),
    ("map_key_end", |buf| buf.map_key_end()),
    ("map_value_begin", |buf| buf.map_value_begin()),
    ("map_value_end", |buf| buf.map_value_end()),
    ("map_end", |buf| buf.map_end()),
    ("seq_begin", |buf| buf.seq_begin(Some(1))),
    ("seq_value_begin", |buf| buf.seq_value_begin()),
    ("seq_value_end", |buf| buf.seq_value_end()),
    ("seq_end", |buf| buf.seq_end()),
    ("enum_begin", |buf| {
        let storage = String::from("owned-label");
        buf.enum_begin(Some(test_tag()), Some(&Label::borrowed(&storage)), Some(test_index()))
    }),
    ("enum_end", |buf| buf.enum_end(None, Some(&Label::new("label")), None)),
    ("tagged_begin", |buf| {
        let storage = String::from("owned-label");
        buf.tagged_begin(Some(test_tag()), Some(&Label::borrowed(&storage)), Some(test_index()))
    }),
    ("tagged_end", |buf| buf.tagged_end(None, Some(&Label::new("label")), None)),
    ("tag", |buf| {
        let storage = String::from("owned-label");
        buf.tag(Some(test_tag()), Some(&Label::borrowed(&storage)), Some(test_index()))
    }),
    ("tag_hint", |buf| buf.tag_hint(test_tag())),
    ("record_begin", |buf| {
        let storage = String::from("owned-label");
        buf.record_begin(
            Some(test_tag()),
            Some(&Label::borrowed(&storage)),
            Some(test_index()),
            Some(1),
        )
    }),
    ("record_value_begin", |buf| {
        let storage = String::from("owned-label");
        buf.record_value_begin(Some(test_tag()), &Label::borrowed(&storage))
    }),
    ("record_value_end", |buf| buf.record_value_end(None, &Label::new("label"))),
    ("record_end", |buf| buf.record_end(None, Some(&Label::new("label")), None)),
    ("tuple_begin", |buf| {
        let storage = String::from("owned-label");
        buf.tuple_begin(
            Some(test_tag()),
            Some(&Label::borrowed(&storage)),
            Some(test_index()),
            Some(1),
        )
    }),
    ("tuple_value_begin", |buf| buf.tuple_value_begin(Some(test_tag()), test_index())),
    ("tuple_value_end", |buf| buf.tuple_value_end(None, test_index())),
    ("tuple_end", |buf| buf.tuple_end(None, Some(&Label::new("label")), None)),
    ("record_tuple_begin", |buf| {
        let storage = String::from("owned-label");
        buf.record_tuple_begin(
            Some(test_tag()),
            Some(&Label::borrowed(&storage)),
            Some(test_index()),
            Some(1),
        )
    }),
    ("record_tuple_value_begin", |buf| {
        let storage = String::from("owned-label");
        buf.record_tuple_value_begin(Some(test_tag()), &Label::borrowed(&storage), test_index())
    }),
    ("record_tuple_value_end", |buf| {
        buf.record_tuple_value_end(None, &Label::new("label"), test_index())
    }),
    ("record_tuple_end", |buf| buf.record_tuple_end(None, Some(&Label::new("label")), None)),
];

fn walk(parts: &Parts) -> usize {
    let mut n = 0;
    for i in 0..parts.len() {
        if let Part::Container(h) = parts.get(i) {
            n += h.len as usize;
        }
    }
    n
}

fn exercise(mut buf: ValueBuf<'static>, desc: impl Fn() -> String) {
    let value = buf.to_value();

    let _ = walk(value.parts());

    {
        let _ = ValueBuf::collect(&value.to_tokens());
    }

    if let Ok(owned) = value.into_owned() {
        let _ = ValueBuf::collect(&owned.to_tokens());
    }

    buf.clear();
    buf.i32(42).unwrap();
    assert!(buf.is_complete(), "buffer unusable after: {}", desc());
}

fn exhaustive(ops: &[Op], max_len: usize) {
    let mut sequences = 0usize;

    for len in 0..=max_len {
        let mut seq = vec![0usize; len];

        'sequences: loop {
            let mut buf = ValueBuf::new();

            for &op in seq.iter() {
                let _ = Fault::Clean.apply(&mut buf, ops[op].1);
            }

            exercise(buf, || {
                seq.iter()
                    .map(|&op| ops[op].0)
                    .collect::<Vec<_>>()
                    .join(" -> ")
            });

            sequences += 1;

            // Advance to the next sequence, in mixed-radix order
            for slot in seq.iter_mut() {
                *slot += 1;

                if *slot < ops.len() {
                    continue 'sequences;
                }

                *slot = 0;
            }

            break;
        }
    }

    // Every sequence of every length must actually have run
    let expected = (0..=max_len as u32)
        .map(|len| ops.len().pow(len))
        .sum::<usize>();
    assert_eq!(expected, sequences);
}

#[test]
fn exhaustive_stream_calls() {
    // Every combination of stream calls up to a fixed length
    exhaustive(OPS, 3);
}

#[test]
fn exhaustive_buffering_calls() {
    // Longer combinations of just the text and binary calls, which are
    // the only ones that hold buffering state between calls
    exhaustive(&OPS[..BUFFERING_OPS], 5);
}

#[test]
fn abandoned_prefixes() {
    for prefix in 0..=OPS.len() {
        let mut buf = ValueBuf::new();

        for (name, apply) in &OPS[..prefix] {
            // The full sequence is valid, so every call must succeed
            Fault::Clean
                .apply(&mut buf, *apply)
                .unwrap_or_else(|_| panic!("{} failed", name));
        }

        exercise(buf, || {
            OPS[..prefix]
                .iter()
                .map(|(name, _)| *name)
                .collect::<Vec<_>>()
                .join(" -> ")
        });
    }
}

// A small deterministic generator, so the smoke test needs no outside crate
struct Rng(u64);

impl Rng {
    fn next(&mut self, bound: usize) -> usize {
        self.0 = self.0.wrapping_mul(6364136223846793005).wrapping_add(1442695040888963407);
        ((self.0 >> 33) as usize) % bound
    }
}

#[test]
fn scrambled() {
    // Quick smoke test: random calls, some of which fail before they reach
    // the buffer, must leave it usable
    let mut rng = Rng(0x5eed);

    for _ in 0..500 {
        let mut buf = ValueBuf::new();

        for _ in 0..rng.next(10) {
            let fault = Fault::ALL[rng.next(Fault::ALL.len())];
            let (_, op) = OPS[rng.next(OPS.len())];

            let _ = fault.apply(&mut buf, op);
        }

        // Attempt to use the buffer
        let _ = ValueBuf::collect(&buf.to_tokens());
    }
}
