use sval_buffer::data::{Index, Label, Tag};
use sval_buffer::error::{Error, ErrorKind};
use sval_buffer::stream::flat_enum::{EnumStep, FlatStreamEnum, NestedVariant, Queue};
use sval_buffer::stream::{owned_label, owned_label_ref, Unsupported};
use sval_buffer::value::array_vec::ArrayVec;

fn reason(r: Result<(), Error>) -> &'static str {
    match r {
        Err(Error(ErrorKind::InvalidValue { reason })) => reason,
        other => panic!("unexpected {:?}", other),
    }
}

#[test]
fn push_pop() {
    let mut vec = ArrayVec::<_, 2>::default();

    assert!(vec.pop().is_none());

    assert!(vec.push(1).is_ok());
    assert!(vec.push(2).is_ok());
    assert!(vec.push(3).is_err());

    assert_eq!(2, vec.pop().unwrap());
    assert_eq!(1, vec.pop().unwrap());
    assert!(vec.pop().is_none());

    assert!(vec.push(1).is_ok());

    assert_eq!(1, vec.pop().unwrap());
    assert!(vec.pop().is_none());
}

#[test]
fn destructors() {
    let mut vec = ArrayVec::<_, 5>::default();

    let a = std::rc::Rc::new(1);
    let b = std::rc::Rc::new(2);

    vec.push(a.clone()).unwrap();
    vec.push(b.clone()).unwrap();

    assert_eq!(2, std::rc::Rc::strong_count(&a));
    assert_eq!(2, std::rc::Rc::strong_count(&b));

    drop(vec);

    assert_eq!(1, std::rc::Rc::strong_count(&a));
    assert_eq!(1, std::rc::Rc::strong_count(&b));
}

#[test]
fn array_vec_full_error() {
    let mut vec = ArrayVec::<u8, 4>::default();

    assert!(matches!(
        vec.extend_from_slice(&[1, 2, 3, 4, 5]),
        Err(Error(ErrorKind::NoAlloc { method: "value part" }))
    ));
    assert_eq!(0, vec.len());

    vec.extend_from_slice(&[1, 2, 3]).unwrap();
    assert_eq!(&[1, 2, 3], vec.as_slice());
    assert!(vec.reserve(1).is_ok());
    assert!(vec.reserve(2).is_err());
    assert_eq!(4, vec.capacity());

    vec.push(4).unwrap();
    let err = vec.push(5).unwrap_err();
    assert!(matches!(err, Error(ErrorKind::NoAlloc { method: "vec push" })));
    assert_eq!("cannot allocate for vec push", err.message());

    vec.clear();
    assert_eq!(0, vec.len());
}

#[test]
fn owned_labels_copy_borrowed_text() {
    let short_lived = String::from("field");
    let owned = owned_label_ref(&Label::borrowed(&short_lived)).unwrap();
    drop(short_lived);
    assert_eq!("field", owned.as_str());
    assert_eq!(None, owned.as_static_str());

    let owned = owned_label(Label::new("static").with_tag(Tag::new("t"))).unwrap();
    assert_eq!(Some("static"), owned.as_static_str());
    assert_eq!("t", owned.tag.unwrap().data);
}

#[test]
fn unsupported_refuses_everything() {
    let s = || Unsupported::<()>::default();

    assert_eq!("null is unsupported", reason(s().null()));
    assert_eq!("booleans are unsupported", reason(s().bool(true)));
    assert_eq!("numbers are unsupported", reason(s().i64(1)));
    assert_eq!("numbers are unsupported", reason(s().f64_bits(1.5f64.to_bits())));
    assert_eq!("text is unsupported", reason(s().text_computed("abc")));
    assert_eq!("tags are unsupported", reason(s().tag(None, None, None)));
    assert_eq!("tagged values are unsupported", reason(s().tagged_computed(None, None, None)));
    assert_eq!("sequences are unsupported", reason(s().seq_begin(None).map(|_| ())));
    assert_eq!("maps are unsupported", reason(s().map_begin(None).map(|_| ())));
    assert_eq!("records are unsupported", reason(s().tuple_begin(None, None, None, None).map(|_| ())));
    assert_eq!("records are unsupported", reason(s().record_begin(None, None, None, None).map(|_| ())));
    assert_eq!("enums are unsupported", reason(s().enum_begin(None, None, None).map(|_| ())));
    assert_eq!("sequences are unsupported", reason(s().seq_value_computed()));
    assert_eq!("sequences are unsupported", reason(s().seq_end()));
    assert_eq!("maps are unsupported", reason(s().key_computed()));
    assert_eq!("maps are unsupported", reason(s().map_value_computed()));
    assert_eq!("maps are unsupported", reason(s().map_end()));
    assert_eq!("tuples are unsupported", reason(s().tuple_value_computed(None, Index::new(0))));
    assert_eq!("tuples are unsupported", reason(s().tuple_end()));
    assert_eq!(
        "records are unsupported",
        reason(s().record_value_computed(None, &Label::new("a")))
    );
    assert_eq!("records are unsupported", reason(s().record_end()));
    assert_eq!("enums are unsupported", reason(s().enum_tag(None, None, None)));
    assert_eq!("enums are unsupported", reason(s().enum_tagged_computed(None, None, None)));
    assert_eq!("enums are unsupported", reason(s().enum_tuple_begin(None, None, None, None).map(|_| ())));
    assert_eq!("enums are unsupported", reason(s().enum_record_begin(None, None, None, None).map(|_| ())));
    assert_eq!("enums are unsupported", reason(s().nested(None, None, None)));
    assert_eq!("enums are unsupported", reason(s().enum_end()));
}

#[test]
fn queue_is_first_in_first_out() {
    let mut queue = Queue::new();
    assert!(queue.pop_front().is_none());

    for i in 0..3 {
        queue
            .push_back(NestedVariant {
                tag: None,
                label: None,
                index: Some(Index::new(i)),
            })
            .unwrap();
    }

    for i in 0..3 {
        assert_eq!(i, queue.pop_front().unwrap().index.unwrap().value);
    }
    assert!(queue.pop_front().is_none());
}

#[test]
fn flat_enum_without_nested_variants_streams_the_value() {
    let stream = FlatStreamEnum::new("target");

    match stream.end() {
        EnumStep::Value(s) => assert_eq!("target", s),
        EnumStep::Nested(..) => panic!("nothing was nested"),
    }
}

#[test]
fn flat_enum_unwinds_nested_variants_outermost_first() {
    let short_lived = String::from("Inner");

    let mut stream = FlatStreamEnum::new(0u32);
    stream
        .push(Some(Tag::new("outer")), Some(&Label::new("Outer")), Some(Index::new(0)))
        .unwrap();
    stream
        .push(None, Some(&Label::borrowed(&short_lived)), Some(Index::new(1)))
        .unwrap();
    drop(short_lived);

    // The outermost variant is begun first, on the stream itself
    let (rest, variant) = match stream.value_or_recurse() {
        EnumStep::Nested(s, variant, rest) => {
            assert_eq!(0, s);
            (rest, variant)
        }
        EnumStep::Value(_) => panic!("a variant was waiting"),
    };
    assert_eq!("Outer", variant.label.unwrap().as_str());
    assert_eq!("outer", variant.tag.unwrap().data);

    // The rest wait on the stream handed out for that variant
    let inner = FlatStreamEnum::resume(1u32, rest);
    let rest = match inner.value_or_recurse() {
        EnumStep::Nested(s, variant, rest) => {
            assert_eq!(1, s);
            assert_eq!("Inner", variant.label.unwrap().as_str());
            assert_eq!(1, variant.index.unwrap().value);
            rest
        }
        EnumStep::Value(_) => panic!("a variant was waiting"),
    };

    // Once none wait, the value goes to the innermost stream
    match FlatStreamEnum::resume(2u32, rest).end() {
        EnumStep::Value(s) => assert_eq!(2, s),
        EnumStep::Nested(..) => panic!("nothing more was nested"),
    }
}

#[test]
fn flat_enum_refuses_unwrapped_values() {
    const REASON: &str = "enum variants must be wrapped in a tag-carrying value";

    assert_eq!(REASON, reason(FlatStreamEnum::new(()).null::<()>()));
    assert_eq!(REASON, reason(FlatStreamEnum::new(()).bool::<()>(true)));
    assert_eq!(REASON, reason(FlatStreamEnum::new(()).i64::<()>(1)));
    assert_eq!(REASON, reason(FlatStreamEnum::new(()).f64_bits::<()>(0)));
    assert_eq!(REASON, reason(FlatStreamEnum::new(()).text_computed::<()>("abc")));

    let map = FlatStreamEnum::new(()).map_begin::<()>(None).unwrap();
    assert_eq!("maps are unsupported", reason(map.map_end()));
    let nested = FlatStreamEnum::new(()).enum_begin::<()>(None, None, None).unwrap();
    assert_eq!("enums are unsupported", reason(nested.enum_end()));
}

#[test]
fn error_messages() {
    assert_eq!(
        "unexpected null, expected text",
        Error::unsupported("text", "null").message()
    );
    assert_eq!(
        "expected a fragment while buffering binary",
        Error::outside_container("binary").message()
    );
    assert_eq!(
        "the value being buffered is invalid: oops",
        Error::invalid_value("oops").message()
    );
    assert_eq!("cannot allocate for value part", Error::no_alloc("value part").message());
}
