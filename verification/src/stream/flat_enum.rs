//! Flattening the variants of an enum.
//!
//! An enum's variant may itself be an enum, and so on; an enum stream is
//! told of each such nested variant before the value they wrap arrives.
//! The variants wait in a queue, and when the value comes, the stream
//! begins them one by one, outermost first, before the value goes to the
//! innermost stream.
use vstd::prelude::*;

use std::collections::VecDeque;

use crate::data::{Index, Label, LabelView, Tag};
use crate::error::{Error, ErrorKind};
use crate::value::buf::label_view;
use super::{owned_label_ref, Unsupported};

verus! {

/// An enum variant that wraps the value still to come.
#[derive(Debug)]
pub struct NestedVariant {
    pub tag: Option<Tag>,
    pub label: Option<Label<'static>>,
    pub index: Option<Index>,
}

pub struct NestedVariantView {
    pub tag: Option<Tag>,
    pub label: Option<LabelView>,
    pub index: Option<Index>,
}

impl View for NestedVariant {
    type V = NestedVariantView;

    open spec fn view(&self) -> NestedVariantView {
        NestedVariantView {
            tag: self.tag,
            label: match &self.label {
                Some(l) => Some(l@),
                None => None,
            },
            index: self.index,
        }
    }
}

/// The nested variants an enum stream has been told of, outermost first.
#[derive(Debug)]
pub struct Queue {
    inner: VecDeque<NestedVariant>,
}

impl View for Queue {
    type V = Seq<NestedVariantView>;

    closed spec fn view(&self) -> Seq<NestedVariantView> {
        self.inner@.map_values(|v: NestedVariant| v@)
    }
}

impl Queue {
    pub fn new() -> (q: Self)
        ensures
            q@ == Seq::<NestedVariantView>::empty(),
    {
        let q = Queue { inner: VecDeque::new() };
        assert(q@ =~= Seq::<NestedVariantView>::empty());
        q
    }

    /// Add a variant after the ones already waiting.
    pub fn push_back(&mut self, variant: NestedVariant) -> (r: Result<(), Error>)
        ensures
            r is Ok,
            final(self)@ == old(self)@.push(variant@),
    {
        let ghost v = variant@;
        self.inner.push_back(variant);
        assert(self@ =~= old(self)@.push(v));
        Ok(())
    }

    /// Take the outermost waiting variant.
    pub fn pop_front(&mut self) -> (r: Option<NestedVariant>)
        ensures
            match r {
                Some(v) => {
                    &&& old(self)@.len() > 0
                    &&& v@ == old(self)@[0]
                    &&& final(self)@ == old(self)@.drop_first()
                },
                None => {
                    &&& old(self)@.len() == 0
                    &&& final(self)@ == old(self)@
                },
            },
    {
        let r = self.inner.pop_front();
        assert(self@ =~= match r {
            Some(_) => old(self)@.drop_first(),
            None => old(self)@,
        });
        r
    }
}

/// The error for a value that goes straight to an enum without a variant
/// around it.
pub open spec fn unwrapped_variant() -> Error {
    Error(ErrorKind::InvalidValue { reason: "enum variants must be wrapped in a tag-carrying value" })
}

/// What an enum stream does with the value it is given.
pub enum EnumStep<S> {
    /// No nested variant is waiting: the value goes to the stream itself.
    Value(S),
    /// The outermost waiting variant wraps the value: the stream begins it,
    /// and the variants after it wait on the stream it hands out for it.
    Nested(S, NestedVariant, Queue),
}

/// An enum stream with the nested variants it has been told of.
pub struct FlatStreamEnum<S> {
    stream: S,
    queue: Queue,
}

impl<S> FlatStreamEnum<S> {
    /// The stream the variants and the value go to.
    pub closed spec fn target(&self) -> S {
        self.stream
    }

    /// The waiting variants, outermost first.
    pub closed spec fn waiting(&self) -> Seq<NestedVariantView> {
        self.queue@
    }

    pub fn new(stream: S) -> (r: Self)
        ensures
            r.target() == stream,
            r.waiting() == Seq::<NestedVariantView>::empty(),
    {
        FlatStreamEnum { stream, queue: Queue::new() }
    }

    /// Carry on with the variants that still wait, on the stream handed
    /// out for the variant that was begun.
    pub fn resume(stream: S, rest: Queue) -> (r: Self)
        ensures
            r.target() == stream,
            r.waiting() == rest@,
    {
        FlatStreamEnum { stream, queue: rest }
    }

    /// Record a nested variant, with its label made owned.
    pub fn push(&mut self, tag: Option<Tag>, label: Option<&Label>, index: Option<Index>) -> (r: Result<(), Error>)
        ensures
            r is Ok,
            final(self).target() == old(self).target(),
            final(self).waiting() == old(self).waiting().push(NestedVariantView { tag, label: label_view(label), index }),
    {
        let label = match label {
            Some(label) => match owned_label_ref(label) {
                Ok(l) => Some(l),
                Err(e) => {
                    return Err(e);
                },
            },
            None => None,
        };
        self.queue.push_back(NestedVariant { tag, label, index })
    }

    /// Where the value goes: to the stream itself, or into the outermost
    /// waiting variant.
    pub fn value_or_recurse(self) -> (r: EnumStep<S>)
        ensures
            match r {
                EnumStep::Value(s) => {
                    &&& self.waiting().len() == 0
                    &&& s == self.target()
                },
                EnumStep::Nested(s, v, rest) => {
                    &&& self.waiting().len() > 0
                    &&& s == self.target()
                    &&& v@ == self.waiting()[0]
                    &&& rest@ == self.waiting().drop_first()
                },
            },
    {
        let FlatStreamEnum { stream, mut queue } = self;
        match queue.pop_front() {
            Some(variant) => EnumStep::Nested(stream, variant, queue),
            None => EnumStep::Value(stream),
        }
    }

    /// End the enum: the end goes to the innermost stream, after any
    /// waiting variants are begun.
    pub fn end(self) -> (r: EnumStep<S>)
        ensures
            match r {
                EnumStep::Value(s) => {
                    &&& self.waiting().len() == 0
                    &&& s == self.target()
                },
                EnumStep::Nested(s, v, rest) => {
                    &&& self.waiting().len() > 0
                    &&& s == self.target()
                    &&& v@ == self.waiting()[0]
                    &&& rest@ == self.waiting().drop_first()
                },
            },
    {
        self.value_or_recurse()
    }

    pub fn null<T>(self) -> (r: Result<T, Error>)
        ensures
            r == Err::<T, Error>(unwrapped_variant()),
    {
        Err(Error::invalid_value("enum variants must be wrapped in a tag-carrying value"))
    }

    pub fn bool<T>(self, value: bool) -> (r: Result<T, Error>)
        ensures
            r == Err::<T, Error>(unwrapped_variant()),
    {
        Err(Error::invalid_value("enum variants must be wrapped in a tag-carrying value"))
    }

    pub fn i64<T>(self, value: i64) -> (r: Result<T, Error>)
        ensures
            r == Err::<T, Error>(unwrapped_variant()),
    {
        Err(Error::invalid_value("enum variants must be wrapped in a tag-carrying value"))
    }

    /// A 64-bit floating point number, given by its bits.
    pub fn f64_bits<T>(self, value: u64) -> (r: Result<T, Error>)
        ensures
            r == Err::<T, Error>(unwrapped_variant()),
    {
        Err(Error::invalid_value("enum variants must be wrapped in a tag-carrying value"))
    }

    pub fn text_computed<T>(self, text: &str) -> (r: Result<T, Error>)
        ensures
            r == Err::<T, Error>(unwrapped_variant()),
    {
        Err(Error::invalid_value("enum variants must be wrapped in a tag-carrying value"))
    }

    /// Maps inside an enum are refused by the stream handed out for them.
    pub fn map_begin<T>(self, num_entries: Option<usize>) -> (r: Result<Unsupported<T>, Error>)
        ensures
            r is Ok,
    {
        Ok(Unsupported::default())
    }

    /// Enums directly inside an enum are refused by the stream handed out for them.
    pub fn enum_begin<T>(self, tag: Option<Tag>, label: Option<&Label>, index: Option<Index>) -> (r: Result<Unsupported<T>, Error>)
        ensures
            r is Ok,
    {
        Ok(Unsupported::default())
    }
}

} // verus!
