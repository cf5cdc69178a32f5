//! The backing buffer of parts for a value.
use vstd::prelude::*;

use crate::error::{Error, ErrorKind};
use super::part::{owned_part, BinaryPart, Kind, Part, PartView, TextPart, TAG_BORROWED, TAG_OWNED};

verus! {

/// The maximum number of parts in a buffered value, which keeps every
/// container length representable as a `u32`.
pub const MAX_PARTS_LEN: usize = 4294967287;

pub open spec fn too_large() -> Error {
    Error(ErrorKind::InvalidValue { reason: "value exceeds the maximum buffer size" })
}

/// Whether any part borrows data for `'sval`.
pub open spec fn any_borrowed(ps: Seq<PartView>) -> bool {
    exists|i: int| 0 <= i < ps.len() && (#[trigger] ps[i]).is_borrowed()
}

/// Whether any part owns an allocation.
pub open spec fn any_owned(ps: Seq<PartView>) -> bool {
    exists|i: int| 0 <= i < ps.len() && (#[trigger] ps[i]).is_owned()
}

/// The parts with the container header at `len_at` given its body length,
/// and its number of entries where one is given. Any other part is left
/// as it is.
pub open spec fn patched(ps: Seq<PartView>, len_at: int, len: u32, num_entries: Option<u32>) -> Seq<PartView> {
    match ps[len_at] {
        PartView::Container { kind, len: _, num_entries: n, meta } => ps.update(
            len_at,
            PartView::Container {
                kind,
                len,
                num_entries: match num_entries {
                    Some(e) => e,
                    None => n,
                },
                meta,
            },
        ),
        _ => ps,
    }
}

pub proof fn lemma_push_flags(ps: Seq<PartView>, p: PartView)
    ensures
        any_borrowed(ps.push(p)) == (any_borrowed(ps) || p.is_borrowed()),
        any_owned(ps.push(p)) == (any_owned(ps) || p.is_owned()),
{
    let qs = ps.push(p);
    if any_borrowed(ps) {
        let i = choose|i: int| 0 <= i < ps.len() && (#[trigger] ps[i]).is_borrowed();
        assert(qs[i] == ps[i]);
    }
    if any_owned(ps) {
        let i = choose|i: int| 0 <= i < ps.len() && (#[trigger] ps[i]).is_owned();
        assert(qs[i] == ps[i]);
    }
    if p.is_borrowed() {
        assert(qs[ps.len() as int] == p);
    }
    if p.is_owned() {
        assert(qs[ps.len() as int] == p);
    }
    if any_borrowed(qs) {
        let i = choose|i: int| 0 <= i < qs.len() && (#[trigger] qs[i]).is_borrowed();
        if i < ps.len() {
            assert(ps[i] == qs[i]);
        }
    }
    if any_owned(qs) {
        let i = choose|i: int| 0 <= i < qs.len() && (#[trigger] qs[i]).is_owned();
        if i < ps.len() {
            assert(ps[i] == qs[i]);
        }
    }
}

/// Replacing a part by one that owns and borrows alike keeps the flags.
pub proof fn lemma_update_flags(ps: Seq<PartView>, i: int, p: PartView)
    requires
        0 <= i < ps.len(),
        p.is_borrowed() == ps[i].is_borrowed(),
        p.is_owned() == ps[i].is_owned(),
    ensures
        any_borrowed(ps.update(i, p)) == any_borrowed(ps),
        any_owned(ps.update(i, p)) == any_owned(ps),
{
    let qs = ps.update(i, p);
    if any_borrowed(ps) {
        let j = choose|j: int| 0 <= j < ps.len() && (#[trigger] ps[j]).is_borrowed();
        assert(qs[j].is_borrowed());
    }
    if any_owned(ps) {
        let j = choose|j: int| 0 <= j < ps.len() && (#[trigger] ps[j]).is_owned();
        assert(qs[j].is_owned());
    }
    if any_borrowed(qs) {
        let j = choose|j: int| 0 <= j < qs.len() && (#[trigger] qs[j]).is_borrowed();
        assert(ps[j].is_borrowed());
    }
    if any_owned(qs) {
        let j = choose|j: int| 0 <= j < qs.len() && (#[trigger] qs[j]).is_owned();
        assert(ps[j].is_owned());
    }
}

/// The backing buffer of parts for a value.
#[derive(Debug)]
pub struct Parts<'sval> {
    buf: Vec<Part<'sval>>,
    // Whether any part owns an allocation
    owned: bool,
    // Whether any part borrows text or binary data for `'sval`
    borrowed: bool,
}

impl<'sval> View for Parts<'sval> {
    type V = Seq<PartView>;

    closed spec fn view(&self) -> Seq<PartView> {
        Seq::new(self.buf@.len(), |i: int| self.buf@[i]@)
    }
}

impl<'sval> Parts<'sval> {
    /// The ownership flags agree with the parts, and the buffer is within
    /// its maximum size.
    pub closed spec fn wf(&self) -> bool {
        &&& self.owned == any_owned(self@)
        &&& self.borrowed == any_borrowed(self@)
        &&& self@.len() <= MAX_PARTS_LEN
    }

    pub fn new() -> (p: Self)
        ensures
            p.wf(),
            p@ == Seq::<PartView>::empty(),
    {
        let p = Parts { buf: Vec::new(), owned: false, borrowed: false };
        assert(p@ =~= Seq::<PartView>::empty());
        p
    }

    pub fn len(&self) -> (n: usize)
        ensures
            n == self@.len(),
    {
        self.buf.len()
    }

    /// Whether any part in the buffer borrows data for `'sval`.
    pub fn is_borrowed(&self) -> (b: bool)
        requires
            self.wf(),
        ensures
            b == any_borrowed(self@),
    {
        self.borrowed
    }

    /// Whether any part in the buffer owns an allocation.
    pub fn is_owned(&self) -> (b: bool)
        requires
            self.wf(),
        ensures
            b == any_owned(self@),
    {
        self.owned
    }

    /// The position the next encoded part will occupy.
    pub fn next_len_at(&self) -> (n: usize)
        ensures
            n == self@.len(),
    {
        self.buf.len()
    }

    /// How many parts the buffer can hold before it allocates again.
    pub fn capacity(&self) -> (n: usize)
        ensures
            n >= self@.len(),
    {
        vec_capacity(&self.buf)
    }

    pub fn get(&self, i: usize) -> (p: &Part<'sval>)
        requires
            i < self@.len(),
        ensures
            p@ == self@[i as int],
    {
        &self.buf[i]
    }

    /// Check there is room for `n` more parts.
    pub fn reserve(&self, n: usize) -> (r: Result<(), Error>)
        requires
            self.wf(),
        ensures
            r == (if self@.len() + n <= MAX_PARTS_LEN { Ok::<(), Error>(()) } else { Err(too_large()) }),
    {
        if MAX_PARTS_LEN - self.buf.len() < n {
            return Err(Error::invalid_value("value exceeds the maximum buffer size"));
        }
        Ok(())
    }

    /// Append a part, failing when the buffer is full.
    pub fn push(&mut self, part: Part<'sval>) -> (r: Result<(), Error>)
        requires
            old(self).wf(),
        ensures
            final(self).wf(),
            r == (if old(self)@.len() < MAX_PARTS_LEN { Ok::<(), Error>(()) } else { Err(too_large()) }),
            r is Ok ==> final(self)@ == old(self)@.push(part@),
            r is Err ==> final(self)@ == old(self)@,
    {
        self.reserve(1)?;
        let tag = part.kind().to_tag_byte(part.is_owned(), part.is_borrowed());
        let ghost p = part@;
        self.buf.push(part);
        proof {
            lemma_push_flags(old(self)@, p);
            assert(self@ =~= old(self)@.push(p));
        }
        self.update_ownership_tag(tag);
        Ok(())
    }

    fn update_ownership_tag(&mut self, tag: u8)
        ensures
            final(self).buf == old(self).buf,
            final(self).owned == (old(self).owned || tag & TAG_OWNED != 0),
            final(self).borrowed == (old(self).borrowed || tag & TAG_BORROWED != 0),
    {
        self.owned = self.owned || tag & TAG_OWNED != 0;
        self.borrowed = self.borrowed || tag & TAG_BORROWED != 0;
    }

    /// Record the body length of the container begun at `len_at`, and its
    /// number of entries if it counts them.
    pub fn patch_container_end(&mut self, len_at: usize, len: usize, num_entries: Option<u32>)
        requires
            old(self).wf(),
            len_at < old(self)@.len(),
            len <= u32::MAX,
        ensures
            final(self).wf(),
            final(self)@ == patched(old(self)@, len_at as int, len as u32, num_entries),
    {
        if !self.buf[len_at].kind().is_container() {
            return;
        }
        let mut part = Part::Scalar(crate::token::Scalar::Null);
        self.buf.set_and_swap(len_at, &mut part);
        let ghost old_part = part@;
        let part = match part {
            Part::Container(mut h) => {
                h.len = len as u32;
                if let Some(n) = num_entries {
                    h.num_entries = n;
                }
                Part::Container(h)
            },
            other => other,
        };
        let ghost new_part = part@;
        let mut part = part;
        self.buf.set_and_swap(len_at, &mut part);
        proof {
            assert(old_part == old(self)@[len_at as int]);
            lemma_update_flags(old(self)@, len_at as int, new_part);
            assert(self@ =~= patched(old(self)@, len_at as int, len as u32, num_entries));
        }
    }

    /// Append text to the inline text part at `len_at`.
    pub fn push_text(&mut self, len_at: usize, fragment: &str)
        requires
            old(self).wf(),
            len_at < old(self)@.len(),
            old(self)@[len_at as int] matches PartView::Text { borrowed, .. } && !borrowed,
        ensures
            final(self).wf(),
            final(self)@ == old(self)@.update(
                len_at as int,
                PartView::Text { borrowed: false, text: old(self)@[len_at as int]->text + fragment@ },
            ),
    {
        let mut part = Part::Scalar(crate::token::Scalar::Null);
        self.buf.set_and_swap(len_at, &mut part);
        let part = match part {
            Part::Text(TextPart::Inline(mut s)) => {
                s.append(fragment);
                Part::Text(TextPart::Inline(s))
            },
            other => other,
        };
        let ghost new_part = part@;
        let mut part = part;
        self.buf.set_and_swap(len_at, &mut part);
        proof {
            lemma_update_flags(old(self)@, len_at as int, new_part);
            assert(self@ =~= old(self)@.update(
                len_at as int,
                PartView::Text { borrowed: false, text: old(self)@[len_at as int]->text + fragment@ },
            ));
        }
    }

    /// Append bytes to the inline binary part at `len_at`.
    pub fn push_binary(&mut self, len_at: usize, fragment: &[u8])
        requires
            old(self).wf(),
            len_at < old(self)@.len(),
            old(self)@[len_at as int] matches PartView::Binary { borrowed, .. } && !borrowed,
        ensures
            final(self).wf(),
            final(self)@ == old(self)@.update(
                len_at as int,
                PartView::Binary { borrowed: false, bytes: old(self)@[len_at as int]->bytes + fragment@ },
            ),
    {
        let mut part = Part::Scalar(crate::token::Scalar::Null);
        self.buf.set_and_swap(len_at, &mut part);
        let part = match part {
            Part::Binary(BinaryPart::Inline(mut b)) => {
                let mut more = vstd::slice::slice_to_vec(fragment);
                b.append(&mut more);
                Part::Binary(BinaryPart::Inline(b))
            },
            other => other,
        };
        let ghost new_part = part@;
        let mut part = part;
        self.buf.set_and_swap(len_at, &mut part);
        proof {
            lemma_update_flags(old(self)@, len_at as int, new_part);
            assert(self@ =~= old(self)@.update(
                len_at as int,
                PartView::Binary { borrowed: false, bytes: old(self)@[len_at as int]->bytes + fragment@ },
            ));
        }
    }

    /// Remove all parts.
    pub fn clear(&mut self)
        ensures
            final(self).wf(),
            final(self)@ == Seq::<PartView>::empty(),
    {
        self.buf.clear();
        self.owned = false;
        self.borrowed = false;
        assert(self@ =~= Seq::<PartView>::empty());
    }

    /// An independent copy of the parts.
    pub fn duplicate(&self) -> (p: Parts<'sval>)
        requires
            self.wf(),
        ensures
            p.wf(),
            p@ == self@,
    {
        let mut buf: Vec<Part<'sval>> = Vec::with_capacity(self.buf.len());
        let mut i: usize = 0;
        while i < self.buf.len()
            invariant
                i <= self.buf@.len(),
                buf@.len() == i,
                forall|j: int| 0 <= j < i ==> (#[trigger] buf@[j])@ == self.buf@[j]@,
            decreases self.buf@.len() - i,
        {
            buf.push(self.buf[i].duplicate());
            i = i + 1;
        }
        let p = Parts { buf, owned: self.owned, borrowed: self.borrowed };
        assert(p@ =~= self@);
        p
    }

    /// The parts with any borrowed text or binary copied in.
    pub fn into_owned(self) -> (p: Parts<'static>)
        requires
            self.wf(),
        ensures
            p.wf(),
            p@ == owned_parts(self@),
    {
        let ghost orig = self@;
        let mut src = self.buf;
        let n = src.len();
        let mut buf: Vec<Part<'static>> = Vec::with_capacity(n);
        let mut i: usize = 0;
        while i < n
            invariant
                n == src@.len(),
                n == orig.len(),
                i <= n,
                buf@.len() == i,
                forall|j: int| i <= j < n ==> (#[trigger] src@[j])@ == orig[j],
                forall|j: int| 0 <= j < i ==> (#[trigger] buf@[j])@ == owned_part(orig[j]),
            decreases n - i,
        {
            let mut part = Part::Scalar(crate::token::Scalar::Null);
            src.set_and_swap(i, &mut part);
            buf.push(part.into_owned());
            i = i + 1;
        }
        let p = Parts { buf, owned: self.owned, borrowed: false };
        proof {
            assert(p@ =~= owned_parts(orig));
            lemma_owned_parts_flags(orig);
        }
        p
    }
}

/// The parts with any borrowed text or binary copied in.
pub open spec fn owned_parts(ps: Seq<PartView>) -> Seq<PartView> {
    Seq::new(ps.len(), |i: int| owned_part(ps[i]))
}

pub proof fn lemma_owned_parts_flags(ps: Seq<PartView>)
    ensures
        !any_borrowed(owned_parts(ps)),
        any_owned(owned_parts(ps)) == any_owned(ps),
{
    let qs = owned_parts(ps);
    if any_owned(ps) {
        let i = choose|i: int| 0 <= i < ps.len() && (#[trigger] ps[i]).is_owned();
        assert(qs[i].is_owned());
    }
    if any_owned(qs) {
        let i = choose|i: int| 0 <= i < qs.len() && (#[trigger] qs[i]).is_owned();
        assert(ps[i].is_owned());
    }
}

/// `Vec::capacity`: how many items the vector can hold without
/// reallocating. Its documentation promises that this is at least the
/// length; how much more is up to the allocator, and is left unsaid.
#[verifier::external_body]
fn vec_capacity<T>(v: &Vec<T>) -> (n: usize)
    ensures
        n >= v@.len(),
{
    v.capacity()
}

} // verus!
