//! Frames for open containers, used to patch their headers when they end.
use vstd::prelude::*;

use crate::data::ContainerKind;

verus! {

/// The record kept for an open container.
#[derive(Debug, Clone, Copy)]
pub struct Frame {
    /// The position of the container's header.
    pub len_at: u32,
    /// The number of direct entries seen so far.
    pub entries: u32,
    /// Whether the header tracks its number of entries.
    pub entry_tracking: bool,
}

impl Frame {
    pub open spec fn spec_new(kind: ContainerKind, len_at: int) -> Frame {
        Frame { len_at: len_at as u32, entries: 0, entry_tracking: kind.is_entry_tracking() }
    }

    pub open spec fn spec_num_entries(self) -> Option<u32> {
        if self.entry_tracking {
            Some(self.entries)
        } else {
            None
        }
    }

    pub open spec fn counted(self) -> Frame {
        Frame { entries: (self.entries + 1) as u32, ..self }
    }

    pub fn new(kind: ContainerKind, len_at: usize) -> (f: Frame)
        requires
            len_at <= u32::MAX,
        ensures
            f == Frame::spec_new(kind, len_at as int),
    {
        Frame { len_at: len_at as u32, entries: 0, entry_tracking: kind.entry_tracking() }
    }

    pub fn len_at(self) -> (n: usize)
        ensures
            n == self.len_at,
    {
        self.len_at as usize
    }

    pub fn num_entries(self) -> (n: Option<u32>)
        ensures
            n == self.spec_num_entries(),
    {
        if self.entry_tracking {
            Some(self.entries)
        } else {
            None
        }
    }

    pub fn count_entry(&mut self)
        requires
            old(self).entries < u32::MAX,
        ensures
            *final(self) == old(self).counted(),
    {
        self.entries = self.entries + 1;
    }
}

/// The stack of frames for open containers.
#[derive(Debug)]
pub struct BufMut {
    inner: Vec<Frame>,
}

impl View for BufMut {
    type V = Seq<Frame>;

    closed spec fn view(&self) -> Seq<Frame> {
        self.inner@
    }
}

impl BufMut {
    pub fn new() -> (b: BufMut)
        ensures
            b@ == Seq::<Frame>::empty(),
    {
        BufMut { inner: Vec::new() }
    }

    pub fn len(&self) -> (n: usize)
        ensures
            n == self@.len(),
    {
        self.inner.len()
    }

    pub fn push(&mut self, frame: Frame)
        ensures
            final(self)@ == old(self)@.push(frame),
    {
        self.inner.push(frame);
    }

    pub fn pop(&mut self) -> (f: Option<Frame>)
        ensures
            old(self)@.len() == 0 ==> f is None && final(self)@ == old(self)@,
            old(self)@.len() > 0 ==> f == Some(old(self)@.last()) && final(self)@ == old(self)@.drop_last(),
    {
        self.inner.pop()
    }

    pub fn clear(&mut self)
        ensures
            final(self)@ == Seq::<Frame>::empty(),
    {
        self.inner.clear();
    }

    /// Count an entry in the frame at `i`.
    pub fn count_entry(&mut self, i: usize)
        requires
            i < old(self)@.len(),
            old(self)@[i as int].entries < u32::MAX,
        ensures
            final(self)@ == old(self)@.update(i as int, old(self)@[i as int].counted()),
    {
        let mut f = self.inner[i];
        f.count_entry();
        self.inner.set(i, f);
    }
}

} // verus!
