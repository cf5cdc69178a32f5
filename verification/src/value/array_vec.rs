//! Fixed-capacity storage: a vector that refuses to grow past `N` items.
use vstd::prelude::*;

use crate::error::{Error, ErrorKind};

verus! {

pub open spec fn no_alloc_err(method: &'static str) -> Error {
    Error(ErrorKind::NoAlloc { method })
}

/// A vector that holds at most `N` items.
#[derive(Debug)]
pub struct ArrayVec<T, const N: usize> {
    buf: Vec<T>,
}

impl<T, const N: usize> View for ArrayVec<T, N> {
    type V = Seq<T>;

    closed spec fn view(&self) -> Seq<T> {
        self.buf@
    }
}

impl<T, const N: usize> ArrayVec<T, N> {
    #[verifier::type_invariant]
    closed spec fn within_capacity(&self) -> bool {
        self.buf@.len() <= N
    }
}

impl<T, const N: usize> Default for ArrayVec<T, N> {
    fn default() -> (v: Self)
        ensures
            v@ == Seq::<T>::empty(),
    {
        ArrayVec { buf: Vec::new() }
    }
}

impl<T, const N: usize> ArrayVec<T, N> {
    pub fn len(&self) -> (n: usize)
        ensures
            n == self@.len(),
    {
        self.buf.len()
    }

    pub fn capacity(&self) -> (n: usize)
        ensures
            n == N,
    {
        N
    }

    pub fn as_slice(&self) -> (s: &[T])
        ensures
            s@ == self@,
    {
        self.buf.as_slice()
    }

    /// Add an item at the end, failing when the vector is full.
    pub fn push(&mut self, value: T) -> (r: Result<(), Error>)
        ensures
            old(self)@.len() < N ==> r is Ok && final(self)@ == old(self)@.push(value),
            old(self)@.len() >= N ==> r == Err::<(), Error>(no_alloc_err("vec push")) && final(self)@ == old(self)@,
    {
        proof {
            use_type_invariant(&*self);
        }
        if self.buf.len() == N {
            return Err(Error::no_alloc("vec push"));
        }
        let mut buf = Vec::new();
        std::mem::swap(&mut buf, &mut self.buf);
        buf.push(value);
        self.buf = buf;
        Ok(())
    }

    /// Remove the last item.
    pub fn pop(&mut self) -> (r: Option<T>)
        ensures
            old(self)@.len() == 0 ==> r is None && final(self)@ == old(self)@,
            old(self)@.len() > 0 ==> r == Some(old(self)@.last()) && final(self)@ == old(self)@.drop_last(),
    {
        proof {
            use_type_invariant(&*self);
        }
        let mut buf = Vec::new();
        std::mem::swap(&mut buf, &mut self.buf);
        let r = buf.pop();
        self.buf = buf;
        r
    }

    /// Remove every item.
    pub fn clear(&mut self)
        ensures
            final(self)@ == Seq::<T>::empty(),
    {
        self.buf = Vec::new();
    }
}

impl<const N: usize> ArrayVec<u8, N> {
    /// Check that `n` more bytes fit.
    pub fn reserve(&self, n: usize) -> (r: Result<(), Error>)
        ensures
            r is Ok <==> self@.len() + n <= N,
            r is Err ==> r == Err::<(), Error>(no_alloc_err("value part")),
    {
        proof {
            use_type_invariant(self);
        }
        if n > N - self.buf.len() {
            Err(Error::no_alloc("value part"))
        } else {
            Ok(())
        }
    }

    /// Append bytes, failing without writing any when they don't all fit.
    pub fn extend_from_slice(&mut self, v: &[u8]) -> (r: Result<(), Error>)
        ensures
            old(self)@.len() + v@.len() <= N ==> r is Ok && final(self)@ == old(self)@ + v@,
            old(self)@.len() + v@.len() > N ==> r == Err::<(), Error>(no_alloc_err("value part")) && final(self)@ == old(self)@,
    {
        proof {
            use_type_invariant(&*self);
        }
        if v.len() > N - self.buf.len() {
            return Err(Error::no_alloc("value part"));
        }
        let mut buf = Vec::new();
        std::mem::swap(&mut buf, &mut self.buf);
        let mut i: usize = 0;
        while i < v.len()
            invariant
                i <= v@.len(),
                buf@ == old(self)@ + v@.subrange(0, i as int),
            decreases v@.len() - i,
        {
            buf.push(v[i]);
            assert(v@.subrange(0, i + 1) =~= v@.subrange(0, i as int).push(v@[i as int]));
            i = i + 1;
        }
        assert(v@.subrange(0, v@.len() as int) =~= v@);
        self.buf = buf;
        Ok(())
    }
}

} // verus!
