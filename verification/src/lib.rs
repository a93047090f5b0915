//! A growable, contiguous sequence container.
//!
//! A `vector<T>` owns a buffer of `cap` slots, of which the first `len` hold
//! live elements in append order. Capacity grows on demand by amortized
//! doubling; the live prefix is exposed through bounds-checked reads and
//! writes, and the reserved tail is never visible.

#![allow(non_camel_case_types)]

use vstd::prelude::*;

verus! {

/// A growable sequence container: a backing buffer of `cap` slots, of which
/// the first `len` hold live elements. A slot beyond `len` is reserved: it
/// holds no element and is never exposed through the read interface.
pub struct vector<T> {
    buf: Vec<Option<T>>,
    len: usize,
}

/// The capacity after making room for one more element, given `len` live
/// elements in `cap` slots: unchanged while a free slot remains, otherwise a
/// bump from zero to one, or a doubling.
pub open spec fn grown_cap(len: nat, cap: nat) -> nat {
    if len < cap {
        cap
    } else if cap == 0 {
        1
    } else {
        2 * cap
    }
}

impl<T> View for vector<T> {
    type V = Seq<T>;

    /// The live elements, in append order.
    closed spec fn view(&self) -> Seq<T> {
        Seq::new(self.len as nat, |i: int| self.buf@[i].unwrap())
    }
}

impl<T> vector<T> {
    /// Number of reserved slots.
    pub closed spec fn spec_cap(&self) -> nat {
        self.buf@.len()
    }

    /// Well-formedness: no more live elements than slots, every slot of the
    /// live prefix holds an element, and every reserved slot holds none.
    pub closed spec fn wf(&self) -> bool {
        &&& self.len <= self.buf@.len()
        &&& forall|i: int| 0 <= i < self.len ==> self.buf@[i] is Some
        &&& forall|i: int| self.len <= i < self.buf@.len() ==> self.buf@[i] is None
    }

    /// Number of live elements.
    pub fn len(&self) -> (n: usize)
        ensures
            n == self@.len(),
    {
        self.len
    }

    /// Number of reserved slots; at least the number of live elements.
    pub fn cap(&self) -> (n: usize)
        requires
            self.wf(),
        ensures
            n == self.spec_cap(),
            self@.len() <= n,
    {
        self.buf.len()
    }

    /// Whether the container holds no live element.
    pub fn empty(&self) -> (b: bool)
        ensures
            b <==> self@.len() == 0,
    {
        self.len == 0
    }

    /// An empty container with no slots reserved yet.
    pub fn new() -> (v: Self)
        ensures
            v.wf(),
            v@ == Seq::<T>::empty(),
            v.spec_cap() == 0,
    {
        Self::with_capacity(0)
    }

    /// An empty container with exactly `cap` slots reserved up front.
    pub fn with_capacity(cap: usize) -> (v: Self)
        ensures
            v.wf(),
            v@ == Seq::<T>::empty(),
            v.spec_cap() == cap,
    {
        let v = Self { buf: Self::new_buf(cap), len: 0 };
        proof {
            assert(v@ =~= Seq::<T>::empty());
        }
        v
    }

    /// Appends `value` after the last live element, growing the buffer first
    /// when every slot is taken. The caller's binding is consumed; everything
    /// already stored stays in place and in order.
    pub fn push(&mut self, value: T)
        requires
            old(self).wf(),
            old(self)@.len() == old(self).spec_cap() ==> 2 * old(self).spec_cap() <= usize::MAX,
        ensures
            final(self).wf(),
            final(self)@ == old(self)@.push(value),
            final(self).spec_cap() == grown_cap(old(self)@.len(), old(self).spec_cap()),
            final(self).spec_cap() >= old(self).spec_cap(),
            final(self)@.len() <= final(self).spec_cap(),
    {
        self.grow();
        let at = self.len;
        self.buf[at] = Some(value);
        proof {
            assert(at < self.buf.len());
        }
        self.len = at + 1;
        proof {
            assert(self@ =~= old(self)@.push(value));
        }
    }

    /// Removes the last live element and hands its ownership to the caller;
    /// the vacated slot becomes reserved again. On an empty container this is
    /// a normal no-op that returns `None`, never a fault.
    pub fn pop(&mut self) -> (r: Option<T>)
        requires
            old(self).wf(),
        ensures
            final(self).wf(),
            final(self).spec_cap() == old(self).spec_cap(),
            old(self)@.len() == 0 ==> r is None && final(self)@ == old(self)@,
            old(self)@.len() > 0 ==> r == Some(old(self)@.last()) && final(self)@ == old(self)@.drop_last(),
    {
        if self.len == 0 {
            None
        } else {
            let at = self.len - 1;
            let r = self.buf[at].take();
            self.len = at;
            proof {
                assert(self@ =~= old(self)@.drop_last());
            }
            r
        }
    }

    /// Reads the live element at position `i`; positions at or past `len` are
    /// outside the view and rejected by the bound on `i`.
    pub fn get(&self, i: usize) -> (r: &T)
        requires
            self.wf(),
            i < self@.len(),
        ensures
            *r == self@[i as int],
    {
        self.buf[i].as_ref().unwrap()
    }

    /// Overwrites the live element at position `i` with `value`, dropping the
    /// element stored there before; no other position changes.
    pub fn set(&mut self, i: usize, value: T)
        requires
            old(self).wf(),
            i < old(self)@.len(),
        ensures
            final(self).wf(),
            final(self)@ == old(self)@.update(i as int, value),
            final(self).spec_cap() == old(self).spec_cap(),
    {
        self.buf[i] = Some(value);
        proof {
            assert(self@ =~= old(self)@.update(i as int, value));
        }
    }

    /// Relinquishes the backing buffer to the caller, who takes over its
    /// teardown: the live prefix in order, then the reserved slots, each
    /// holding no element. The container itself is consumed.
    pub fn into_raw(self) -> (buf: Vec<Option<T>>)
        requires
            self.wf(),
        ensures
            buf@.len() == self.spec_cap(),
            forall|i: int| 0 <= i < self@.len() ==> buf@[i] == Some(self@[i]),
            forall|i: int| self@.len() <= i < buf@.len() ==> buf@[i] is None,
    {
        self.buf
    }

    /// Ensures one free slot remains: a no-op while `len < cap`, otherwise a
    /// reallocation to `grown_cap` slots that keeps the stored elements.
    fn grow(&mut self)
        requires
            old(self).wf(),
            old(self)@.len() == old(self).spec_cap() ==> 2 * old(self).spec_cap() <= usize::MAX,
        ensures
            final(self).wf(),
            final(self)@ == old(self)@,
            final(self).spec_cap() == grown_cap(old(self)@.len(), old(self).spec_cap()),
            final(self)@.len() < final(self).spec_cap(),
    {
        if self.len != self.buf.len() {
            return;
        }

        let new_cap: usize = if self.buf.len() == 0 {
            1
        } else {
            self.buf.len() * 2
        };

        while self.buf.len() < new_cap
            invariant
                old(self).wf(),
                self.len == old(self).len,
                self.len == old(self).buf@.len(),
                old(self).buf@.len() <= self.buf@.len() <= new_cap,
                new_cap == grown_cap(old(self)@.len(), old(self).spec_cap()),
                forall|i: int| 0 <= i < old(self).buf@.len() ==> self.buf@[i] == old(self).buf@[i],
                forall|i: int| old(self).buf@.len() <= i < self.buf@.len() ==> self.buf@[i] is None,
            decreases new_cap - self.buf@.len(),
        {
            self.buf.push(None);
        }
        proof {
            assert(self@ =~= old(self)@);
        }
    }

    /// A buffer of `n` reserved slots, none of them holding an element.
    fn new_buf(n: usize) -> (buf: Vec<Option<T>>)
        ensures
            buf@.len() == n,
            forall|i: int| 0 <= i < n ==> buf@[i] is None,
    {
        let mut buf: Vec<Option<T>> = Vec::new();
        while buf.len() < n
            invariant
                buf@.len() <= n,
                forall|i: int| 0 <= i < buf@.len() ==> buf@[i] is None,
            decreases n - buf@.len(),
        {
            buf.push(None);
        }
        buf
    }
}

impl<T: Copy> vector<T> {
    /// Copies the live elements of positions `[from, to)` out, in order: a
    /// bounds-checked sub-range of the view. Positions at or past `len` are
    /// rejected by the bounds on `from` and `to`.
    pub fn sub_range(&self, from: usize, to: usize) -> (r: Vec<T>)
        requires
            self.wf(),
            from <= to <= self@.len(),
        ensures
            r@ == self@.subrange(from as int, to as int),
    {
        let mut r: Vec<T> = Vec::new();
        let mut at = from;
        while at < to
            invariant
                self.wf(),
                from <= at <= to <= self@.len(),
                r@ =~= self@.subrange(from as int, at as int),
            decreases to - at,
        {
            r.push(*self.get(at));
            at = at + 1;
        }
        proof {
            assert(r@ =~= self@.subrange(from as int, to as int));
        }
        r
    }
}

/// The growth policy never shrinks a capacity: making room keeps it as it is,
/// bumps it from zero to one, or doubles it.
pub proof fn lemma_cap_never_shrinks(len: nat, cap: nat)
    ensures
        grown_cap(len, cap) >= cap,
        grown_cap(len, cap) == cap || grown_cap(len, cap) == 2 * cap || (cap == 0
            && grown_cap(len, cap) == 1),
{
}

/// Removing the last element right after appending `x` yields `x` back and
/// restores the sequence, and with it the length, that held before the append.
pub proof fn lemma_push_then_pop<T>(s: Seq<T>, x: T)
    ensures
        s.push(x).len() == s.len() + 1,
        s.push(x).last() == x,
        s.push(x).drop_last() == s,
{
    assert(s.push(x).drop_last() =~= s);
}

/// A write through position `i` is visible to a subsequent read of `i`, and
/// every other position keeps the value it had.
pub proof fn lemma_write_then_read<T>(s: Seq<T>, i: int, x: T)
    requires
        0 <= i < s.len(),
    ensures
        s.update(i, x)[i] == x,
        s.update(i, x).len() == s.len(),
        forall|j: int| 0 <= j < s.len() && j != i ==> s.update(i, x)[j] == s[j],
{
}

} // verus!
