//! A fixed-capacity arena of `N` slots, filled from the front and emptied all at once.
use vstd::prelude::*;
use vstd::slice::slice_subrange;

verus! {

/// `&mut v[start..end]`: the slots of a vector in a range, lent out for writing; what is
/// written through the slice ends up in the vector, and the other slots stay as they were.
#[verifier::external_body]
fn vec_range_mut<'b, T>(v: &'b mut Vec<T>, start: usize, end: usize) -> (r: &'b mut [T])
    requires
        start <= end <= old(v)@.len(),
    ensures
        r@ == old(v)@.subrange(start as int, end as int),
        final(r)@.len() == end - start,
        final(v)@ == old(v)@.subrange(0, start as int) + final(r)@ + old(v)@.subrange(end as int, old(v)@.len() as int),
{
    &mut v[start..end]
}

/// `N` slots, of which the first `len` are in use.
pub struct Arena<T, const N: usize> {
    inner: Vec<T>,
    idx: usize,
}

impl<T, const N: usize> Arena<T, N> {
    /// There are `N` slots, and no more of them are in use.
    pub open spec fn wf(self) -> bool {
        self.slots().len() == N && self.used() <= N
    }

    /// The content of every slot, in use or not.
    pub closed spec fn slots(self) -> Seq<T> {
        self.inner@
    }

    /// The number of slots in use.
    pub closed spec fn used(self) -> nat {
        self.idx as nat
    }

    /// An arena whose `N` slots all hold `fill`, none of them in use.
    pub fn init(fill: T) -> (r: Self)
        where T: Copy,
        ensures
            r.slots() == Seq::new(N as nat, |i: int| fill),
            r.used() == 0,
            r.wf(),
    {
        let mut inner: Vec<T> = Vec::new();
        let mut k: usize = 0;
        while k < N
            invariant
                k <= N,
                inner@ == Seq::new(k as nat, |i: int| fill),
            decreases N - k,
        {
            inner.push(fill);
            k = k + 1;
            assert(inner@ =~= Seq::new(k as nat, |i: int| fill));
        }
        Arena { inner, idx: 0 }
    }

    /// Marks every slot as unused; their contents stay.
    pub fn clear(&mut self)
        requires
            old(self).wf(),
        ensures
            final(self).wf(),
            final(self).slots() == old(self).slots(),
            final(self).used() == 0,
    {
        self.idx = 0;
    }

    /// Takes the next `size` slots into use and lends them out for writing.
    pub fn get_memory(&mut self, size: usize) -> (out: &mut [T])
        requires
            old(self).wf(),
            old(self).used() + size <= N,
        ensures
            final(self).wf(),
            out@ == old(self).slots().subrange(old(self).used() as int, old(self).used() + size),
            final(self).used() == old(self).used() + size,
            final(self).slots() == old(self).slots().subrange(0, old(self).used() as int) + final(out)@
                + old(self).slots().subrange(old(self).used() + size, N as int),
    {
        let start = self.idx;
        self.idx = start + size;
        vec_range_mut(&mut self.inner, start, start + size)
    }

    /// Puts `val` into the next slot.
    pub fn push(&mut self, val: T)
        requires
            old(self).wf(),
            old(self).used() < N,
        ensures
            final(self).wf(),
            final(self).slots() == old(self).slots().update(old(self).used() as int, val),
            final(self).used() == old(self).used() + 1,
    {
        let i = self.idx;
        self.inner.set(i, val);
        self.idx = i + 1;
    }

    /// The number of slots in use.
    pub fn len(&self) -> (r: usize)
        ensures
            r == self.used(),
    {
        self.idx
    }

    /// The last slot in use, if any.
    pub fn get_top(&self) -> (r: Option<&T>)
        requires
            self.wf(),
        ensures
            r == (if self.used() == 0 { None } else { Some(&self.slots()[self.used() - 1]) }),
    {
        if self.idx == 0 {
            return None;
        }
        Some(&self.inner[self.idx - 1])
    }

    /// The slots in use, in order.
    pub fn get_all(&self) -> (r: &[T])
        requires
            self.wf(),
        ensures
            r@ == self.slots().subrange(0, self.used() as int),
    {
        slice_subrange(self.inner.as_slice(), 0, self.idx)
    }
}

/// Pushing a value makes it the top, and one more slot is in use.
pub proof fn lemma_push_then_top<T, const N: usize>(before: Arena<T, N>, after: Arena<T, N>, val: T)
    requires
        before.wf(),
        before.used() < N,
        after.slots() == before.slots().update(before.used() as int, val),
        after.used() == before.used() + 1,
    ensures
        after.slots()[after.used() - 1] == val,
        after.slots().subrange(0, after.used() as int) == before.slots().subrange(0, before.used() as int).push(val),
{
    assert(after.slots().subrange(0, after.used() as int) =~= before.slots().subrange(0, before.used() as int).push(val));
}

/// A call that changes how many slots of an arena are in use.
#[derive(Debug, Copy, Clone, PartialEq, Eq, Structural)]
pub enum ArenaOp {
    Push,
    Memory(usize),
    Clear,
}

/// The slots in use after the first `k` calls, starting from none: the pushes and the sizes
/// taken since the last clear.
pub open spec fn used_after(ops: Seq<ArenaOp>, k: nat) -> nat
    decreases k,
{
    if k == 0 {
        0
    } else {
        match ops[k - 1] {
            ArenaOp::Push => used_after(ops, (k - 1) as nat) + 1,
            ArenaOp::Memory(size) => (used_after(ops, (k - 1) as nat) + size) as nat,
            ArenaOp::Clear => 0,
        }
    }
}

/// What the call `op` states of the arena before it and after it.
pub open spec fn arena_call<T, const N: usize>(a: Arena<T, N>, op: ArenaOp, b: Arena<T, N>) -> bool {
    &&& a.wf()
    &&& b.wf()
    &&& match op {
        ArenaOp::Push => a.used() < N && b.used() == a.used() + 1,
        ArenaOp::Memory(size) => a.used() + size <= N && b.used() == a.used() + size,
        ArenaOp::Clear => b.used() == 0,
    }
}

/// Over a run of pushes, `get_memory` calls and clears from a fresh arena, the slots in use
/// are the pushes plus the sizes taken since the last clear, and never more than `N`; all of
/// them are what `get_all` returns.
pub proof fn lemma_arena_len<T, const N: usize>(arenas: Seq<Arena<T, N>>, ops: Seq<ArenaOp>, k: nat)
    requires
        arenas.len() == ops.len() + 1,
        arenas[0].used() == 0,
        forall|i: int| 0 <= i < ops.len() ==> #[trigger] arena_call(arenas[i], ops[i], arenas[i + 1]),
        k <= ops.len(),
    ensures
        arenas[k as int].used() == used_after(ops, k),
        used_after(ops, k) <= N,
        k > 0 ==> arenas[k as int].slots().subrange(0, arenas[k as int].used() as int).len() == used_after(ops, k),
    decreases k,
{
    if k > 0 {
        lemma_arena_len(arenas, ops, (k - 1) as nat);
        let i: int = k - 1;
        assert(arena_call(arenas[i], ops[i], arenas[i + 1]));
        assert(i + 1 == k);
    }
}

} // verus!
