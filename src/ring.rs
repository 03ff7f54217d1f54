//! A ring of bytes `[left, right)` with a head (`index`, the next byte to hand
//! out) and a tail (`done`, the next byte not yet given back).
//!
//! Convention for the case `index == done`: the head never catches up with the
//! tail from behind, so `index == done` always means that nothing is in use,
//! except for the one state `done == left`, `index == right`, where the whole
//! ring is in use. `used` tells the two apart by comparing positions, not by
//! reducing them modulo the length.
use vstd::prelude::*;

verus! {

/// Where a block of `n` bytes requested at position `p` of the ring
/// `[left, right)` starts: at `p` when it fits before `right`, else at `left`
/// (the tail end is skipped).
pub open spec fn place(left: int, right: int, p: int, n: int) -> int {
    if p + n > right {
        left
    } else {
        p
    }
}

/// The position just after a block of `n` bytes requested at `p`.
pub open spec fn step(left: int, right: int, p: int, n: int) -> int {
    place(left, right, p, n) + n
}

/// Bytes of the ring that a block of `n` bytes requested at `p` takes up, the
/// skipped tail end included.
pub open spec fn cost(right: int, p: int, n: int) -> int {
    if p + n > right {
        (right - p) + n
    } else {
        n
    }
}

#[derive(Clone, Copy, Debug)]
pub struct Ring {
    pub left: u64,
    pub right: u64,
    pub index: u64,
    pub done: u64,
}

impl Ring {
    pub open spec fn wf(&self) -> bool {
        &&& self.left <= self.right
        &&& self.left <= self.index <= self.right
        &&& self.left <= self.done <= self.right
    }

    pub open spec fn capacity(&self) -> int {
        self.right - self.left
    }

    pub open spec fn place(&self, p: int, n: int) -> int {
        place(self.left as int, self.right as int, p, n)
    }

    pub open spec fn step(&self, p: int, n: int) -> int {
        step(self.left as int, self.right as int, p, n)
    }

    pub open spec fn cost(&self, p: int, n: int) -> int {
        cost(self.right as int, p, n)
    }

    /// Bytes between the tail and the head, going forward around the ring.
    pub open spec fn used(&self) -> int {
        if self.done <= self.index {
            self.index - self.done
        } else {
            self.capacity() - (self.done - self.index)
        }
    }

    /// Whether `n` bytes can be handed out now without the head overrunning
    /// the tail; otherwise the caller waits until the tail advances.
    pub open spec fn can_alloc(&self, n: int) -> bool {
        if self.index + n > self.right {
            self.left + n < self.done && self.done <= self.index
        } else {
            self.done <= self.index || self.index + n < self.done
        }
    }

    /// An empty ring over `[left, right)`.
    pub open spec fn new_spec(left: u64, right: u64) -> Ring {
        Ring { left, right, index: left, done: left }
    }

    pub fn new(left: u64, right: u64) -> (r: Ring)
        requires
            left <= right,
        ensures
            r == Ring::new_spec(left, right),
            r.wf(),
            r.used() == 0,
    {
        Ring { left, right, index: left, done: left }
    }

    pub fn capacity_exec(&self) -> (r: u64)
        requires
            self.wf(),
        ensures
            r == self.capacity(),
    {
        self.right - self.left
    }

    /// Bytes between the tail and the head.
    pub fn used_bytes(&self) -> (r: u64)
        requires
            self.wf(),
        ensures
            r == self.used(),
    {
        if self.done <= self.index {
            self.index - self.done
        } else {
            (self.right - self.left) - (self.done - self.index)
        }
    }

    /// Decides, without changing anything, whether `reserve(n)` would succeed.
    pub fn can_alloc_exec(&self, n: u32) -> (r: bool)
        requires
            self.wf(),
        ensures
            r == self.can_alloc(n as int),
    {
        let n = n as u64;
        if n > self.right - self.index {
            n < self.done - self.left && self.done <= self.index
        } else {
            self.done <= self.index || n < self.done - self.index
        }
    }

    /// Hands out `n` bytes at the head, skipping the tail end of the ring when
    /// they do not fit before `right`; `None` when the caller has to wait.
    pub fn reserve(&mut self, n: u32) -> (r: Option<u64>)
        requires
            old(self).wf(),
        ensures
            final(self).wf(),
            final(self).left == old(self).left,
            final(self).right == old(self).right,
            final(self).done == old(self).done,
            old(self).can_alloc(n as int) ==> {
                &&& r == Some(old(self).place(old(self).index as int, n as int) as u64)
                &&& final(self).index == old(self).step(old(self).index as int, n as int)
                &&& final(self).used() == old(self).used() + old(self).cost(
                    old(self).index as int,
                    n as int,
                )
            },
            !old(self).can_alloc(n as int) ==> r.is_none() && *final(self) == *old(self),
    {
        if !self.can_alloc_exec(n) {
            return None;
        }
        let n = n as u64;
        let start = if n > self.right - self.index {
            self.left
        } else {
            self.index
        };
        self.index = start + n;
        Some(start)
    }

    /// Moves the tail forward over a block of `n` bytes, with the same
    /// wrapping rule as `reserve`.
    pub fn advance(&mut self, n: u32)
        requires
            old(self).wf(),
            n <= old(self).capacity(),
        ensures
            final(self).wf(),
            final(self).left == old(self).left,
            final(self).right == old(self).right,
            final(self).index == old(self).index,
            final(self).done == old(self).step(old(self).done as int, n as int),
    {
        let n = n as u64;
        if n > self.right - self.done {
            self.done = self.left + n;
        } else {
            self.done = self.done + n;
        }
    }
}

/// Bounds of a ring: the used span never exceeds its capacity.
pub proof fn lemma_used_bounded(r: Ring)
    requires
        r.wf(),
    ensures
        0 <= r.used() <= r.capacity(),
{
}

/// Boundary of the wrap rule: a request of exactly `right - index` bytes is
/// placed at the head without wrapping, and one byte more is placed at `left`,
/// leaving the head at `left` plus the request.
pub proof fn lemma_wrap_boundary(r: Ring, n: int)
    requires
        r.wf(),
        n >= 0,
    ensures
        n == r.right - r.index ==> r.place(r.index as int, n) == r.index && r.step(
            r.index as int,
            n,
        ) == r.right,
        n == r.right - r.index + 1 ==> r.place(r.index as int, n) == r.left && r.step(
            r.index as int,
            n,
        ) == r.left + n,
{
}

/// Position of the head after blocks of `lens` were handed out, in order,
/// from position `p`.
pub open spec fn chain_end(left: int, right: int, p: int, lens: Seq<int>) -> int
    decreases lens.len(),
{
    if lens.len() == 0 {
        p
    } else {
        step(left, right, chain_end(left, right, p, lens.drop_last()), lens.last())
    }
}

/// Bytes of the ring that blocks of `lens`, handed out in order from `p`,
/// take up: their lengths plus the tail ends skipped on the way.
pub open spec fn chain_cost(left: int, right: int, p: int, lens: Seq<int>) -> int
    decreases lens.len(),
{
    if lens.len() == 0 {
        0
    } else {
        chain_cost(left, right, p, lens.drop_last()) + cost(
            right,
            chain_end(left, right, p, lens.drop_last()),
            lens.last(),
        )
    }
}

/// Every block is no longer than the ring.
pub open spec fn all_fit(left: int, right: int, lens: Seq<int>) -> bool {
    forall|i: int| 0 <= i < lens.len() ==> 0 <= #[trigger] lens[i] <= right - left
}

pub proof fn lemma_chain_bounds(left: int, right: int, p: int, lens: Seq<int>)
    requires
        left <= p <= right,
        all_fit(left, right, lens),
    ensures
        left <= chain_end(left, right, p, lens) <= right,
        chain_cost(left, right, p, lens) >= 0,
    decreases lens.len(),
{
    if lens.len() > 0 {
        let d = lens.drop_last();
        assert forall|i: int| 0 <= i < d.len() implies 0 <= #[trigger] d[i] <= right - left by {
            assert(d[i] == lens[i]);
        }
        lemma_chain_bounds(left, right, p, d);
        assert(0 <= lens[lens.len() - 1] <= right - left);
    }
}

/// Handing out `lens` from `p` is handing out the first block, then the rest
/// from where the first one ends.
pub proof fn lemma_chain_front(left: int, right: int, p: int, lens: Seq<int>)
    requires
        lens.len() > 0,
    ensures
        chain_end(left, right, p, lens) == chain_end(
            left,
            right,
            step(left, right, p, lens[0]),
            lens.drop_first(),
        ),
        chain_cost(left, right, p, lens) == cost(right, p, lens[0]) + chain_cost(
            left,
            right,
            step(left, right, p, lens[0]),
            lens.drop_first(),
        ),
    decreases lens.len(),
{
    if lens.len() == 1 {
        assert(lens.drop_last() =~= Seq::<int>::empty());
        assert(lens.drop_first() =~= Seq::<int>::empty());
        assert(lens.last() == lens[0]);
        assert(chain_end(left, right, p, lens.drop_last()) == p);
        assert(chain_cost(left, right, p, lens.drop_last()) == 0);
        let s = step(left, right, p, lens[0]);
        assert(chain_end(left, right, s, lens.drop_first()) == s);
        assert(chain_cost(left, right, s, lens.drop_first()) == 0);
    } else {
        let d = lens.drop_last();
        let t = lens.drop_first();
        let s = step(left, right, p, lens[0]);
        lemma_chain_front(left, right, p, d);
        assert(d[0] == lens[0]);
        assert(d.drop_first() =~= t.drop_last());
        assert(t.last() == lens.last());
        assert(chain_end(left, right, s, t) == step(
            left,
            right,
            chain_end(left, right, s, t.drop_last()),
            t.last(),
        ));
        assert(chain_cost(left, right, s, t) == chain_cost(left, right, s, t.drop_last()) + cost(
            right,
            chain_end(left, right, s, t.drop_last()),
            t.last(),
        ));
    }
}

/// Handing out one more block extends the chain by that block.
pub proof fn lemma_chain_push(left: int, right: int, p: int, lens: Seq<int>, n: int)
    ensures
        chain_end(left, right, p, lens.push(n)) == step(
            left,
            right,
            chain_end(left, right, p, lens),
            n,
        ),
        chain_cost(left, right, p, lens.push(n)) == chain_cost(left, right, p, lens) + cost(
            right,
            chain_end(left, right, p, lens),
            n,
        ),
{
    assert(lens.push(n).drop_last() =~= lens);
}

/// Giving back the oldest block, of `n` bytes, at the tail takes its cost off
/// the used span.
pub proof fn lemma_used_after_release(r: Ring, r2: Ring, n: int, rest: int)
    requires
        r.wf(),
        0 <= n <= r.capacity(),
        rest >= 0,
        r.used() == r.cost(r.done as int, n) + rest,
        r2.left == r.left,
        r2.right == r.right,
        r2.index == r.index,
        r2.done == r.step(r.done as int, n),
    ensures
        r2.wf(),
        r2.used() == rest,
{
}

pub open spec fn sum_lens(lens: Seq<int>) -> int
    decreases lens.len(),
{
    if lens.len() == 0 {
        0
    } else {
        sum_lens(lens.drop_last()) + lens.last()
    }
}

/// Tail-end bytes skipped by the blocks of `lens` that wrapped.
pub open spec fn skipped(left: int, right: int, p: int, lens: Seq<int>) -> int
    decreases lens.len(),
{
    if lens.len() == 0 {
        0
    } else {
        let q = chain_end(left, right, p, lens.drop_last());
        skipped(left, right, p, lens.drop_last()) + if q + lens.last() > right {
            right - q
        } else {
            0
        }
    }
}

/// One ring length for each block of `lens` that wrapped.
pub open spec fn laps(left: int, right: int, p: int, lens: Seq<int>) -> int
    decreases lens.len(),
{
    if lens.len() == 0 {
        0
    } else {
        let q = chain_end(left, right, p, lens.drop_last());
        laps(left, right, p, lens.drop_last()) + if q + lens.last() > right {
            right - left
        } else {
            0
        }
    }
}

/// What a chain of blocks takes up is their lengths plus the skipped tail
/// ends; the head ends up that far ahead, less a ring length per wrap; and
/// with no wrap nothing is skipped.
pub proof fn lemma_chain_accounting(left: int, right: int, p: int, lens: Seq<int>)
    requires
        left <= p <= right,
        all_fit(left, right, lens),
    ensures
        chain_cost(left, right, p, lens) == sum_lens(lens) + skipped(left, right, p, lens),
        chain_end(left, right, p, lens) == p + chain_cost(left, right, p, lens) - laps(
            left,
            right,
            p,
            lens,
        ),
        skipped(left, right, p, lens) >= 0,
        laps(left, right, p, lens) >= 0,
        laps(left, right, p, lens) == 0 ==> skipped(left, right, p, lens) == 0,
    decreases lens.len(),
{
    if lens.len() > 0 {
        let d = lens.drop_last();
        assert forall|i: int| 0 <= i < d.len() implies 0 <= #[trigger] d[i] <= right - left by {
            assert(d[i] == lens[i]);
        }
        lemma_chain_accounting(left, right, p, d);
        lemma_chain_bounds(left, right, p, d);
        assert(0 <= lens[lens.len() - 1] <= right - left);
    }
}

} // verus!
