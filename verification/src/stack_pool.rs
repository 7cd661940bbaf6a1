//! A per-thread cache of retired stacks, recycled by capacity. Guarded-stack
//! allocation is expensive relative to spawn frequency; the pool amortizes it.

use vstd::prelude::*;

use crate::stack::{spec_round_up, round_up, Stack, PAGE_SIZE};

verus! {

/// Default maximum number of stacks the pool retains.
pub const DEFAULT_MAX_CACHED_STACKS: usize = 10;

/// Does the cached stack `s` satisfy a request for `size` bytes?
pub open spec fn fits(s: Stack, size: usize) -> bool {
    size <= s.min_size
}

/// Index of the first cached stack that satisfies a request for `size`
/// bytes, or -1 when none does.
pub open spec fn first_fit(s: Seq<Stack>, size: usize) -> int
    decreases s.len(),
{
    if s.len() == 0 {
        -1
    } else if fits(s[0], size) {
        0
    } else {
        let r = first_fit(s.drop_first(), size);
        if r == -1 {
            -1
        } else {
            r + 1
        }
    }
}

/// `first_fit` finds the first satisfying index, and -1 exactly when no
/// cached stack satisfies the request.
pub proof fn lemma_first_fit_char(s: Seq<Stack>, size: usize)
    ensures
        first_fit(s, size) == -1 <==> (forall|j: int| 0 <= j < s.len() ==> !fits(s[j], size)),
        first_fit(s, size) != -1 ==> {
            let r = first_fit(s, size);
            &&& 0 <= r < s.len()
            &&& fits(s[r], size)
            &&& forall|j: int| 0 <= j < r ==> !fits(s[j], size)
        },
    decreases s.len(),
{
    if s.len() == 0 {
    } else if fits(s[0], size) {
    } else {
        lemma_first_fit_char(s.drop_first(), size);
        let t = s.drop_first();
        assert(forall|j: int| 0 <= j < t.len() ==> t[j] == s[j + 1]);
        let r = first_fit(t, size);
        if r == -1 {
            assert(forall|j: int| 0 <= j < s.len() ==> !fits(s[j], size)) by {
                assert(forall|j: int| 1 <= j < s.len() ==> s[j] == t[j - 1]);
            }
        } else {
            assert(forall|j: int| 0 <= j < r + 1 ==> !fits(s[j], size)) by {
                assert(forall|j: int| 1 <= j < r + 1 ==> s[j] == t[j - 1]);
            }
        }
    }
}

/// A stack freshly mapped for a request of `size` bytes, under region
/// identity `id`.
pub open spec fn fresh_stack(size: usize, id: u64) -> Stack {
    Stack { min_size: size, len: spec_round_up(size as int, PAGE_SIZE as int) as usize, id }
}

/// The identity counter after one fresh mapping (it saturates; no process
/// performs 2^64 mappings).
pub open spec fn next_id_after(next: u64) -> u64 {
    if next < u64::MAX {
        (next + 1) as u64
    } else {
        next
    }
}

/// What taking a stack of at least `size` bytes does to a cache: the first
/// cached stack that is large enough leaves the cache and is returned;
/// otherwise a fresh region is mapped. Returns the remaining cache, the
/// stack handed out, and the identity counter afterwards.
pub open spec fn pool_take(s: Seq<Stack>, next: u64, size: usize) -> (Seq<Stack>, Stack, u64) {
    let i = first_fit(s, size);
    if i == -1 {
        (s, fresh_stack(size, next), next_id_after(next))
    } else {
        (s.remove(i), s[i], next)
    }
}

/// What giving a stack back does to a cache: it is retained unless the cache
/// already holds its maximum, in which case it is freed on the spot.
pub open spec fn pool_give(s: Seq<Stack>, give: Stack, max: int) -> Seq<Stack> {
    if s.len() < max {
        s.push(give)
    } else {
        s
    }
}

/// Law: stack reuse. After a stack is given back to a cache with room,
/// a take that asks for no more than that stack's capacity is served from
/// the cache: the identity counter does not move, so no new region is
/// mapped, and the stack handed out is one that was already cached.
pub proof fn lemma_stack_reuse(stacks: Seq<Stack>, next: u64, give: Stack, max: int, n: usize)
    requires
        stacks.len() < max,
        n <= give.min_size,
    ensures
        ({
            let cached = pool_give(stacks, give, max);
            let t = pool_take(cached, next, n);
            &&& t.2 == next
            &&& exists|k: int| 0 <= k < cached.len() && t.1 == cached[k] && n <= t.1.min_size
        }),
{
    let cached = pool_give(stacks, give, max);
    lemma_first_fit_char(cached, n);
    assert(fits(cached[cached.len() - 1], n));
    let i = first_fit(cached, n);
    assert(i != -1);
    assert(0 <= i < cached.len() && pool_take(cached, next, n).1 == cached[i] && n <= cached[i].min_size);
}

/// A cache of retired stacks, bounded by a maximum retained count.
#[derive(Debug)]
pub struct StackPool {
    /// The cached stacks.
    pub stacks: Vec<Stack>,
    /// Never retain more than this many.
    pub max_cached: usize,
    /// Identity for the next region this pool maps.
    pub next_id: u64,
}

impl StackPool {
    /// The pool never holds more stacks than its configured maximum, and
    /// never hands out the dummy identity.
    pub open spec fn wf(&self) -> bool {
        &&& self.stacks@.len() <= self.max_cached
        &&& self.next_id >= 1
    }

    /// An empty pool with the default retained maximum.
    pub fn new() -> (r: StackPool)
        ensures
            r.stacks@.len() == 0,
            r.max_cached == DEFAULT_MAX_CACHED_STACKS,
            r.next_id == 1,
            r.wf(),
    {
        StackPool { stacks: Vec::new(), max_cached: DEFAULT_MAX_CACHED_STACKS, next_id: 1 }
    }

    /// An empty pool that retains at most `max` stacks. The maximum is
    /// operator-configurable; reading a configured value from the process
    /// environment is the caller's business.
    pub fn with_max_cached(max: usize) -> (r: StackPool)
        ensures
            r.stacks@.len() == 0,
            r.max_cached == max,
            r.next_id == 1,
            r.wf(),
    {
        StackPool { stacks: Vec::new(), max_cached: max, next_id: 1 }
    }

    /// Return a cached stack whose capacity is at least `min_size` (first
    /// fit), or map a fresh one. A stack handed out earlier and given back
    /// is handed out again — same region, no new mapping — as long as it is
    /// still cached and large enough.
    pub fn take_stack(&mut self, min_size: usize) -> (r: Stack)
        requires
            old(self).wf(),
            min_size <= usize::MAX - PAGE_SIZE,
        ensures
            (final(self).stacks@, r, final(self).next_id)
                == pool_take(old(self).stacks@, old(self).next_id, min_size),
            final(self).max_cached == old(self).max_cached,
            final(self).wf(),
    {
        proof {
            lemma_first_fit_char(self.stacks@, min_size);
        }
        let ghost s0 = self.stacks@;
        let n = self.stacks.len();
        let mut i: usize = 0;
        while i < n
            invariant
                *self == *old(self),
                n == self.stacks@.len(),
                self.stacks@ == s0,
                0 <= i <= n,
                old(self).wf(),
                min_size <= usize::MAX - PAGE_SIZE,
                forall|j: int| 0 <= j < i ==> !fits(s0[j], min_size),
            decreases n - i,
        {
            if min_size <= self.stacks[i].min_size {
                proof {
                    lemma_first_fit_char(s0, min_size);
                    assert(first_fit(s0, min_size) == i);
                }
                let r = self.stacks.remove(i);
                return r;
            }
            i += 1;
        }
        proof {
            lemma_first_fit_char(s0, min_size);
            assert(first_fit(s0, min_size) == -1);
        }
        let len = round_up(min_size, PAGE_SIZE);
        let id = self.next_id;
        if self.next_id < u64::MAX {
            self.next_id = self.next_id + 1;
        }
        proof {
            assert(len as int == spec_round_up(min_size as int, PAGE_SIZE as int));
            assert(Stack { min_size, len, id } == fresh_stack(min_size, id));
        }
        Stack { min_size, len, id }
    }

    /// Give a stack back to the cache, unless the cache is already at its
    /// maximum retained count, in which case the stack is freed immediately.
    pub fn give_stack(&mut self, stack: Stack)
        requires
            old(self).wf(),
        ensures
            final(self).stacks@ == pool_give(old(self).stacks@, stack, old(self).max_cached as int),
            final(self).max_cached == old(self).max_cached,
            final(self).next_id == old(self).next_id,
            final(self).wf(),
    {
        if self.stacks.len() < self.max_cached {
            self.stacks.push(stack);
        }
    }
}

} // verus!
