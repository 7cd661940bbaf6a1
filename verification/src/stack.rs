//! A coroutine's stack: a page-aligned guarded region, here reduced to the
//! facts the runtime's logic reads — the requested capacity, the mapped
//! length, and the identity of the underlying region. Mapping the memory
//! itself (and arming the guard page) is the platform's job and stays outside
//! the verified core; the pool below hands out region identities so that
//! reuse of a region is observable.

use vstd::prelude::*;

verus! {

/// Size of one memory page.
pub const PAGE_SIZE: usize = 4096;

/// `from` rounded up to the next multiple of `to`, with the twist that the
/// result is never zero (a zero-length mapping is useless): rounding zero
/// gives one full unit.
pub open spec fn spec_round_up(from: int, to: int) -> int {
    let r = if from % to == 0 {
        from
    } else {
        from + to - from % to
    };
    if r == 0 {
        to
    } else {
        r
    }
}

/// Round `from` up to be divisible by `to`; a result of zero becomes `to`.
pub fn round_up(from: usize, to: usize) -> (r: usize)
    requires
        to > 0,
        from <= usize::MAX - to,
    ensures
        r == spec_round_up(from as int, to as int),
{
    let m: usize = from % to;
    let r: usize = if m == 0 {
        from
    } else {
        from + (to - m)
    };
    if r == 0 {
        to
    } else {
        r
    }
}

/// A task's stack region.
#[derive(Debug)]
pub struct Stack {
    /// The capacity that was asked for.
    pub min_size: usize,
    /// The mapped length: the capacity rounded up to whole pages.
    pub len: usize,
    /// Identity of the underlying region. Two stacks with the same identity
    /// are the same mapping; the dummy stack has identity zero.
    pub id: u64,
}

impl Stack {
    /// A zero-length stack which stands for the native thread's own stack,
    /// used by the root pseudo-coroutine.
    pub fn dummy_stack() -> (r: Stack)
        ensures
            r.min_size == 0,
            r.len == 0,
            r.id == 0,
    {
        Stack { min_size: 0, len: 0, id: 0 }
    }

    /// The minimum usable size of this stack.
    pub fn min_size(&self) -> (r: usize)
        ensures
            r == self.min_size,
    {
        self.min_size
    }

    /// The identity of the underlying region.
    pub fn id(&self) -> (r: u64)
        ensures
            r == self.id,
    {
        self.id
    }
}

} // verus!
