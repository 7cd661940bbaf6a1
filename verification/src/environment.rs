//! The per-thread coroutine world, made explicit.
//!
//! The runtime's historical shape kept this state in a hidden thread-local:
//! the stack pool, the stack (in the data-structure sense) of currently
//! active coroutines, and the slot carrying the most recent panic payload
//! across a switch. Here the environment is an explicit object that every
//! lifecycle call takes by reference, so "the parent of the running
//! coroutine" is simply the previous entry of `active`, and nothing hides
//! behind a global. The environment also owns the arena of coroutines (the
//! heap, in the real runtime) and the channel of sent values that bodies
//! emit into.

use vstd::prelude::*;

use crate::coroutine::{Coroutine, State};
use crate::stack::{Stack, PAGE_SIZE};
use crate::stack_pool::{StackPool, pool_take, pool_give};

verus! {

/// The coroutine-managing world of one worker thread.
pub struct Environment {
    /// Arena of coroutines; entry 0 is the root pseudo-coroutine that
    /// stands for the native thread itself.
    pub coroutines: Vec<Coroutine>,
    /// Identities of the currently active coroutines, outermost first; the
    /// root is always at the bottom. The top entry is running.
    pub active: Vec<usize>,
    /// The cache of retired stacks.
    pub pool: StackPool,
    /// Panic payload of the last switch, if it ended in a panic; taken by
    /// the resumer and translated into an error.
    pub running_state: Option<u64>,
    /// Every value sent by a coroutine body, in order.
    pub output: Vec<u64>,
}

impl Environment {
    /// Well-formedness of one non-root arena entry: not in a state that
    /// only the running chain may hold, with its locals bounded by its
    /// progress, and no locals left once it is terminal.
    pub open spec fn coroutine_wf(&self, i: int) -> bool {
        let c = self.coroutines@[i];
        &&& c.state != State::Running
        &&& c.state != State::Normal
        &&& c.live <= c.pc <= c.ops@.len()
        &&& (c.state == State::Finished || c.state == State::Panicked) ==> c.live == 0
    }

    /// Well-formedness at a call boundary: control is at the root, the
    /// root is running, no panic payload is pending, and every other
    /// coroutine is suspended, blocked, or terminal.
    pub open spec fn wf(&self) -> bool {
        &&& self.coroutines@.len() >= 1
        &&& self.active@ =~= seq![0usize]
        &&& self.coroutines@[0].state == State::Running
        &&& self.pool.wf()
        &&& self.running_state is None
        &&& forall|i: int| 1 <= i < self.coroutines@.len() ==> #[trigger] self.coroutine_wf(i)
    }

    /// A fresh environment: an empty pool, no output, and a root
    /// pseudo-coroutine marked running on the native thread's own stack.
    pub fn new() -> (r: Environment)
        ensures
            r.wf(),
            r.coroutines@.len() == 1,
            r.coroutines@[0].state == State::Running,
            r.coroutines@[0].ops@.len() == 0,
            r.pool.stacks@.len() == 0,
            r.pool.max_cached == crate::stack_pool::DEFAULT_MAX_CACHED_STACKS,
            r.pool.next_id == 1,
            r.output@.len() == 0,
    {
        let root = Coroutine {
            ops: Vec::new(),
            pc: 0,
            state: State::Running,
            stack: None,
            name: Some("<Environment Root Coroutine>".to_string()),
            live: 0,
        };
        let mut coroutines = Vec::new();
        coroutines.push(root);
        let mut active = Vec::new();
        active.push(0usize);
        Environment {
            coroutines,
            active,
            pool: StackPool::new(),
            running_state: None,
            output: Vec::new(),
        }
    }

    /// How many coroutines are active above the root.
    pub fn running_count(&self) -> (r: usize)
        requires
            self.active@.len() >= 1,
        ensures
            r == self.active@.len() - 1,
    {
        self.active.len() - 1
    }

    /// The identity of the coroutine currently running: the top of the
    /// active stack.
    pub fn running(&self) -> (r: usize)
        requires
            self.active@.len() >= 1,
        ensures
            r == self.active@.last(),
    {
        self.active[self.active.len() - 1]
    }

    /// Make `id` the running coroutine, on top of the one running so far.
    pub fn push(&mut self, id: usize)
        ensures
            final(self).active@ == old(self).active@.push(id),
            final(self).coroutines == old(self).coroutines,
            final(self).pool == old(self).pool,
            final(self).running_state == old(self).running_state,
            final(self).output == old(self).output,
    {
        self.active.push(id);
    }

    /// Retire the top of the active stack, handing control back to its
    /// parent; the root itself is never popped.
    pub fn pop(&mut self) -> (r: Option<usize>)
        requires
            old(self).active@.len() >= 1,
        ensures
            old(self).active@.len() == 1 ==> r is None && *final(self) == *old(self),
            old(self).active@.len() > 1 ==> r == Some(old(self).active@.last())
                && final(self).active@ == old(self).active@.drop_last(),
            final(self).coroutines == old(self).coroutines,
            final(self).pool == old(self).pool,
            final(self).running_state == old(self).running_state,
            final(self).output == old(self).output,
    {
        if self.active.len() == 1 {
            None
        } else {
            self.active.pop()
        }
    }

    /// Record the outcome of the switch that just ended: a panic payload,
    /// or nothing.
    pub fn set_resume_result(&mut self, result: Option<u64>)
        ensures
            final(self).running_state == result,
            final(self).coroutines == old(self).coroutines,
            final(self).active == old(self).active,
            final(self).pool == old(self).pool,
            final(self).output == old(self).output,
    {
        self.running_state = result;
    }

    /// Take the recorded outcome of the last switch, leaving nothing.
    pub fn take_last_resume_result(&mut self) -> (r: Option<u64>)
        ensures
            r == old(self).running_state,
            final(self).running_state is None,
            final(self).coroutines == old(self).coroutines,
            final(self).active == old(self).active,
            final(self).pool == old(self).pool,
            final(self).output == old(self).output,
    {
        let r = self.running_state;
        self.running_state = None;
        r
    }

    /// Take a stack of at least `size` bytes from this thread's pool.
    pub fn take_stack(&mut self, size: usize) -> (r: Stack)
        requires
            old(self).pool.wf(),
            size <= usize::MAX - PAGE_SIZE,
        ensures
            (final(self).pool.stacks@, r, final(self).pool.next_id)
                == pool_take(old(self).pool.stacks@, old(self).pool.next_id, size),
            final(self).pool.max_cached == old(self).pool.max_cached,
            final(self).pool.wf(),
            final(self).coroutines == old(self).coroutines,
            final(self).active == old(self).active,
            final(self).running_state == old(self).running_state,
            final(self).output == old(self).output,
    {
        self.pool.take_stack(size)
    }

    /// Give a retired stack back to this thread's pool.
    pub fn give_stack(&mut self, stack: Stack)
        requires
            old(self).pool.wf(),
        ensures
            final(self).pool.stacks@ == pool_give(
                old(self).pool.stacks@,
                stack,
                old(self).pool.max_cached as int,
            ),
            final(self).pool.max_cached == old(self).pool.max_cached,
            final(self).pool.next_id == old(self).pool.next_id,
            final(self).pool.wf(),
            final(self).coroutines == old(self).coroutines,
            final(self).active == old(self).active,
            final(self).running_state == old(self).running_state,
            final(self).output == old(self).output,
    {
        self.pool.give_stack(stack)
    }
}

} // verus!
