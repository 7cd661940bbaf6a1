//! Coroutine configuration: detailed control over the properties of new
//! coroutines, chained off a base configuration.

use vstd::prelude::*;

use crate::coroutine::{Coroutine, Handle, State};
use crate::environment::Environment;
use crate::options::Options;
use crate::stack::PAGE_SIZE;
use crate::stack_pool::pool_take;

verus! {

/// Coroutine configuration, built by chaining.
pub struct Builder {
    /// The options collected so far.
    pub opts: Options,
}

impl Builder {
    /// The base configuration for spawning a coroutine, from which
    /// configuration methods can be chained.
    pub fn new() -> (r: Builder)
        ensures
            r.opts.stack_size == crate::options::DEFAULT_STACK_SIZE,
            r.opts.name is None,
    {
        Builder { opts: Options::default() }
    }

    /// Name the coroutine-to-be; the name is used for identification
    /// only.
    pub fn name(self, name: String) -> (r: Builder)
        ensures
            r.opts.name == Some(name),
            r.opts.stack_size == self.opts.stack_size,
    {
        Builder { opts: Options { name: Some(name), stack_size: self.opts.stack_size } }
    }

    /// Set the size of the stack for the new coroutine.
    pub fn stack_size(self, size: usize) -> (r: Builder)
        ensures
            r.opts.stack_size == size,
            r.opts.name == self.opts.name,
    {
        Builder { opts: Options { name: self.opts.name, stack_size: size } }
    }

    /// Spawn a new coroutine with this configuration, and return a handle
    /// for it.
    pub fn spawn(self, env: &mut Environment, body: Vec<crate::body::Op>) -> (h: Handle)
        requires
            old(env).wf(),
            self.opts.stack_size <= usize::MAX - PAGE_SIZE,
        ensures
            final(env).wf(),
            h.id == old(env).coroutines@.len(),
            ({
                let t = pool_take(
                    old(env).pool.stacks@,
                    old(env).pool.next_id,
                    self.opts.stack_size,
                );
                &&& final(env).coroutines@ == old(env).coroutines@.push(
                    Coroutine {
                        ops: body,
                        pc: 0,
                        state: State::Suspended,
                        stack: Some(t.1),
                        name: self.opts.name,
                        live: 0,
                    },
                )
                &&& final(env).pool.stacks@ == t.0
                &&& final(env).pool.next_id == t.2
            }),
            final(env).pool.max_cached == old(env).pool.max_cached,
            final(env).active@ == old(env).active@,
            final(env).running_state == old(env).running_state,
            final(env).output@ == old(env).output@,
    {
        Coroutine::spawn_opts(env, body, self.opts)
    }
}

} // verus!
