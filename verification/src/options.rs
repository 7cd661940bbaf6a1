//! Spawn options for a coroutine.

use vstd::prelude::*;

verus! {

/// Default stack size of a coroutine: 2 MiB.
pub const DEFAULT_STACK_SIZE: usize = 2 * 1024 * 1024;

/// Coroutine spawn options.
#[derive(Debug)]
pub struct Options {
    /// The size of the stack.
    pub stack_size: usize,

    /// The name of the coroutine.
    pub name: Option<String>,
}

impl Default for Options {
    /// The defaults: a 2 MiB stack and no name.
    fn default() -> (r: Options)
        ensures
            r.stack_size == DEFAULT_STACK_SIZE,
            r.name is None,
    {
        Options { stack_size: DEFAULT_STACK_SIZE, name: None }
    }
}

} // verus!
