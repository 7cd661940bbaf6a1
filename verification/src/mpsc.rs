//! Channel endpoints over the environment's shared output: what a body's
//! `Send` step writes, a receiver reads back in order. The sender's `send`
//! follows a send with a cooperative yield, which at the root is a no-op.

use vstd::prelude::*;

use crate::coroutine::Coroutine;
use crate::environment::Environment;

verus! {

/// The sending end: appends to the environment's channel.
#[derive(Debug)]
pub struct Sender {}

/// The sending end of a bounded channel; the bound is recorded at
/// creation.
#[derive(Debug)]
pub struct SyncSender {
    /// How many values may be outstanding.
    pub bound: usize,
}

/// The receiving end: reads the environment's channel in order, keeping
/// its own cursor.
#[derive(Debug)]
pub struct Receiver {
    /// Position of the next value to read.
    pub cursor: usize,
}

/// A connected sender/receiver pair over an environment's channel.
pub fn channel() -> (r: (Sender, Receiver))
    ensures
        r.1.cursor == 0,
{
    (Sender {  }, Receiver { cursor: 0 })
}

impl Sender {
    /// Send a value into the channel, then yield cooperatively.
    pub fn send(&self, env: &mut Environment, data: u64) -> (r: Result<(), u64>)
        requires
            old(env).wf(),
        ensures
            final(env).wf(),
            r is Ok,
            final(env).output@ == old(env).output@.push(data),
            final(env).coroutines == old(env).coroutines,
            final(env).pool == old(env).pool,
            final(env).active == old(env).active,
            final(env).running_state == old(env).running_state,
    {
        env.output.push(data);
        proof {
            assert(forall|i: int|
                1 <= i < env.coroutines@.len() ==> old(env).coroutine_wf(i) == #[trigger] env
                    .coroutine_wf(i));
        }
        Coroutine::sched(env);
        Ok(())
    }

    /// Send a value into the channel without yielding.
    pub fn try_send(&self, env: &mut Environment, data: u64) -> (r: Result<(), u64>)
        ensures
            r is Ok,
            final(env).output@ == old(env).output@.push(data),
            final(env).coroutines == old(env).coroutines,
            final(env).pool == old(env).pool,
            final(env).active == old(env).active,
            final(env).running_state == old(env).running_state,
    {
        env.output.push(data);
        Ok(())
    }
}

impl Receiver {
    /// Receive the next value sent and not yet received, if any.
    pub fn recv(&mut self, env: &Environment) -> (r: Option<u64>)
        ensures
            old(self).cursor < env.output@.len() ==> r == Some(env.output@[old(self).cursor as int])
                && final(self).cursor == old(self).cursor + 1,
            old(self).cursor >= env.output@.len() ==> r is None && final(self).cursor == old(
                self,
            ).cursor,
    {
        if self.cursor < env.output.len() {
            let v = env.output[self.cursor];
            self.cursor = self.cursor + 1;
            Some(v)
        } else {
            None
        }
    }

    /// Receive without waiting: the same reading step, named for callers
    /// that must not block.
    pub fn try_recv(&mut self, env: &Environment) -> (r: Option<u64>)
        ensures
            old(self).cursor < env.output@.len() ==> r == Some(env.output@[old(self).cursor as int])
                && final(self).cursor == old(self).cursor + 1,
            old(self).cursor >= env.output@.len() ==> r is None && final(self).cursor == old(
                self,
            ).cursor,
    {
        self.recv(env)
    }
}

} // verus!
