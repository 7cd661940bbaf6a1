//! The coroutine lifecycle state machine.
//!
//! A coroutine owns one stack and one point of progress through its body;
//! it is created suspended by `spawn`, advanced by `resume` until it
//! yields, parks, returns, or panics, and torn down by `force_unwind`,
//! which plays the part of dropping the handle: pending destructors run,
//! then the stack returns to the pool. A panic inside a body never crosses
//! a switch: it is contained at the trampoline boundary, recorded in the
//! environment, and surfaced to the resumer as `Error::Panicking`.
//!
//! Bodies are scripts of effects (see the body module); `resume` executes
//! them against the spec-level interpreter `run_ops`, and `join` against
//! `run_to_stop`.

use vstd::prelude::*;

use crate::Error;
use crate::body::{ChildOp, Op, Term, run_ops, run_to_stop, child_emits};
use crate::body::{lemma_run_ops_bounds, lemma_run_to_stop_step};
use crate::environment::Environment;
use crate::options::{Options, DEFAULT_STACK_SIZE};
use crate::stack::{Stack, PAGE_SIZE};
use crate::stack_pool::{pool_take, pool_give};

verus! {

/// State of a coroutine.
#[derive(Debug, Copy, Clone, Eq, PartialEq, Structural)]
pub enum State {
    /// Waiting for its resumed child to yield back.
    Normal,
    /// Suspended; can be woken up by `resume`.
    Suspended,
    /// Blocked on an external event; can be woken up by `resume`.
    Blocked,
    /// Running.
    Running,
    /// Finished.
    Finished,
    /// A panic happened inside; it can never be resumed again.
    Panicked,
}

/// One while the coroutine can still be resumed by `join`, zero once it
/// cannot: a measure that shrinks as a join makes progress.
pub open spec fn suspended_weight(s: State) -> int {
    if s == State::Suspended {
        1
    } else {
        0
    }
}

/// The state a coroutine is left in when a resume stops the given way.
pub open spec fn state_after(t: Term) -> State {
    match t {
        Term::Yielded => State::Suspended,
        Term::Parked => State::Blocked,
        Term::Done => State::Finished,
        Term::Faulted(_) => State::Panicked,
    }
}

/// What a resume that stops the given way returns to the resumer.
pub open spec fn result_after(t: Term) -> Result<State, Error> {
    match t {
        Term::Yielded => Ok(State::Suspended),
        Term::Parked => Ok(State::Blocked),
        Term::Done => Ok(State::Finished),
        Term::Faulted(p) => Err(Error::Panicking(p)),
    }
}

/// A coroutine: a body with a point of progress, a state, a stack, and a
/// name.
#[derive(Debug)]
pub struct Coroutine {
    /// The body, as a script of effects.
    pub ops: Vec<Op>,
    /// The next step of the body to run.
    pub pc: usize,
    /// Lifecycle state.
    pub state: State,
    /// The stack it runs on; `None` for the root pseudo-coroutine and for
    /// a coroutine already torn down.
    pub stack: Option<Stack>,
    /// An optional name, used for identification.
    pub name: Option<String>,
    /// Destructor-bearing locals currently in scope inside the body.
    pub live: usize,
}

/// The externally visible, uniquely owned reference to a coroutine in its
/// environment's arena.
#[derive(Debug, PartialEq, Eq, Structural)]
pub struct Handle {
    /// Index of the coroutine in the arena.
    pub id: usize,
}

impl Coroutine {
    /// Get the name of the coroutine.
    pub fn name(&self) -> (r: &Option<String>)
        ensures
            *r == self.name,
    {
        &self.name
    }

    /// Set the name of the coroutine.
    pub fn set_name(&mut self, name: String)
        ensures
            final(self).name == Some(name),
            final(self).ops == old(self).ops,
            final(self).pc == old(self).pc,
            final(self).state == old(self).state,
            final(self).stack == old(self).stack,
            final(self).live == old(self).live,
    {
        self.name = Some(name);
    }

    /// Spawn a coroutine with options: take a stack of the requested size
    /// from the environment's pool and install the body, suspended at its
    /// start.
    pub fn spawn_opts(env: &mut Environment, body: Vec<Op>, opts: Options) -> (h: Handle)
        requires
            old(env).wf(),
            opts.stack_size <= usize::MAX - PAGE_SIZE,
        ensures
            final(env).wf(),
            h.id == old(env).coroutines@.len(),
            ({
                let t = pool_take(
                    old(env).pool.stacks@,
                    old(env).pool.next_id,
                    opts.stack_size,
                );
                &&& final(env).coroutines@ == old(env).coroutines@.push(
                    Coroutine {
                        ops: body,
                        pc: 0,
                        state: State::Suspended,
                        stack: Some(t.1),
                        name: opts.name,
                        live: 0,
                    },
                )
                &&& final(env).pool.stacks@ == t.0
                &&& final(env).pool.next_id == t.2
            }),
            final(env).pool.max_cached == old(env).pool.max_cached,
            final(env).active@ == old(env).active@,
            final(env).running_state == old(env).running_state,
            final(env).output@ == old(env).output@,
    {
        let stack = env.take_stack(opts.stack_size);
        let id = env.coroutines.len();
        let c = Coroutine {
            ops: body,
            pc: 0,
            state: State::Suspended,
            stack: Some(stack),
            name: opts.name,
            live: 0,
        };
        env.coroutines.push(c);
        proof {
            assert(forall|i: int|
                1 <= i < old(env).coroutines@.len() ==> old(env).coroutine_wf(i)
                    ==> env.coroutine_wf(i));
            assert(env.coroutine_wf(id as int));
        }
        Handle { id }
    }

    /// Spawn a coroutine with default options.
    pub fn spawn(env: &mut Environment, body: Vec<Op>) -> (h: Handle)
        requires
            old(env).wf(),
        ensures
            final(env).wf(),
            h.id == old(env).coroutines@.len(),
            ({
                let t = pool_take(
                    old(env).pool.stacks@,
                    old(env).pool.next_id,
                    DEFAULT_STACK_SIZE,
                );
                &&& final(env).coroutines@ == old(env).coroutines@.push(
                    Coroutine {
                        ops: body,
                        pc: 0,
                        state: State::Suspended,
                        stack: Some(t.1),
                        name: None,
                        live: 0,
                    },
                )
                &&& final(env).pool.stacks@ == t.0
                &&& final(env).pool.next_id == t.2
            }),
            final(env).pool.max_cached == old(env).pool.max_cached,
            final(env).active@ == old(env).active@,
            final(env).running_state == old(env).running_state,
            final(env).output@ == old(env).output@,
    {
        Coroutine::spawn_opts(env, body, Options::default())
    }

    /// Yield the running coroutine with the given state tag. At a call
    /// boundary control is at the root, whose yield is a no-op; inside a
    /// body, yielding is the `Yield`/`Park` step of the script.
    pub fn yield_now(env: &mut Environment, state: State)
        requires
            old(env).wf(),
            state != State::Running,
        ensures
            *final(env) == *old(env),
    {
        if env.running_count() == 0 {
            return ;
        }
        vstd::pervasive::unreached::<()>()
    }

    /// Yield the running coroutine with `Suspended`; a no-op at the root.
    pub fn sched(env: &mut Environment)
        requires
            old(env).wf(),
        ensures
            *final(env) == *old(env),
    {
        Coroutine::yield_now(env, State::Suspended)
    }

    /// Yield the running coroutine with `Blocked`; a no-op at the root.
    pub fn block(env: &mut Environment)
        requires
            old(env).wf(),
        ensures
            *final(env) == *old(env),
    {
        Coroutine::yield_now(env, State::Blocked)
    }

    /// The identity of the coroutine currently running on this thread.
    pub fn current(env: &Environment) -> (r: usize)
        requires
            env.wf(),
        ensures
            r == env.active@.last(),
    {
        env.running()
    }
}

impl Handle {
    /// Resume the coroutine. A no-op on one already finished or running;
    /// an error on one waiting for its resumed child; otherwise the body
    /// runs from its current position until it yields, parks, returns, or
    /// panics — precisely `run_ops`. Whatever the body sent is appended
    /// to the environment's output; a panic inside the body is contained
    /// here, never crossing the switch, and surfaces as
    /// `Error::Panicking` with its payload. A coroutine that panicked
    /// earlier must never be resumed, so that is ruled out up front.
    #[verifier::loop_isolation(false)]
    pub fn resume(&self, env: &mut Environment) -> (r: Result<State, Error>)
        requires
            old(env).wf(),
            self.id < old(env).coroutines@.len(),
            old(env).coroutines@[self.id as int].state != State::Panicked,
        ensures
            final(env).wf(),
            ({
                let c = old(env).coroutines@[self.id as int];
                let ru = run_ops(
                    c.ops@,
                    c.pc as int,
                    c.live as int,
                    old(env).pool.stacks@,
                    old(env).pool.next_id,
                    old(env).pool.max_cached as int,
                );
                match c.state {
                    State::Finished => r == Ok::<State, Error>(State::Finished) && *final(env)
                        == *old(env),
                    State::Running => r == Ok::<State, Error>(State::Running) && *final(env)
                        == *old(env),
                    State::Normal => r == Err::<State, Error>(Error::Waiting) && *final(env)
                        == *old(env),
                    State::Panicked => true,
                    _ => {
                        &&& final(env).coroutines@ == old(env).coroutines@.update(
                            self.id as int,
                            Coroutine {
                                ops: c.ops,
                                pc: ru.pc as usize,
                                state: state_after(ru.term),
                                stack: c.stack,
                                name: c.name,
                                live: ru.live as usize,
                            },
                        )
                        &&& final(env).output@ == old(env).output@ + ru.emitted
                        &&& final(env).pool.stacks@ == ru.stacks
                        &&& final(env).pool.next_id == ru.next
                        &&& final(env).pool.max_cached == old(env).pool.max_cached
                        &&& final(env).active@ == old(env).active@
                        &&& r == result_after(ru.term)
                    },
                }
            }),
    {
        let id = self.id;
        let st0 = env.coroutines[id].state;
        match st0 {
            State::Finished => return Ok(State::Finished),
            State::Running => return Ok(State::Running),
            State::Normal => return Err(Error::Waiting),
            State::Panicked => return vstd::pervasive::unreached(),
            _ => {},
        }
        proof {
            assert(id >= 1);
            assert(old(env).coroutine_wf(id as int));
        }
        env.push(id);
        let mut c = env.coroutines.remove(id);
        c.state = State::Running;
        let ghost ops0 = c.ops@;
        let ghost max0 = env.pool.max_cached as int;
        let ghost goal = run_ops(
            ops0,
            c.pc as int,
            c.live as int,
            env.pool.stacks@,
            env.pool.next_id,
            max0,
        );
        let ghost out0 = env.output@;
        proof {
            lemma_run_ops_bounds(
                ops0,
                c.pc as int,
                c.live as int,
                env.pool.stacks@,
                env.pool.next_id,
                max0,
            );
        }
        let n = c.ops.len();
        let mut term = Term::Done;
        let mut stopped = false;
        while !stopped && c.pc < n
            invariant
                n == ops0.len(),
                c.ops@ == ops0,
                c.ops == old(env).coroutines@[id as int].ops,
                c.state == State::Running,
                c.stack == old(env).coroutines@[id as int].stack,
                c.name == old(env).coroutines@[id as int].name,
                c.live <= c.pc <= n,
                env.pool.wf(),
                env.pool.max_cached as int == max0,
                env.coroutines@ == old(env).coroutines@.remove(id as int),
                env.active@ == old(env).active@.push(id),
                env.running_state is None,
                !stopped ==> ({
                    let cur = run_ops(
                        ops0,
                        c.pc as int,
                        c.live as int,
                        env.pool.stacks@,
                        env.pool.next_id,
                        max0,
                    );
                    &&& goal.pc == cur.pc
                    &&& goal.live == cur.live
                    &&& goal.term == cur.term
                    &&& goal.stacks == cur.stacks
                    &&& goal.next == cur.next
                    &&& out0 + goal.emitted == env.output@ + cur.emitted
                }),
                stopped ==> ({
                    &&& c.pc as int == goal.pc
                    &&& c.live as int == goal.live
                    &&& term == goal.term
                    &&& env.pool.stacks@ == goal.stacks
                    &&& env.pool.next_id == goal.next
                    &&& env.output@ == out0 + goal.emitted
                }),
            decreases n - c.pc,
        {
            let ghost pc_b = c.pc as int;
            let ghost live_b = c.live as int;
            let ghost stacks_b = env.pool.stacks@;
            let ghost next_b = env.pool.next_id;
            let ghost out_b = env.output@;
            match &c.ops[c.pc] {
                Op::Send(v) => {
                    let vv = *v;
                    env.output.push(vv);
                    c.pc = c.pc + 1;
                    proof {
                        let r1 = run_ops(ops0, pc_b + 1, live_b, stacks_b, next_b, max0);
                        assert(env.output@ =~= out_b + seq![vv]);
                        assert(out_b + (seq![vv] + r1.emitted) =~= (out_b + seq![vv]) + r1.emitted);
                    }
                },
                Op::Yield => {
                    c.pc = c.pc + 1;
                    term = Term::Yielded;
                    stopped = true;
                    proof {
                        assert(out_b + Seq::<u64>::empty() =~= out_b);
                    }
                },
                Op::Park => {
                    c.pc = c.pc + 1;
                    term = Term::Parked;
                    stopped = true;
                    proof {
                        assert(out_b + Seq::<u64>::empty() =~= out_b);
                    }
                },
                Op::Acquire => {
                    c.live = c.live + 1;
                    c.pc = c.pc + 1;
                },
                Op::Release => {
                    if c.live > 0 {
                        c.live = c.live - 1;
                    }
                    c.pc = c.pc + 1;
                },
                Op::Fail(p) => {
                    let pp = *p;
                    c.live = 0;
                    c.pc = n;
                    term = Term::Faulted(pp);
                    stopped = true;
                    proof {
                        assert(out_b + Seq::<u64>::empty() =~= out_b);
                    }
                },
                Op::SpawnJoin(_) => {
                    let stack = env.take_stack(DEFAULT_STACK_SIZE);
                    let ghost stacks_m = env.pool.stacks@;
                    let ghost next_m = env.pool.next_id;
                    let cc = c.ops[c.pc].child_count();
                    let ghost cops = c.ops@[c.pc as int]->SpawnJoin_0@;
                    let mut j: usize = 0;
                    let mut cfail = false;
                    proof {
                        assert(cops.skip(0) =~= cops);
                    }
                    while !cfail && j < cc
                        invariant
                            cc == cops.len(),
                            0 <= j <= cc,
                            env.pool.stacks@ == stacks_m,
                            env.pool.next_id == next_m,
                            env.pool.max_cached as int == max0,
                            env.pool.wf(),
                            env.coroutines@ == old(env).coroutines@.remove(id as int),
                            env.active@ == old(env).active@.push(id),
                            env.running_state is None,
                            !cfail ==> out_b + child_emits(cops) == env.output@ + child_emits(
                                cops.skip(j as int),
                            ),
                            cfail ==> env.output@ == out_b + child_emits(cops),
                        decreases cc - j,
                    {
                        match c.ops[c.pc].child_at(j) {
                            ChildOp::Send(v) => {
                                proof {
                                    assert(cops.skip(j as int).drop_first() =~= cops.skip(
                                        j as int + 1,
                                    ));
                                    assert(cops.skip(j as int)[0] == cops[j as int]);
                                }
                                let ghost out_c = env.output@;
                                env.output.push(v);
                                proof {
                                    assert(env.output@ =~= out_c + seq![v]);
                                    assert(out_c + (seq![v] + child_emits(cops.skip(j as int + 1)))
                                        =~= (out_c + seq![v]) + child_emits(
                                        cops.skip(j as int + 1),
                                    ));
                                }
                                j = j + 1;
                            },
                            ChildOp::Fail(_) => {
                                proof {
                                    assert(cops.skip(j as int)[0] == cops[j as int]);
                                    assert(env.output@ + Seq::<u64>::empty() =~= env.output@);
                                }
                                cfail = true;
                                j = j + 1;
                            },
                        }
                    }
                    proof {
                        if !cfail {
                            assert(cops.skip(cc as int) =~= Seq::<ChildOp>::empty());
                            assert(env.output@ + Seq::<u64>::empty() =~= env.output@);
                        }
                    }
                    env.give_stack(stack);
                    c.pc = c.pc + 1;
                    proof {
                        let r1 = run_ops(ops0, pc_b + 1, live_b, env.pool.stacks@, next_m, max0);
                        assert(out_b + (child_emits(cops) + r1.emitted) =~= (out_b + child_emits(
                            cops,
                        )) + r1.emitted);
                    }
                },
            }
        }
        if !stopped {
            c.live = 0;
            term = Term::Done;
            proof {
                assert(env.output@ + Seq::<u64>::empty() =~= env.output@);
            }
        }
        let new_state = match term {
            Term::Yielded => State::Suspended,
            Term::Parked => State::Blocked,
            Term::Done => State::Finished,
            Term::Faulted(_) => State::Panicked,
        };
        c.state = new_state;
        env.coroutines.insert(id, c);
        let _ = env.pop();
        if let Term::Faulted(p) = term {
            env.set_resume_result(Some(p));
        }
        let res: Result<State, Error> = match env.take_last_resume_result() {
            Some(p) => Err(Error::Panicking(p)),
            None => Ok(new_state),
        };
        proof {
            let cfin = Coroutine {
                ops: old(env).coroutines@[id as int].ops,
                pc: goal.pc as usize,
                state: state_after(goal.term),
                stack: old(env).coroutines@[id as int].stack,
                name: old(env).coroutines@[id as int].name,
                live: goal.live as usize,
            };
            assert(env.coroutines@ =~= old(env).coroutines@.update(id as int, cfin));
            assert(env.active@ =~= old(env).active@);
            assert forall|i: int|
                1 <= i < env.coroutines@.len() implies #[trigger] env.coroutine_wf(i) by {
                if i != id {
                    assert(old(env).coroutine_wf(i));
                    assert(env.coroutines@[i] == old(env).coroutines@[i]);
                }
            }
        }
        res
    }

    /// Join the coroutine: resume it over and over while it merely
    /// yields, stopping once it parks, finishes, or panics — precisely
    /// `run_to_stop` from the coroutine's current position. Joining one
    /// that panicked earlier reports `Error::Panicked` rather than
    /// silently succeeding; a panic during the join surfaces as
    /// `Error::Panicking` with its payload; a coroutine that parks stays
    /// blocked and the join returns, leaving it to its event.
    #[verifier::loop_isolation(false)]
    pub fn join(&self, env: &mut Environment) -> (r: Result<(), Error>)
        requires
            old(env).wf(),
            self.id < old(env).coroutines@.len(),
        ensures
            final(env).wf(),
            ({
                let c = old(env).coroutines@[self.id as int];
                let rt = run_to_stop(
                    c.ops@,
                    c.pc as int,
                    c.live as int,
                    old(env).pool.stacks@,
                    old(env).pool.next_id,
                    old(env).pool.max_cached as int,
                );
                match c.state {
                    State::Panicked => r == Err::<(), Error>(Error::Panicked) && *final(env)
                        == *old(env),
                    State::Suspended => {
                        &&& final(env).coroutines@ == old(env).coroutines@.update(
                            self.id as int,
                            Coroutine {
                                ops: c.ops,
                                pc: rt.pc as usize,
                                state: state_after(rt.term),
                                stack: c.stack,
                                name: c.name,
                                live: rt.live as usize,
                            },
                        )
                        &&& final(env).output@ == old(env).output@ + rt.emitted
                        &&& final(env).pool.stacks@ == rt.stacks
                        &&& final(env).pool.next_id == rt.next
                        &&& final(env).pool.max_cached == old(env).pool.max_cached
                        &&& final(env).active@ == old(env).active@
                        &&& !(rt.term is Yielded)
                        &&& r == (match rt.term {
                            Term::Faulted(p) => Err::<(), Error>(Error::Panicking(p)),
                            _ => Ok::<(), Error>(()),
                        })
                    },
                    _ => r == Ok::<(), Error>(()) && *final(env) == *old(env),
                }
            }),
    {
        let id = self.id;
        let st0 = self.state(env);
        if st0 == State::Panicked {
            return Err(Error::Panicked);
        }
        if st0 != State::Suspended {
            return Ok(());
        }
        let ghost c0 = old(env).coroutines@[id as int];
        let ghost ops0 = c0.ops@;
        let n = env.coroutines[id].ops.len();
        let ghost max0 = env.pool.max_cached as int;
        let ghost goal = run_to_stop(
            ops0,
            c0.pc as int,
            c0.live as int,
            env.pool.stacks@,
            env.pool.next_id,
            max0,
        );
        let ghost out0 = env.output@;
        while self.state(env) == State::Suspended
            invariant
                env.wf(),
                id == self.id,
                n == ops0.len(),
                id < env.coroutines@.len(),
                env.coroutines@.len() == old(env).coroutines@.len(),
                forall|k: int|
                    0 <= k < env.coroutines@.len() && k != id ==> env.coroutines@[k] == old(
                        env,
                    ).coroutines@[k],
                env.coroutines@[id as int].ops == c0.ops,
                env.coroutines@[id as int].ops@ == ops0,
                env.coroutines@[id as int].stack == c0.stack,
                env.coroutines@[id as int].name == c0.name,
                env.pool.max_cached as int == max0,
                ({
                    let cn = env.coroutines@[id as int];
                    let cur = run_to_stop(
                        ops0,
                        cn.pc as int,
                        cn.live as int,
                        env.pool.stacks@,
                        env.pool.next_id,
                        max0,
                    );
                    if cn.state == State::Suspended {
                        &&& goal.pc == cur.pc
                        &&& goal.live == cur.live
                        &&& goal.term == cur.term
                        &&& goal.stacks == cur.stacks
                        &&& goal.next == cur.next
                        &&& out0 + goal.emitted == env.output@ + cur.emitted
                    } else {
                        &&& cn.pc as int == goal.pc
                        &&& cn.live as int == goal.live
                        &&& cn.state == state_after(goal.term)
                        &&& env.pool.stacks@ == goal.stacks
                        &&& env.pool.next_id == goal.next
                        &&& env.output@ == out0 + goal.emitted
                        &&& (goal.term is Parked || goal.term is Done)
                    }
                }),
            decreases ops0.len() - env.coroutines@[self.id as int].pc + suspended_weight(
                env.coroutines@[self.id as int].state,
            ),
        {
            let ghost cn_b = env.coroutines@[id as int];
            let ghost stacks_b = env.pool.stacks@;
            let ghost next_b = env.pool.next_id;
            let ghost out_b = env.output@;
            proof {
                assert(id >= 1);
                assert(env.coroutine_wf(id as int));
                lemma_run_ops_bounds(ops0, cn_b.pc as int, cn_b.live as int, stacks_b, next_b, max0);
                lemma_run_to_stop_step(
                    ops0,
                    cn_b.pc as int,
                    cn_b.live as int,
                    stacks_b,
                    next_b,
                    max0,
                );
            }
            let ghost one = run_ops(ops0, cn_b.pc as int, cn_b.live as int, stacks_b, next_b, max0);
            match self.resume(env) {
                Err(e) => {
                    proof {
                        assert(one.term is Faulted);
                        assert(env.coroutines@ =~= old(env).coroutines@.update(
                            id as int,
                            env.coroutines@[id as int],
                        ));
                    }
                    return Err(e);
                },
                Ok(_) => {},
            }
            proof {
                if one.term is Yielded {
                    let rest = run_to_stop(ops0, one.pc, one.live, one.stacks, one.next, max0);
                    assert(out_b + (one.emitted + rest.emitted) =~= (out_b + one.emitted)
                        + rest.emitted);
                }
            }
        }
        proof {
            assert(env.coroutines@ =~= old(env).coroutines@.update(
                id as int,
                env.coroutines@[id as int],
            ));
        }
        Ok(())
    }

    /// The teardown that dropping the handle performs: forced unwind. A
    /// coroutine still suspended or blocked mid-body has every pending
    /// destructor-bearing local dropped — each exactly once — and only
    /// then is its stack handed back to the pool; a finished or panicked
    /// coroutine just gives its stack back. Returns how many destructors
    /// the forced unwind ran. A blocked coroutine registered with an
    /// event loop must be deregistered by its scheduler first.
    pub fn force_unwind(self, env: &mut Environment) -> (dtors: usize)
        requires
            old(env).wf(),
            1 <= self.id < old(env).coroutines@.len(),
        ensures
            final(env).wf(),
            ({
                let c = old(env).coroutines@[self.id as int];
                &&& dtors as int == (if c.state == State::Suspended || c.state == State::Blocked {
                    c.live as int
                } else {
                    0
                })
                &&& final(env).coroutines@ == old(env).coroutines@.update(
                    self.id as int,
                    Coroutine {
                        ops: c.ops,
                        pc: c.pc,
                        state: State::Finished,
                        stack: None,
                        name: c.name,
                        live: 0,
                    },
                )
                &&& (match c.stack {
                    Some(s) => final(env).pool.stacks@ == pool_give(
                        old(env).pool.stacks@,
                        s,
                        old(env).pool.max_cached as int,
                    ),
                    None => final(env).pool.stacks@ == old(env).pool.stacks@,
                })
                &&& final(env).pool.next_id == old(env).pool.next_id
                &&& final(env).pool.max_cached == old(env).pool.max_cached
                &&& final(env).active@ == old(env).active@
                &&& final(env).output@ == old(env).output@
            }),
    {
        let id = self.id;
        proof {
            assert(old(env).coroutine_wf(id as int));
        }
        let mut c = env.coroutines.remove(id);
        let dtors = match c.state {
            State::Suspended | State::Blocked => c.live,
            _ => 0,
        };
        c.live = 0;
        c.state = State::Finished;
        let stack_opt = c.stack;
        c.stack = None;
        env.coroutines.insert(id, c);
        match stack_opt {
            Some(s) => env.give_stack(s),
            None => {},
        }
        proof {
            let cold = old(env).coroutines@[id as int];
            assert(env.coroutines@ =~= old(env).coroutines@.update(
                id as int,
                Coroutine {
                    ops: cold.ops,
                    pc: cold.pc,
                    state: State::Finished,
                    stack: None,
                    name: cold.name,
                    live: 0,
                },
            ));
            assert(env.coroutine_wf(id as int));
            assert(forall|i: int|
                1 <= i < env.coroutines@.len() && i != id ==> #[trigger] env.coroutine_wf(i)
                    == old(env).coroutine_wf(i));
        }
        dtors
    }

    /// Get the state of the coroutine.
    pub fn state(&self, env: &Environment) -> (r: State)
        requires
            self.id < env.coroutines@.len(),
        ensures
            r == env.coroutines@[self.id as int].state,
    {
        env.coroutines[self.id].state
    }

    /// Check whether the coroutine is already terminal: finished or
    /// panicked.
    pub fn is_finished(&self, env: &Environment) -> (r: bool)
        requires
            self.id < env.coroutines@.len(),
        ensures
            r == (env.coroutines@[self.id as int].state == State::Finished
                || env.coroutines@[self.id as int].state == State::Panicked),
    {
        match self.state(env) {
            State::Finished | State::Panicked => true,
            _ => false,
        }
    }

    /// Get the name of the coroutine.
    pub fn name<'a>(&self, env: &'a Environment) -> (r: &'a Option<String>)
        requires
            self.id < env.coroutines@.len(),
        ensures
            *r == env.coroutines@[self.id as int].name,
    {
        &env.coroutines[self.id].name
    }

    /// Set the name of the coroutine.
    pub fn set_name(&self, env: &mut Environment, name: String)
        requires
            old(env).wf(),
            self.id < old(env).coroutines@.len(),
        ensures
            final(env).wf(),
            final(env).coroutines@ == old(env).coroutines@.update(
                self.id as int,
                Coroutine { name: Some(name), ..old(env).coroutines@[self.id as int] },
            ),
            final(env).active@ == old(env).active@,
            final(env).pool == old(env).pool,
            final(env).running_state == old(env).running_state,
            final(env).output@ == old(env).output@,
    {
        let mut c = env.coroutines.remove(self.id);
        c.set_name(name);
        env.coroutines.insert(self.id, c);
        proof {
            assert(env.coroutines@ =~= old(env).coroutines@.update(
                self.id as int,
                Coroutine { name: env.coroutines@[self.id as int].name, ..old(
                    env,
                ).coroutines@[self.id as int] },
            ));
            assert forall|i: int|
                1 <= i < env.coroutines@.len() implies #[trigger] env.coroutine_wf(i) by {
                assert(old(env).coroutine_wf(i));
            }
        }
    }

    /// Move the coroutine between its two resumable states. Anything more
    /// would corrupt the lifecycle, so anything more is refused.
    pub fn set_state(&self, env: &mut Environment, state: State)
        requires
            old(env).wf(),
            1 <= self.id < old(env).coroutines@.len(),
            state == State::Suspended || state == State::Blocked,
            old(env).coroutines@[self.id as int].state == State::Suspended
                || old(env).coroutines@[self.id as int].state == State::Blocked,
        ensures
            final(env).wf(),
            final(env).coroutines@ == old(env).coroutines@.update(
                self.id as int,
                Coroutine { state, ..old(env).coroutines@[self.id as int] },
            ),
            final(env).active@ == old(env).active@,
            final(env).pool == old(env).pool,
            final(env).running_state == old(env).running_state,
            final(env).output@ == old(env).output@,
    {
        let mut c = env.coroutines.remove(self.id);
        c.state = state;
        env.coroutines.insert(self.id, c);
        proof {
            assert(env.coroutines@ =~= old(env).coroutines@.update(
                self.id as int,
                Coroutine { state, ..old(env).coroutines@[self.id as int] },
            ));
            assert(old(env).coroutine_wf(self.id as int));
            assert(env.coroutine_wf(self.id as int));
            assert(forall|i: int|
                1 <= i < env.coroutines@.len() && i != self.id ==> #[trigger] env.coroutine_wf(i)
                    == old(env).coroutine_wf(i));
        }
    }
}

/// Law: a coroutine that returns normally joins cleanly and stays
/// finished. When the remaining script runs to a normal return, a join
/// leaves the coroutine `Finished` and reports `Ok` — and on a `Finished`
/// coroutine, `resume` is contracted to be a no-op returning
/// `Ok(Finished)`, so later resume calls change nothing.
pub proof fn lemma_join_normal_return(
    ops: Seq<Op>,
    i: int,
    live: int,
    stacks: Seq<Stack>,
    next: u64,
    max: int,
)
    requires
        run_to_stop(ops, i, live, stacks, next, max).term is Done,
    ensures
        state_after(run_to_stop(ops, i, live, stacks, next, max).term) == State::Finished,
        (match run_to_stop(ops, i, live, stacks, next, max).term {
            Term::Faulted(p) => Err::<(), Error>(Error::Panicking(p)),
            _ => Ok::<(), Error>(()),
        }) == Ok::<(), Error>(()),
{
}

/// Law: panic containment. When the remaining script panics before its
/// next suspension point, the resume leaves the coroutine `Panicked` and
/// reports exactly `Error::Panicking` with the panic's payload — the
/// panic never propagates to the resumer, whose world is otherwise the
/// same — and a `Panicked` coroutine cannot be resumed again: `resume`
/// refuses it up front.
pub proof fn lemma_panic_containment(
    ops: Seq<Op>,
    i: int,
    live: int,
    stacks: Seq<Stack>,
    next: u64,
    max: int,
    p: u64,
)
    requires
        run_ops(ops, i, live, stacks, next, max).term == Term::Faulted(p),
    ensures
        state_after(run_ops(ops, i, live, stacks, next, max).term) == State::Panicked,
        result_after(run_ops(ops, i, live, stacks, next, max).term) == Err::<State, Error>(
            Error::Panicking(p),
        ),
{
}

/// Law: nested spawn/join ordering. A body step that spawns a child and
/// joins it puts every value the child sends into the output strictly
/// before anything the parent itself sends afterwards.
pub proof fn lemma_child_effects_first(
    ops: Seq<Op>,
    i: int,
    live: int,
    stacks: Seq<Stack>,
    next: u64,
    max: int,
)
    requires
        0 <= i < ops.len(),
        ops[i] is SpawnJoin,
    ensures
        ({
            let c = ops[i]->SpawnJoin_0@;
            let t = pool_take(stacks, next, DEFAULT_STACK_SIZE);
            let after = pool_give(t.0, t.1, max);
            run_ops(ops, i, live, stacks, next, max).emitted == child_emits(c) + run_ops(
                ops,
                i + 1,
                live,
                after,
                t.2,
                max,
            ).emitted
        }),
{
}

/// Spawn a coroutine with default options in the given environment.
pub fn spawn(env: &mut Environment, body: Vec<Op>) -> (h: Handle)
    requires
        old(env).wf(),
    ensures
        final(env).wf(),
        h.id == old(env).coroutines@.len(),
        ({
            let t = pool_take(old(env).pool.stacks@, old(env).pool.next_id, DEFAULT_STACK_SIZE);
            &&& final(env).coroutines@ == old(env).coroutines@.push(
                Coroutine {
                    ops: body,
                    pc: 0,
                    state: State::Suspended,
                    stack: Some(t.1),
                    name: None,
                    live: 0,
                },
            )
            &&& final(env).pool.stacks@ == t.0
            &&& final(env).pool.next_id == t.2
        }),
        final(env).pool.max_cached == old(env).pool.max_cached,
        final(env).active@ == old(env).active@,
        final(env).running_state == old(env).running_state,
        final(env).output@ == old(env).output@,
{
    Coroutine::spawn(env, body)
}

/// The identity of the coroutine currently running on this thread.
pub fn current(env: &Environment) -> (r: usize)
    requires
        env.wf(),
    ensures
        r == env.active@.last(),
{
    Coroutine::current(env)
}

/// Yield the running coroutine with `Suspended`; a no-op at the root.
pub fn sched(env: &mut Environment)
    requires
        old(env).wf(),
    ensures
        *final(env) == *old(env),
{
    Coroutine::sched(env)
}

} // verus!
