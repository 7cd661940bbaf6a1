//! Coroutine bodies as data.
//!
//! A real coroutine body is an arbitrary closure suspended by switching
//! register contexts; a verified runtime cannot execute such a closure in
//! pieces, so here a body is a script of the effects the runtime cares
//! about: sending a value, yielding, parking, creating and dropping a
//! destructor-bearing local, panicking, and spawning a child that is joined
//! on the spot. The interpreter in the coroutine module executes scripts
//! against the spec-level semantics defined here: `run_ops` is the meaning
//! of one `resume` (run until the next suspension point), `run_to_stop` the
//! meaning of `join` (resume until something other than an ordinary yield).

use vstd::prelude::*;

use crate::stack::Stack;
use crate::stack_pool::{pool_take, pool_give};
use crate::options::DEFAULT_STACK_SIZE;

verus! {

/// One step of a child coroutine's body. A joined child is resumed until it
/// is done, so its intermediate yields are invisible to the parent; what
/// remains observable is what it sends and whether it panics.
#[derive(Clone, Copy, Debug)]
pub enum ChildOp {
    /// Send a value to the shared channel.
    Send(u64),
    /// Panic with the given payload.
    Fail(u64),
}

/// One step of a coroutine's body.
#[derive(Debug)]
pub enum Op {
    /// Send a value to the shared channel.
    Send(u64),
    /// Yield cooperatively: suspend with `Suspended`.
    Yield,
    /// Park: suspend with `Blocked`, awaiting an external event.
    Park,
    /// Bring a destructor-bearing local into scope.
    Acquire,
    /// Drop such a local; its destructor runs now.
    Release,
    /// Panic with the given payload; live locals unwind.
    Fail(u64),
    /// Spawn a child coroutine with the given body, join it, and go on.
    SpawnJoin(Vec<ChildOp>),
}

impl Op {
    /// How many steps the child body of this op has (zero for other ops).
    pub fn child_count(&self) -> (r: usize)
        ensures
            self is SpawnJoin ==> r == self->SpawnJoin_0@.len(),
            !(self is SpawnJoin) ==> r == 0,
    {
        match self {
            Op::SpawnJoin(c) => c.len(),
            _ => 0,
        }
    }

    /// The `j`th step of this op's child body.
    pub fn child_at(&self, j: usize) -> (r: ChildOp)
        requires
            self is SpawnJoin,
            j < self->SpawnJoin_0@.len(),
        ensures
            r == self->SpawnJoin_0@[j as int],
    {
        match self {
            Op::SpawnJoin(c) => c[j],
            _ => vstd::pervasive::unreached(),
        }
    }
}

/// How a stretch of execution ended.
#[derive(Clone, Copy, Debug)]
pub enum Term {
    /// Stopped at an ordinary cooperative yield.
    Yielded,
    /// Stopped parked, awaiting an external event.
    Parked,
    /// The body returned normally; locals went out of scope.
    Done,
    /// The body panicked with this payload; locals were unwound.
    Faulted(u64),
}

/// The effect of running a coroutine body from some point up to the next
/// stop: where the body stands afterwards, which values it sent, and what
/// became of the stack cache it shares with the coroutines it spawned.
pub ghost struct Resumed {
    /// Program counter after the run.
    pub pc: int,
    /// Destructor-bearing locals alive after the run.
    pub live: int,
    /// The values sent, in order.
    pub emitted: Seq<u64>,
    /// The stack cache afterwards.
    pub stacks: Seq<Stack>,
    /// The cache's region-identity counter afterwards.
    pub next: u64,
    /// How the run stopped.
    pub term: Term,
}

/// What a joined child sends: every value up to its first panic, if any.
pub open spec fn child_emits(c: Seq<ChildOp>) -> Seq<u64>
    decreases c.len(),
{
    if c.len() == 0 {
        Seq::empty()
    } else {
        match c[0] {
            ChildOp::Send(v) => seq![v] + child_emits(c.drop_first()),
            ChildOp::Fail(_) => Seq::empty(),
        }
    }
}

/// The meaning of one `resume`: run the body from step `i` until it yields,
/// parks, returns, or panics. `live` counts destructor-bearing locals in
/// scope; `stacks`, `next` and `max` describe the stack cache, which moves
/// when the body spawns a child. On a normal return and on a panic the live
/// locals go out of scope, so `live` ends at zero there.
pub open spec fn run_ops(
    ops: Seq<Op>,
    i: int,
    live: int,
    stacks: Seq<Stack>,
    next: u64,
    max: int,
) -> Resumed
    decreases ops.len() - i,
{
    if i < 0 || i >= ops.len() {
        Resumed { pc: ops.len() as int, live: 0, emitted: Seq::empty(), stacks, next, term: Term::Done }
    } else {
        match ops[i] {
            Op::Send(v) => {
                let r = run_ops(ops, i + 1, live, stacks, next, max);
                Resumed {
                    pc: r.pc,
                    live: r.live,
                    emitted: seq![v] + r.emitted,
                    stacks: r.stacks,
                    next: r.next,
                    term: r.term,
                }
            },
            Op::Yield => Resumed {
                pc: i + 1,
                live,
                emitted: Seq::empty(),
                stacks,
                next,
                term: Term::Yielded,
            },
            Op::Park => Resumed {
                pc: i + 1,
                live,
                emitted: Seq::empty(),
                stacks,
                next,
                term: Term::Parked,
            },
            Op::Acquire => run_ops(ops, i + 1, live + 1, stacks, next, max),
            Op::Release => run_ops(
                ops,
                i + 1,
                if live > 0 { live - 1 } else { 0 },
                stacks,
                next,
                max,
            ),
            Op::Fail(p) => Resumed {
                pc: ops.len() as int,
                live: 0,
                emitted: Seq::empty(),
                stacks,
                next,
                term: Term::Faulted(p),
            },
            Op::SpawnJoin(c) => {
                let t = pool_take(stacks, next, DEFAULT_STACK_SIZE);
                let after = pool_give(t.0, t.1, max);
                let r = run_ops(ops, i + 1, live, after, t.2, max);
                Resumed {
                    pc: r.pc,
                    live: r.live,
                    emitted: child_emits(c@) + r.emitted,
                    stacks: r.stacks,
                    next: r.next,
                    term: r.term,
                }
            },
        }
    }
}

/// The meaning of `join`: resume over and over while the body merely
/// yields, stopping once it parks, returns, or panics. Identical to
/// `run_ops` except that a yield is run through.
pub open spec fn run_to_stop(
    ops: Seq<Op>,
    i: int,
    live: int,
    stacks: Seq<Stack>,
    next: u64,
    max: int,
) -> Resumed
    decreases ops.len() - i,
{
    if i < 0 || i >= ops.len() {
        Resumed { pc: ops.len() as int, live: 0, emitted: Seq::empty(), stacks, next, term: Term::Done }
    } else {
        match ops[i] {
            Op::Send(v) => {
                let r = run_to_stop(ops, i + 1, live, stacks, next, max);
                Resumed {
                    pc: r.pc,
                    live: r.live,
                    emitted: seq![v] + r.emitted,
                    stacks: r.stacks,
                    next: r.next,
                    term: r.term,
                }
            },
            Op::Yield => run_to_stop(ops, i + 1, live, stacks, next, max),
            Op::Park => Resumed {
                pc: i + 1,
                live,
                emitted: Seq::empty(),
                stacks,
                next,
                term: Term::Parked,
            },
            Op::Acquire => run_to_stop(ops, i + 1, live + 1, stacks, next, max),
            Op::Release => run_to_stop(
                ops,
                i + 1,
                if live > 0 { live - 1 } else { 0 },
                stacks,
                next,
                max,
            ),
            Op::Fail(p) => Resumed {
                pc: ops.len() as int,
                live: 0,
                emitted: Seq::empty(),
                stacks,
                next,
                term: Term::Faulted(p),
            },
            Op::SpawnJoin(c) => {
                let t = pool_take(stacks, next, DEFAULT_STACK_SIZE);
                let after = pool_give(t.0, t.1, max);
                let r = run_to_stop(ops, i + 1, live, after, t.2, max);
                Resumed {
                    pc: r.pc,
                    live: r.live,
                    emitted: child_emits(c@) + r.emitted,
                    stacks: r.stacks,
                    next: r.next,
                    term: r.term,
                }
            },
        }
    }
}

/// Bounds of one resume: the program counter only moves forward and stays
/// within the body, live locals never outnumber the steps run, terminal
/// stops stand at the end of the body with no locals left, and the stack
/// cache keeps its size bound and its identity counter.
pub proof fn lemma_run_ops_bounds(
    ops: Seq<Op>,
    i: int,
    live: int,
    stacks: Seq<Stack>,
    next: u64,
    max: int,
)
    requires
        0 <= live <= i <= ops.len(),
    ensures
        ({
            let r = run_ops(ops, i, live, stacks, next, max);
            &&& i <= r.pc <= ops.len()
            &&& 0 <= r.live <= r.pc
            &&& (r.term is Yielded ==> r.pc > i)
            &&& (r.term is Done ==> r.pc == ops.len() && r.live == 0)
            &&& (r.term is Faulted ==> r.pc == ops.len() && r.live == 0)
            &&& (stacks.len() <= max ==> r.stacks.len() <= max)
            &&& (next >= 1 ==> r.next >= 1)
        }),
    decreases ops.len() - i,
{
    if i < 0 || i >= ops.len() {
    } else {
        match ops[i] {
            Op::Send(_) => {
                lemma_run_ops_bounds(ops, i + 1, live, stacks, next, max);
            },
            Op::Yield => {},
            Op::Park => {},
            Op::Acquire => {
                lemma_run_ops_bounds(ops, i + 1, live + 1, stacks, next, max);
            },
            Op::Release => {
                lemma_run_ops_bounds(
                    ops,
                    i + 1,
                    if live > 0 { live - 1 } else { 0 },
                    stacks,
                    next,
                    max,
                );
            },
            Op::Fail(_) => {},
            Op::SpawnJoin(_) => {
                let t = pool_take(stacks, next, DEFAULT_STACK_SIZE);
                let after = pool_give(t.0, t.1, max);
                crate::stack_pool::lemma_first_fit_char(stacks, DEFAULT_STACK_SIZE);
                lemma_run_ops_bounds(ops, i + 1, live, after, t.2, max);
            },
        }
    }
}

/// One resume followed by a join is the whole join: if a resume from `i`
/// stops at an ordinary yield, the join from `i` sends what that resume
/// sent and then behaves as a join from where the resume stopped; if the
/// resume stops any other way, the join from `i` is that resume.
pub proof fn lemma_run_to_stop_step(
    ops: Seq<Op>,
    i: int,
    live: int,
    stacks: Seq<Stack>,
    next: u64,
    max: int,
)
    ensures
        ({
            let one = run_ops(ops, i, live, stacks, next, max);
            let all = run_to_stop(ops, i, live, stacks, next, max);
            if one.term is Yielded {
                let rest = run_to_stop(ops, one.pc, one.live, one.stacks, one.next, max);
                all == Resumed {
                    pc: rest.pc,
                    live: rest.live,
                    emitted: one.emitted + rest.emitted,
                    stacks: rest.stacks,
                    next: rest.next,
                    term: rest.term,
                }
            } else {
                all == one
            }
        }),
    decreases ops.len() - i,
{
    let one = run_ops(ops, i, live, stacks, next, max);
    let all = run_to_stop(ops, i, live, stacks, next, max);
    if i < 0 || i >= ops.len() {
        assert(all =~= one);
    } else {
        match ops[i] {
            Op::Send(v) => {
                lemma_run_to_stop_step(ops, i + 1, live, stacks, next, max);
                let r1 = run_ops(ops, i + 1, live, stacks, next, max);
                if r1.term is Yielded {
                    let rest = run_to_stop(ops, r1.pc, r1.live, r1.stacks, r1.next, max);
                    assert((seq![v] + r1.emitted) + rest.emitted =~= seq![v] + (r1.emitted
                        + rest.emitted));
                } else {
                    assert(all =~= one);
                }
            },
            Op::Yield => {
                let rest = run_to_stop(ops, i + 1, live, stacks, next, max);
                assert(one.emitted + rest.emitted =~= rest.emitted);
            },
            Op::Park => {
                assert(all =~= one);
            },
            Op::Acquire => {
                lemma_run_to_stop_step(ops, i + 1, live + 1, stacks, next, max);
                if !(run_ops(ops, i + 1, live + 1, stacks, next, max).term is Yielded) {
                    assert(all =~= one);
                }
            },
            Op::Release => {
                let l2 = if live > 0 { live - 1 } else { 0 };
                lemma_run_to_stop_step(ops, i + 1, l2, stacks, next, max);
                if !(run_ops(ops, i + 1, l2, stacks, next, max).term is Yielded) {
                    assert(all =~= one);
                }
            },
            Op::Fail(_) => {
                assert(all =~= one);
            },
            Op::SpawnJoin(c) => {
                let t = pool_take(stacks, next, DEFAULT_STACK_SIZE);
                let after = pool_give(t.0, t.1, max);
                lemma_run_to_stop_step(ops, i + 1, live, after, t.2, max);
                let r1 = run_ops(ops, i + 1, live, after, t.2, max);
                if r1.term is Yielded {
                    let rest = run_to_stop(ops, r1.pc, r1.live, r1.stacks, r1.next, max);
                    assert((child_emits(c@) + r1.emitted) + rest.emitted =~= child_emits(c@) + (
                    r1.emitted + rest.emitted));
                } else {
                    assert(all =~= one);
                }
            },
        }
    }
}

} // verus!
