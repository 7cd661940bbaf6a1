//! The work-stealing, event-aware scheduler.
//!
//! Each worker owns a bounded private FIFO that keeps recently readied
//! work local, the owner's end of a work-stealing deque for the overflow,
//! a registry of siblings to steal from, a control-message queue, and a
//! slab mapping event tokens to coroutines blocked on external readiness.
//! A `Cluster` holds the workers beside one environment; its `step` runs
//! one scheduling decision of one worker: drain a control message, wake a
//! blocked coroutine whose event fired, resume one unit of ready work —
//! found in the private FIFO, then the own deque, then a sibling's — or
//! report idleness (the backoff sleep of the real loop). Resumes happen
//! one at a time, so the concurrent loops of the real runtime appear here
//! as an interleaving of steps.
//!
//! The deque itself is the outside crate `deque` (a Chase-Lev
//! work-stealing deque); both of its ends are held together behind
//! `WorkQueue`, so every operation below goes through exclusive access.

use vstd::prelude::*;

use crate::body::{run_ops, Resumed, Term};
use crate::coroutine::{state_after, Coroutine, Handle, State};
use crate::environment::Environment;
use crate::stack_pool::pool_give;

verus! {

/// How many readied coroutines the private FIFO holds before work
/// overflows into the stealable deque.
pub const MAX_PRIVATE_WORK_NUM: usize = 10;

/// A control message between schedulers.
#[derive(Debug, Clone, Copy, PartialEq, Eq, Structural)]
pub enum SchedMessage {
    /// A sibling scheduler joined; its index follows.
    NewNeighbor(usize),
    /// Stop scheduling.
    Shutdown,
}

/// Both ends of one Chase-Lev work-stealing deque, held together. The
/// owner pushes and pops at the bottom; stealing takes from the top. With
/// the worker end and the only stealer end behind one exclusively
/// borrowed value, no operation can race another, so the lock-free
/// protocol of the crate behaves like a plain deque here.
#[verifier::external_body]
pub struct WorkQueue {
    worker: deque::Worker<usize>,
    stealer: deque::Stealer<usize>,
}

/// What a work-stealing deque holds, oldest (stealable) end first.
pub uninterp spec fn work_items(q: WorkQueue) -> Seq<usize>;

/// A fresh, empty work-stealing deque.
///
/// Relies on `deque::new`, which allocates an empty deque and returns its
/// worker and stealer halves.
#[verifier::external_body]
pub fn work_queue_new() -> (q: WorkQueue)
    ensures
        work_items(q) == Seq::<usize>::empty(),
{
    let (worker, stealer) = deque::new();
    WorkQueue { worker, stealer }
}

/// Push one item onto the owner's end of the deque.
///
/// Relies on `deque::Worker::push`, which appends at the bottom of the
/// deque (growing its buffer when full).
#[verifier::external_body]
pub fn work_queue_push(q: &mut WorkQueue, item: usize)
    ensures
        work_items(*final(q)) == work_items(*old(q)).push(item),
{
    q.worker.push(item);
}

/// Steal one item from the stealable end of the deque.
///
/// Relies on `deque::Stealer::steal`: it returns the top item as
/// `Stolen::Data`, or `Stolen::Empty` on an empty deque. The remaining
/// outcome, `Stolen::Abort`, reports a lost compare-and-swap against a
/// concurrent pop or steal, which cannot happen here: both ends are
/// behind the same exclusive borrow.
#[verifier::external_body]
pub fn work_queue_steal(q: &mut WorkQueue) -> (r: Option<usize>)
    ensures
        work_items(*old(q)).len() == 0 ==> r is None && work_items(*final(q)) == work_items(
            *old(q),
        ),
        work_items(*old(q)).len() > 0 ==> r == Some(work_items(*old(q))[0]) && work_items(
            *final(q),
        ) == work_items(*old(q)).drop_first(),
{
    match q.stealer.steal() {
        deque::Stolen::Data(v) => Some(v),
        deque::Stolen::Empty => None,
        deque::Stolen::Abort => None,
    }
}

/// One worker's scheduler.
pub struct Scheduler {
    /// Bounded FIFO of recently readied coroutines, kept local.
    pub private_work: Vec<usize>,
    /// The stealable deque: overflow work, visible to siblings.
    pub work: WorkQueue,
    /// Pending control messages.
    pub messages: Vec<SchedMessage>,
    /// Indices of the sibling schedulers in the cluster.
    pub neighbors: Vec<usize>,
    /// Event registrations: token and the coroutine waiting on it.
    pub slab: Vec<(usize, usize)>,
    /// The next event token to hand out.
    pub next_token: usize,
    /// Whether a shutdown message has been observed.
    pub shutdown: bool,
}

/// Everything but the deque's opaque value equal, and the deque's
/// contents equal: how an untouched scheduler relates to its old self.
pub open spec fn sched_eq(a: Scheduler, b: Scheduler) -> bool {
    &&& a.private_work == b.private_work
    &&& work_items(a.work) == work_items(b.work)
    &&& a.messages == b.messages
    &&& a.neighbors == b.neighbors
    &&& a.slab == b.slab
    &&& a.next_token == b.next_token
    &&& a.shutdown == b.shutdown
}

/// The control half of a scheduler equal: everything but its two work
/// queues.
pub open spec fn sched_ctrl_eq(a: Scheduler, b: Scheduler) -> bool {
    &&& a.messages == b.messages
    &&& a.neighbors == b.neighbors
    &&& a.slab == b.slab
    &&& a.next_token == b.next_token
    &&& a.shutdown == b.shutdown
}

impl Scheduler {
    /// A fresh scheduler knowing the given siblings: empty queues, no
    /// registrations, not shut down.
    pub fn with_neighbors(neighbors: Vec<usize>) -> (r: Scheduler)
        ensures
            r.private_work@.len() == 0,
            work_items(r.work).len() == 0,
            r.messages@.len() == 0,
            r.neighbors == neighbors,
            r.slab@.len() == 0,
            r.next_token == 0,
            !r.shutdown,
    {
        Scheduler {
            private_work: Vec::new(),
            work: work_queue_new(),
            messages: Vec::new(),
            neighbors,
            slab: Vec::new(),
            next_token: 0,
            shutdown: false,
        }
    }

    /// Enqueue a runnable coroutine: into the private FIFO while it has
    /// room, else onto the stealable deque.
    pub fn ready(&mut self, work: usize)
        ensures
            old(self).private_work@.len() >= MAX_PRIVATE_WORK_NUM ==> final(self).private_work@
                == old(self).private_work@ && work_items(final(self).work) == work_items(
                old(self).work,
            ).push(work),
            old(self).private_work@.len() < MAX_PRIVATE_WORK_NUM ==> final(self).private_work@
                == old(self).private_work@.push(work) && work_items(final(self).work) == work_items(
                old(self).work,
            ),
            final(self).messages == old(self).messages,
            final(self).neighbors == old(self).neighbors,
            final(self).slab == old(self).slab,
            final(self).next_token == old(self).next_token,
            final(self).shutdown == old(self).shutdown,
    {
        if self.private_work.len() >= MAX_PRIVATE_WORK_NUM {
            work_queue_push(&mut self.work, work);
        } else {
            self.private_work.push(work);
        }
    }

    /// Register a coroutine against the event loop: record it in the
    /// slab under a fresh token and hand the token out. The caller parks
    /// the coroutine; when the event fires, `handle_event` with this
    /// token readies it again.
    pub fn wait_event(&mut self, work: usize) -> (token: usize)
        requires
            old(self).next_token < usize::MAX,
        ensures
            token == old(self).next_token,
            final(self).slab@ == old(self).slab@.push((token, work)),
            final(self).next_token == old(self).next_token + 1,
            final(self).private_work == old(self).private_work,
            work_items(final(self).work) == work_items(old(self).work),
            final(self).messages == old(self).messages,
            final(self).neighbors == old(self).neighbors,
            final(self).shutdown == old(self).shutdown,
    {
        let token = self.next_token;
        self.slab.push((token, work));
        self.next_token = self.next_token + 1;
        token
    }

    /// An event fired: deregister the first registration under this
    /// token and hand back the coroutine that was waiting, if any was.
    pub fn handle_event(&mut self, token: usize) -> (r: Option<usize>)
        ensures
            (forall|k: int| 0 <= k < old(self).slab@.len() ==> old(self).slab@[k].0 != token)
                ==> r is None && final(self).slab == old(self).slab,
            (exists|k: int| 0 <= k < old(self).slab@.len() && old(self).slab@[k].0 == token)
                ==> exists|k: int|
                {
                    &&& 0 <= k < old(self).slab@.len()
                    &&& old(self).slab@[k].0 == token
                    &&& (forall|j: int| 0 <= j < k ==> old(self).slab@[j].0 != token)
                    &&& r == Some(old(self).slab@[k].1)
                    &&& final(self).slab@ == old(self).slab@.remove(k)
                },
            final(self).private_work == old(self).private_work,
            work_items(final(self).work) == work_items(old(self).work),
            final(self).messages == old(self).messages,
            final(self).neighbors == old(self).neighbors,
            final(self).next_token == old(self).next_token,
            final(self).shutdown == old(self).shutdown,
    {
        let n = self.slab.len();
        let mut k: usize = 0;
        while k < n
            invariant
                n == self.slab@.len(),
                *self == *old(self),
                0 <= k <= n,
                forall|j: int| 0 <= j < k ==> self.slab@[j].0 != token,
            decreases n - k,
        {
            if self.slab[k].0 == token {
                let (_, id) = self.slab.remove(k);
                return Some(id);
            }
            k = k + 1;
        }
        None
    }
}

/// What one scheduling step of one worker did.
#[derive(Debug, Clone, Copy, PartialEq, Eq, Structural)]
pub enum StepOutcome {
    /// The worker has observed shutdown; its loop exits.
    Shut,
    /// A control message was drained.
    Control,
    /// An event fired and its blocked coroutine was readied.
    Woken(usize),
    /// An event fired but nothing was waiting on its token.
    Spurious,
    /// One unit of ready work was resumed.
    Resumed(usize),
    /// Nothing to do anywhere: the worker would back off and sleep.
    Idle,
}

/// The registry of schedulers beside the world they schedule. The real
/// runtime runs one scheduler per OS thread against a shared heap of
/// coroutines; here their loops appear as interleaved `step` calls
/// against one environment.
pub struct Cluster {
    /// The workers' schedulers.
    pub scheds: Vec<Scheduler>,
    /// The coroutine world they drive.
    pub env: Environment,
}

impl Cluster {
    /// Well-formedness of one scheduler: everything it queues or has
    /// registered names a coroutine of the arena, and its sibling list
    /// names other schedulers of the cluster.
    pub open spec fn sched_wf(&self, i: int) -> bool {
        let s = self.scheds@[i];
        &&& forall|k: int|
            0 <= k < s.private_work@.len() ==> #[trigger] s.private_work@[k]
                < self.env.coroutines@.len()
        &&& forall|k: int|
            0 <= k < work_items(s.work).len() ==> #[trigger] work_items(s.work)[k]
                < self.env.coroutines@.len()
        &&& forall|k: int|
            0 <= k < s.slab@.len() ==> (#[trigger] s.slab@[k]).1 < self.env.coroutines@.len()
        &&& forall|k: int|
            0 <= k < s.neighbors@.len() ==> #[trigger] s.neighbors@[k] < self.scheds@.len()
                && s.neighbors@[k] != i
        &&& forall|k: int|
            0 <= k < s.messages@.len() ==> ((#[trigger] s.messages@[k]) is NewNeighbor
                ==> s.messages@[k]->NewNeighbor_0 < self.scheds@.len()
                    && s.messages@[k]->NewNeighbor_0 != i)
    }

    /// Well-formedness of the cluster.
    pub open spec fn wf(&self) -> bool {
        &&& self.env.wf()
        &&& forall|i: int| 0 <= i < self.scheds@.len() ==> #[trigger] self.sched_wf(i)
    }

    /// Is there ready work this worker could get at: in its private
    /// FIFO, its own deque, or any sibling's deque?
    pub open spec fn has_work(&self, i: int) -> bool {
        let s = self.scheds@[i];
        ||| s.private_work@.len() > 0
        ||| work_items(s.work).len() > 0
        ||| exists|k: int|
            0 <= k < s.neighbors@.len() && work_items(
                self.scheds@[s.neighbors@[k] as int].work,
            ).len() > 0
    }

        /// The entry a coroutine is left with after a resume with effect
    /// `ru`.
    pub open spec fn resumed_entry(c: Coroutine, ru: Resumed) -> Coroutine {
        Coroutine {
            ops: c.ops,
            pc: ru.pc as usize,
            state: state_after(ru.term),
            stack: c.stack,
            name: c.name,
            live: ru.live as usize,
        }
    }

    /// The entry a coroutine is left with after its teardown.
    pub open spec fn unwound_entry(c: Coroutine) -> Coroutine {
        Coroutine { ops: c.ops, pc: c.pc, state: State::Finished, stack: None, name: c.name, live: 0 }
    }

    /// The effect of one worker's search for ready work: the first item
    /// of its private FIFO; else the stealable end of its own deque;
    /// else the stealable end of the first sibling's deque that has any.
    /// The item found leaves its queue; nothing else moves.
    pub open spec fn found_work(pre: Cluster, post: Cluster, i: int, r: Option<usize>) -> bool {
        let s = pre.scheds@[i];
        &&& post.env == pre.env
        &&& post.scheds@.len() == pre.scheds@.len()
        &&& if s.private_work@.len() > 0 {
            &&& r == Some(s.private_work@[0])
            &&& post.scheds@[i].private_work@ == s.private_work@.drop_first()
            &&& work_items(post.scheds@[i].work) == work_items(s.work)
            &&& sched_ctrl_eq(post.scheds@[i], s)
            &&& forall|m: int|
                0 <= m < pre.scheds@.len() && m != i ==> sched_eq(
                    #[trigger] post.scheds@[m],
                    pre.scheds@[m],
                )
        } else if work_items(s.work).len() > 0 {
            &&& r == Some(work_items(s.work)[0])
            &&& post.scheds@[i].private_work@ == s.private_work@
            &&& work_items(post.scheds@[i].work) == work_items(s.work).drop_first()
            &&& sched_ctrl_eq(post.scheds@[i], s)
            &&& forall|m: int|
                0 <= m < pre.scheds@.len() && m != i ==> sched_eq(
                    #[trigger] post.scheds@[m],
                    pre.scheds@[m],
                )
        } else if exists|k: int|
            0 <= k < s.neighbors@.len() && work_items(
                pre.scheds@[s.neighbors@[k] as int].work,
            ).len() > 0 {
            exists|k: int|
                {
                    let j = (#[trigger] s.neighbors@[k]) as int;
                    &&& 0 <= k < s.neighbors@.len()
                    &&& work_items(pre.scheds@[j].work).len() > 0
                    &&& (forall|m: int|
                        0 <= m < k ==> work_items(
                            pre.scheds@[#[trigger] s.neighbors@[m] as int].work,
                        ).len() == 0)
                    &&& r == Some(work_items(pre.scheds@[j].work)[0])
                    &&& work_items(post.scheds@[j].work) == work_items(
                        pre.scheds@[j].work,
                    ).drop_first()
                    &&& post.scheds@[j].private_work@ == pre.scheds@[j].private_work@
                    &&& sched_ctrl_eq(post.scheds@[j], pre.scheds@[j])
                    &&& forall|m: int|
                        0 <= m < pre.scheds@.len() && m != j ==> sched_eq(
                            #[trigger] post.scheds@[m],
                            pre.scheds@[m],
                        )
                }
        } else {
            &&& r is None
            &&& forall|m: int|
                0 <= m < pre.scheds@.len() ==> sched_eq(#[trigger] post.scheds@[m], pre.scheds@[m])
        }
    }

    /// The effect of handing one ready coroutine to `resume` and acting
    /// on what came back: an ordinary yield requeues it with worker `i`,
    /// a park leaves it to its event, and a normal return or a contained
    /// panic retires it — the handle is dropped, so the coroutine is
    /// unwound and its stack goes back to the pool. A queued identity
    /// whose coroutine is no longer resumable is skipped.
    pub open spec fn resumed_work(
        pre: Cluster,
        post: Cluster,
        i: int,
        id: int,
        r: Option<State>,
    ) -> bool {
        let c = pre.env.coroutines@[id];
        let ru = run_ops(
            c.ops@,
            c.pc as int,
            c.live as int,
            pre.env.pool.stacks@,
            pre.env.pool.next_id,
            pre.env.pool.max_cached as int,
        );
        &&& post.scheds@.len() == pre.scheds@.len()
        &&& post.env.coroutines@.len() == pre.env.coroutines@.len()
        &&& if c.state == State::Suspended || c.state == State::Blocked {
            &&& r == Some(state_after(ru.term))
            &&& post.env.output@ == pre.env.output@ + ru.emitted
            &&& post.env.active@ == pre.env.active@
            &&& post.env.pool.max_cached == pre.env.pool.max_cached
            &&& post.env.pool.next_id == ru.next
            &&& (forall|k: int|
                0 <= k < pre.env.coroutines@.len() && k != id ==> post.env.coroutines@[k]
                    == pre.env.coroutines@[k])
            &&& match ru.term {
                Term::Yielded => {
                    &&& post.env.coroutines@[id] == Self::resumed_entry(c, ru)
                    &&& post.env.pool.stacks@ == ru.stacks
                    &&& (forall|k: int|
                        0 <= k < pre.scheds@.len() && k != i ==> sched_eq(
                            #[trigger] post.scheds@[k],
                            pre.scheds@[k],
                        ))
                    &&& ({
                        let a = post.scheds@[i];
                        let b = pre.scheds@[i];
                        &&& (b.private_work@.len() < MAX_PRIVATE_WORK_NUM ==> a.private_work@
                            == b.private_work@.push(id as usize) && work_items(a.work)
                            == work_items(b.work))
                        &&& (b.private_work@.len() >= MAX_PRIVATE_WORK_NUM ==> a.private_work@
                            == b.private_work@ && work_items(a.work) == work_items(b.work).push(
                            id as usize,
                        ))
                        &&& sched_ctrl_eq(a, b)
                    })
                },
                Term::Parked => {
                    &&& post.env.coroutines@[id] == Self::resumed_entry(c, ru)
                    &&& post.env.pool.stacks@ == ru.stacks
                    &&& (forall|k: int|
                        0 <= k < pre.scheds@.len() ==> sched_eq(
                            #[trigger] post.scheds@[k],
                            pre.scheds@[k],
                        ))
                },
                _ => {
                    &&& post.env.coroutines@[id] == Self::unwound_entry(
                        Self::resumed_entry(c, ru),
                    )
                    &&& (match c.stack {
                        Some(st) => post.env.pool.stacks@ == pool_give(
                            ru.stacks,
                            st,
                            pre.env.pool.max_cached as int,
                        ),
                        None => post.env.pool.stacks@ == ru.stacks,
                    })
                    &&& (forall|k: int|
                        0 <= k < pre.scheds@.len() ==> sched_eq(
                            #[trigger] post.scheds@[k],
                            pre.scheds@[k],
                        ))
                },
            }
        } else {
            &&& r is None
            &&& post.env == pre.env
            &&& forall|k: int|
                0 <= k < pre.scheds@.len() ==> sched_eq(#[trigger] post.scheds@[k], pre.scheds@[k])
        }
    }

    /// A fresh cluster: a fresh world and no schedulers yet.
    pub fn new() -> (r: Cluster)
        ensures
            r.wf(),
            r.scheds@.len() == 0,
            r.env.coroutines@.len() == 1,
            r.env.output@.len() == 0,
    {
        Cluster { scheds: Vec::new(), env: Environment::new() }
    }

    /// Register one more scheduler: it learns of every existing sibling,
    /// and each existing sibling is told of the newcomer by a message.
    pub fn add_scheduler(&mut self) -> (i: usize)
        requires
            old(self).wf(),
        ensures
            final(self).wf(),
            i == old(self).scheds@.len(),
            final(self).scheds@.len() == old(self).scheds@.len() + 1,
            final(self).env == old(self).env,
            forall|k: int|
                0 <= k < old(self).scheds@.len() ==> {
                    let a = #[trigger] final(self).scheds@[k];
                    let b = old(self).scheds@[k];
                    &&& a.messages@ == b.messages@.push(SchedMessage::NewNeighbor(i))
                    &&& a.private_work == b.private_work
                    &&& work_items(a.work) == work_items(b.work)
                    &&& a.neighbors == b.neighbors
                    &&& a.slab == b.slab
                    &&& a.next_token == b.next_token
                    &&& a.shutdown == b.shutdown
                },
            ({
                let s = final(self).scheds@[i as int];
                &&& s.private_work@.len() == 0
                &&& work_items(s.work).len() == 0
                &&& s.messages@.len() == 0
                &&& s.slab@.len() == 0
                &&& s.neighbors@.len() == i
                &&& (forall|k: int| 0 <= k < i ==> #[trigger] s.neighbors@[k] == k)
                &&& !s.shutdown
            }),
    {
        let i = self.scheds.len();
        let mut k: usize = 0;
        while k < i
            invariant
                i == self.scheds@.len(),
                0 <= k <= i,
                self.env == old(self).env,
                forall|j: int|
                    0 <= j < k ==> {
                        let a = #[trigger] self.scheds@[j];
                        let b = old(self).scheds@[j];
                        &&& a.messages@ == b.messages@.push(SchedMessage::NewNeighbor(i))
                        &&& a.private_work == b.private_work
                        &&& work_items(a.work) == work_items(b.work)
                        &&& a.neighbors == b.neighbors
                        &&& a.slab == b.slab
                        &&& a.next_token == b.next_token
                        &&& a.shutdown == b.shutdown
                    },
                forall|j: int| k <= j < i ==> self.scheds@[j] == old(self).scheds@[j],
            decreases i - k,
        {
            let ghost prev = self.scheds@;
            let mut s = self.scheds.remove(k);
            s.messages.push(SchedMessage::NewNeighbor(i));
            self.scheds.insert(k, s);
            proof {
                assert(self.scheds@ =~= prev.update(k as int, self.scheds@[k as int]));
            }
            k = k + 1;
        }
        let mut neighbors: Vec<usize> = Vec::new();
        let mut k2: usize = 0;
        while k2 < i
            invariant
                0 <= k2 <= i,
                neighbors@.len() == k2,
                forall|j: int| 0 <= j < k2 ==> #[trigger] neighbors@[j] == j,
            decreases i - k2,
        {
            neighbors.push(k2);
            k2 = k2 + 1;
        }
        self.scheds.push(Scheduler::with_neighbors(neighbors));
        proof {
            assert forall|j: int| 0 <= j < self.scheds@.len() implies #[trigger] self.sched_wf(
                j,
            ) by {
                if j < i {
                    assert(old(self).sched_wf(j));
                }
            }
        }
        i
    }

    /// Broadcast shutdown to every registered scheduler, as the end of a
    /// run does.
    pub fn shutdown_all(&mut self)
        requires
            old(self).wf(),
        ensures
            final(self).wf(),
            final(self).env == old(self).env,
            final(self).scheds@.len() == old(self).scheds@.len(),
            forall|k: int|
                0 <= k < old(self).scheds@.len() ==> {
                    let a = #[trigger] final(self).scheds@[k];
                    let b = old(self).scheds@[k];
                    &&& a.messages@ == b.messages@.push(SchedMessage::Shutdown)
                    &&& a.private_work == b.private_work
                    &&& work_items(a.work) == work_items(b.work)
                    &&& a.neighbors == b.neighbors
                    &&& a.slab == b.slab
                    &&& a.next_token == b.next_token
                    &&& a.shutdown == b.shutdown
                },
    {
        let n = self.scheds.len();
        let mut k: usize = 0;
        while k < n
            invariant
                n == self.scheds@.len(),
                0 <= k <= n,
                self.env == old(self).env,
                forall|j: int|
                    0 <= j < k ==> {
                        let a = #[trigger] self.scheds@[j];
                        let b = old(self).scheds@[j];
                        &&& a.messages@ == b.messages@.push(SchedMessage::Shutdown)
                        &&& a.private_work == b.private_work
                        &&& work_items(a.work) == work_items(b.work)
                        &&& a.neighbors == b.neighbors
                        &&& a.slab == b.slab
                        &&& a.next_token == b.next_token
                        &&& a.shutdown == b.shutdown
                    },
                forall|j: int| k <= j < n ==> self.scheds@[j] == old(self).scheds@[j],
            decreases n - k,
        {
            let ghost prev = self.scheds@;
            let mut s = self.scheds.remove(k);
            s.messages.push(SchedMessage::Shutdown);
            self.scheds.insert(k, s);
            proof {
                assert(self.scheds@ =~= prev.update(k as int, self.scheds@[k as int]));
            }
            k = k + 1;
        }
        proof {
            assert forall|j: int| 0 <= j < self.scheds@.len() implies #[trigger] self.sched_wf(
                j,
            ) by {
                assert(old(self).sched_wf(j));
            }
        }
    }

    /// Create a coroutine in the world and enqueue it with worker `i`.
    pub fn spawn(&mut self, i: usize, body: Vec<crate::body::Op>) -> (id: usize)
        requires
            old(self).wf(),
            i < old(self).scheds@.len(),
        ensures
            final(self).wf(),
            id == old(self).env.coroutines@.len(),
            final(self).env.coroutines@.len() == old(self).env.coroutines@.len() + 1,
            final(self).env.coroutines@[id as int].state == State::Suspended,
            final(self).env.coroutines@[id as int].ops == body,
            final(self).env.output@ == old(self).env.output@,
            forall|k: int|
                0 <= k < old(self).env.coroutines@.len() ==> final(self).env.coroutines@[k] == old(
                    self,
                ).env.coroutines@[k],
            final(self).scheds@.len() == old(self).scheds@.len(),
            forall|k: int|
                0 <= k < old(self).scheds@.len() && k != i ==> sched_eq(
                    #[trigger] final(self).scheds@[k],
                    old(self).scheds@[k],
                ),
            ({
                let a = final(self).scheds@[i as int];
                let b = old(self).scheds@[i as int];
                &&& (b.private_work@.len() < MAX_PRIVATE_WORK_NUM ==> a.private_work@
                    == b.private_work@.push(id) && work_items(a.work) == work_items(b.work))
                &&& (b.private_work@.len() >= MAX_PRIVATE_WORK_NUM ==> a.private_work@
                    == b.private_work@ && work_items(a.work) == work_items(b.work).push(id))
                &&& a.messages == b.messages
                &&& a.neighbors == b.neighbors
                &&& a.slab == b.slab
                &&& a.next_token == b.next_token
                &&& a.shutdown == b.shutdown
            }),
    {
        let h = Coroutine::spawn(&mut self.env, body);
        let id = h.id;
        let mut s = self.scheds.remove(i);
        s.ready(id);
        self.scheds.insert(i, s);
        proof {
            assert(self.scheds@ =~= old(self).scheds@.update(i as int, self.scheds@[i as int]));
            assert forall|j: int| 0 <= j < self.scheds@.len() implies #[trigger] self.sched_wf(
                j,
            ) by {
                assert(old(self).sched_wf(j));
            }
        }
        id
    }

    /// Find one unit of ready work for worker `i`: the private FIFO
    /// first (recently readied, cache-hot), then the worker's own
    /// stealable deque, then the siblings' deques in order. The item
    /// found leaves its queue; a worker with idle queues finds work
    /// whenever any sibling has some — no worker starves while work
    /// exists.
    #[verifier::loop_isolation(false)]
    pub fn find_work(&mut self, i: usize) -> (r: Option<usize>)
        requires
            old(self).wf(),
            i < old(self).scheds@.len(),
        ensures
            final(self).wf(),
            r is Some <==> old(self).has_work(i as int),
            r is Some ==> (match r {
                Some(id) => id < final(self).env.coroutines@.len(),
                None => false,
            }),
            Self::found_work(*old(self), *final(self), i as int, r),
    {
        let ghost pre = *old(self);
        if self.scheds[i].private_work.len() > 0 {
            let ghost prev = self.scheds@;
            let mut s = self.scheds.remove(i);
            let id = s.private_work.remove(0);
            self.scheds.insert(i, s);
            proof {
                assert(self.scheds@ =~= prev.update(i as int, self.scheds@[i as int]));
                assert(pre.sched_wf(i as int));
                assert(self.scheds@[i as int].private_work@ =~= pre.scheds@[i as int]
                    .private_work@.drop_first());
                assert forall|j: int| 0 <= j < self.scheds@.len() implies #[trigger] self.sched_wf(
                    j,
                ) by {
                    assert(pre.sched_wf(j));
                    if j == i as int {
                        assert forall|q: int|
                            0 <= q < self.scheds@[j].private_work@.len() implies #[trigger] self
                            .scheds@[j].private_work@[q] < self.env.coroutines@.len() by {
                            assert(self.scheds@[j].private_work@[q] == pre.scheds@[j]
                                .private_work@[q + 1]);
                        }
                    }
                }
            }
            return Some(id);
        }
        let ghost prev = self.scheds@;
        let mut s = self.scheds.remove(i);
        let own = work_queue_steal(&mut s.work);
        self.scheds.insert(i, s);
        proof {
            assert(self.scheds@ =~= prev.update(i as int, self.scheds@[i as int]));
        }
        if let Some(id) = own {
            proof {
                assert(pre.sched_wf(i as int));
                assert(work_items(self.scheds@[i as int].work) == work_items(
                    pre.scheds@[i as int].work,
                ).drop_first());
                assert forall|j: int| 0 <= j < self.scheds@.len() implies #[trigger] self.sched_wf(
                    j,
                ) by {
                    assert(pre.sched_wf(j));
                    if j == i as int {
                        assert forall|q: int|
                            0 <= q < work_items(self.scheds@[j].work).len() implies #[trigger] work_items(
                            self.scheds@[j].work,
                        )[q] < self.env.coroutines@.len() by {
                            assert(work_items(self.scheds@[j].work)[q] == work_items(
                                pre.scheds@[j].work,
                            )[q + 1]);
                        }
                    }
                }
            }
            return Some(id);
        }
        proof {
            assert forall|j: int| 0 <= j < self.scheds@.len() implies #[trigger] self.sched_wf(
                j,
            ) by {
                assert(pre.sched_wf(j));
            }
        }
        let nn = self.scheds[i].neighbors.len();
        let mut k: usize = 0;
        while k < nn
            invariant
                self.wf(),
                i < self.scheds@.len(),
                nn == self.scheds@[i as int].neighbors@.len(),
                0 <= k <= nn,
                self.env == pre.env,
                self.scheds@.len() == pre.scheds@.len(),
                self.scheds@[i as int].neighbors == pre.scheds@[i as int].neighbors,
                forall|m: int|
                    0 <= m < pre.scheds@.len() ==> sched_eq(
                        #[trigger] self.scheds@[m],
                        pre.scheds@[m],
                    ),
                pre.scheds@[i as int].private_work@.len() == 0,
                work_items(pre.scheds@[i as int].work).len() == 0,
                forall|m: int|
                    0 <= m < k ==> work_items(
                        pre.scheds@[#[trigger] pre.scheds@[i as int].neighbors@[m] as int].work,
                    ).len() == 0,
            decreases nn - k,
        {
            proof {
                assert(self.sched_wf(i as int));
            }
            let j = self.scheds[i].neighbors[k];
            let ghost prev2 = self.scheds@;
            let mut sj = self.scheds.remove(j);
            let got = work_queue_steal(&mut sj.work);
            self.scheds.insert(j, sj);
            proof {
                assert(self.scheds@ =~= prev2.update(j as int, self.scheds@[j as int]));
            }
            if let Some(id) = got {
                proof {
                    assert(pre.sched_wf(j as int));
                    assert(work_items(self.scheds@[j as int].work) == work_items(
                        pre.scheds@[j as int].work,
                    ).drop_first());
                    assert forall|m: int|
                        0 <= m < self.scheds@.len() implies #[trigger] self.sched_wf(m) by {
                        assert(pre.sched_wf(m));
                        if m == j as int {
                            assert forall|q: int|
                                0 <= q < work_items(self.scheds@[m].work).len() implies #[trigger] work_items(
                                self.scheds@[m].work,
                            )[q] < self.env.coroutines@.len() by {
                                assert(work_items(self.scheds@[m].work)[q] == work_items(
                                    pre.scheds@[m].work,
                                )[q + 1]);
                            }
                        }
                    }
                }
                return Some(id);
            }
            proof {
                assert forall|m: int| 0 <= m < self.scheds@.len() implies #[trigger] self.sched_wf(
                    m,
                ) by {
                    assert(pre.sched_wf(m));
                }
            }
            k = k + 1;
        }
        None
    }

    /// Hand one ready coroutine to `resume` and act on what came back:
    /// a coroutine that merely yielded is readied again with worker
    /// `i`; one blocked on an event is left to the event; one that
    /// finished or panicked is dropped, which unwinds it and reclaims
    /// its stack. A queued identity whose coroutine is no longer
    /// resumable is skipped, as stale.
    pub fn resume_coroutine(&mut self, i: usize, id: usize) -> (r: Option<State>)
        requires
            old(self).wf(),
            i < old(self).scheds@.len(),
            id < old(self).env.coroutines@.len(),
        ensures
            final(self).wf(),
            Self::resumed_work(*old(self), *final(self), i as int, id as int, r),
    {
        let st = self.env.coroutines[id].state;
        match st {
            State::Suspended | State::Blocked => {},
            _ => {
                return None;
            },
        }
        let h = Handle { id };
        let _ = h.resume(&mut self.env);
        let new_st = h.state(&self.env);
        match new_st {
            State::Suspended => {
                let ghost prev = self.scheds@;
                let mut s = self.scheds.remove(i);
                s.ready(id);
                self.scheds.insert(i, s);
                proof {
                    assert(self.scheds@ =~= prev.update(i as int, self.scheds@[i as int]));
                    assert forall|m: int|
                        0 <= m < self.scheds@.len() implies #[trigger] self.sched_wf(m) by {
                        assert(old(self).sched_wf(m));
                    }
                }
            },
            State::Blocked => {
                proof {
                    assert forall|m: int|
                        0 <= m < self.scheds@.len() implies #[trigger] self.sched_wf(m) by {
                        assert(old(self).sched_wf(m));
                    }
                }
            },
            State::Finished | State::Panicked => {
                proof {
                    assert(id >= 1);
                }
                let _ = h.force_unwind(&mut self.env);
                proof {
                    assert forall|m: int|
                        0 <= m < self.scheds@.len() implies #[trigger] self.sched_wf(m) by {
                        assert(old(self).sched_wf(m));
                    }
                }
            },
            _ => {
                vstd::pervasive::unreached::<()>();
            },
        }
        Some(new_st)
    }

    /// One scheduling decision of worker `i`: observe shutdown; else
    /// drain one control message; else dispatch one fired event to the
    /// coroutine blocked on it; else resume one unit of ready work,
    /// found locally or stolen; else report idleness — the real loop's
    /// backoff sleep. The worker makes progress whenever any worker has
    /// ready work.
    pub fn step(&mut self, i: usize, event: Option<usize>) -> (r: StepOutcome)
        requires
            old(self).wf(),
            i < old(self).scheds@.len(),
        ensures
            final(self).wf(),
            final(self).scheds@.len() == old(self).scheds@.len(),
            ({
                let s = old(self).scheds@[i as int];
                if s.shutdown {
                    &&& r == StepOutcome::Shut
                    &&& final(self).env == old(self).env
                    &&& forall|m: int|
                        0 <= m < old(self).scheds@.len() ==> sched_eq(
                            #[trigger] final(self).scheds@[m],
                            old(self).scheds@[m],
                        )
                } else if s.messages@.len() > 0 {
                    &&& r == StepOutcome::Control
                    &&& final(self).env == old(self).env
                    &&& (forall|m: int|
                        0 <= m < old(self).scheds@.len() && m != i ==> sched_eq(
                            #[trigger] final(self).scheds@[m],
                            old(self).scheds@[m],
                        ))
                    &&& ({
                        let a = final(self).scheds@[i as int];
                        &&& a.messages@ == s.messages@.drop_first()
                        &&& a.private_work == s.private_work
                        &&& work_items(a.work) == work_items(s.work)
                        &&& a.slab == s.slab
                        &&& a.next_token == s.next_token
                        &&& (match s.messages@[0] {
                            SchedMessage::NewNeighbor(j) => a.neighbors@ == s.neighbors@.push(j)
                                && a.shutdown == s.shutdown,
                            SchedMessage::Shutdown => a.neighbors == s.neighbors && a.shutdown,
                        })
                    })
                } else if event is Some {
                    match event {
                        Some(t) => {
                            if exists|k: int| 0 <= k < s.slab@.len() && s.slab@[k].0 == t {
                                exists|k: int|
                                    {
                                        let id = (#[trigger] s.slab@[k]).1;
                                        &&& 0 <= k < s.slab@.len()
                                        &&& s.slab@[k].0 == t
                                        &&& (forall|j: int| 0 <= j < k ==> s.slab@[j].0 != t)
                                        &&& r == StepOutcome::Woken(id)
                                        &&& final(self).env == old(self).env
                                        &&& (forall|m: int|
                                            0 <= m < old(self).scheds@.len() && m != i ==> sched_eq(
                                                #[trigger] final(self).scheds@[m],
                                                old(self).scheds@[m],
                                            ))
                                        &&& ({
                                            let a = final(self).scheds@[i as int];
                                            &&& a.slab@ == s.slab@.remove(k)
                                            &&& (s.private_work@.len() < MAX_PRIVATE_WORK_NUM
                                                ==> a.private_work@ == s.private_work@.push(id)
                                                && work_items(a.work) == work_items(s.work))
                                            &&& (s.private_work@.len() >= MAX_PRIVATE_WORK_NUM
                                                ==> a.private_work@ == s.private_work@
                                                && work_items(a.work) == work_items(s.work).push(
                                                id,
                                            ))
                                            &&& a.messages == s.messages
                                            &&& a.neighbors == s.neighbors
                                            &&& a.next_token == s.next_token
                                            &&& a.shutdown == s.shutdown
                                        })
                                    }
                            } else {
                                &&& r == StepOutcome::Spurious
                                &&& final(self).env == old(self).env
                                &&& forall|m: int|
                                    0 <= m < old(self).scheds@.len() ==> sched_eq(
                                        #[trigger] final(self).scheds@[m],
                                        old(self).scheds@[m],
                                    )
                            }
                        },
                        None => false,
                    }
                } else if old(self).has_work(i as int) {
                    exists|id: usize, mid: Cluster, rr: Option<State>|
                        {
                            &&& r == StepOutcome::Resumed(id)
                            &&& Self::found_work(*old(self), mid, i as int, Some(id))
                            &&& id < mid.env.coroutines@.len()
                            &&& mid.wf()
                            &&& Self::resumed_work(mid, *final(self), i as int, id as int, rr)
                        }
                } else {
                    &&& r == StepOutcome::Idle
                    &&& final(self).env == old(self).env
                    &&& forall|m: int|
                        0 <= m < old(self).scheds@.len() ==> sched_eq(
                            #[trigger] final(self).scheds@[m],
                            old(self).scheds@[m],
                        )
                }
            }),
    {
        if self.scheds[i].shutdown {
            return StepOutcome::Shut;
        }
        if self.scheds[i].messages.len() > 0 {
            let ghost prev = self.scheds@;
            let mut s = self.scheds.remove(i);
            let msg = s.messages.remove(0);
            match msg {
                SchedMessage::NewNeighbor(j) => {
                    s.neighbors.push(j);
                },
                SchedMessage::Shutdown => {
                    s.shutdown = true;
                },
            }
            self.scheds.insert(i, s);
            proof {
                assert(self.scheds@ =~= prev.update(i as int, self.scheds@[i as int]));
                assert forall|m: int| 0 <= m < self.scheds@.len() implies #[trigger] self.sched_wf(
                    m,
                ) by {
                    assert(old(self).sched_wf(m));
                    if m == i as int {
                        assert forall|q: int|
                            0 <= q < self.scheds@[m].messages@.len() && (#[trigger] self
                            .scheds@[m].messages@[q]) is NewNeighbor implies self
                            .scheds@[m].messages@[q]->NewNeighbor_0 < self.scheds@.len() && self
                            .scheds@[m].messages@[q]->NewNeighbor_0 != m by {
                            assert(self.scheds@[m].messages@[q] == old(
                                self,
                            ).scheds@[m].messages@[q + 1]);
                        }
                    }
                }
            }
            return StepOutcome::Control;
        }
        if let Some(t) = event {
            let ghost prev = self.scheds@;
            let mut s = self.scheds.remove(i);
            let woken = s.handle_event(t);
            match woken {
                Some(id) => {
                    let ghost s0 = old(self).scheds@[i as int];
                    proof {
                        assert(old(self).sched_wf(i as int));
                        let kk = choose|kk: int|
                            {
                                &&& 0 <= kk < s0.slab@.len()
                                &&& (#[trigger] s0.slab@[kk]).0 == t
                                &&& (forall|j: int| 0 <= j < kk ==> s0.slab@[j].0 != t)
                                &&& woken == Some(s0.slab@[kk].1)
                                &&& s.slab@ == s0.slab@.remove(kk)
                            };
                        assert(id == s0.slab@[kk].1);
                        assert(id < self.env.coroutines@.len());
                        assert forall|q: int|
                            0 <= q < s.slab@.len() implies (#[trigger] s.slab@[q]).1 < self
                            .env.coroutines@.len() by {
                            if q < kk {
                                assert(s.slab@[q] == s0.slab@[q]);
                            } else {
                                assert(s.slab@[q] == s0.slab@[q + 1]);
                            }
                        }
                    }
                    s.ready(id);
                    self.scheds.insert(i, s);
                    proof {
                        assert(self.scheds@ =~= prev.update(i as int, self.scheds@[i as int]));
                        assert forall|m: int|
                            0 <= m < self.scheds@.len() implies #[trigger] self.sched_wf(m) by {
                            assert(old(self).sched_wf(m));
                        }
                    }
                    return StepOutcome::Woken(id);
                },
                None => {
                    self.scheds.insert(i, s);
                    proof {
                        assert(self.scheds@ =~= prev.update(i as int, self.scheds@[i as int]));
                        assert forall|m: int|
                            0 <= m < self.scheds@.len() implies #[trigger] self.sched_wf(m) by {
                            assert(old(self).sched_wf(m));
                        }
                    }
                    return StepOutcome::Spurious;
                },
            }
        }
        match self.find_work(i) {
            Some(id) => {
                let ghost mid = *self;
                let rr = self.resume_coroutine(i, id);
                proof {
                    assert(Self::found_work(*old(self), mid, i as int, Some(id)));
                    assert(Self::resumed_work(mid, *self, i as int, id as int, rr));
                }
                StepOutcome::Resumed(id)
            },
            None => StepOutcome::Idle,
        }
    }
}

} // verus!
