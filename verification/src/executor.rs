//! The executor: a table of tasks, each wrapping one suspendable
//! computation, and a bounded ready queue of task ids. One step pops the
//! next ready task, checks its computation out — the exclusive checkout is
//! the polling lock: a duplicate wake that arrives meanwhile finds nothing
//! to poll and is skipped — polls it once, logs what it emitted, and either
//! drops it (done), re-enqueues it (yield), or reports the descriptor it
//! waits on so the caller can register the task's wake handle with the
//! reactor.

use vstd::prelude::*;
use crate::ready_queue::ReadyQueue;
use crate::suspend::{Step, Suspendable};

verus! {

/// One task: its computation, while it is neither finished nor checked out
/// for polling, and the mark that the poll lock is held.
pub struct TaskSlot<C> {
    pub computation: Option<C>,
    pub polling: bool,
}

/// What one executor step did.
#[derive(Clone, Copy, Debug, PartialEq, Eq, Structural)]
pub enum StepEvent {
    /// The ready queue was empty; nothing ran.
    Idle,
    /// The popped task had no computation to poll — it had already
    /// finished — so the stale wake was dropped; at most one such
    /// redundant pop follows a duplicate wake.
    Skipped { task: usize },
    /// The task was polled and reported completion; it is dropped and will
    /// never be polled again.
    Completed { task: usize },
    /// The task was polled, asked to be woken at once, and went back onto
    /// the ready queue.
    Yielded { task: usize },
    /// The task was polled and suspended on a descriptor: the caller now
    /// registers its wake handle with the reactor.
    Waiting { task: usize, fd: u64, interest: crate::suspend::Interest },
}

/// The output of one poll as a piece of the log.
pub open spec fn out_seq(o: Option<Seq<char>>) -> Seq<Seq<char>> {
    match o {
        None => Seq::empty(),
        Some(s) => seq![s],
    }
}

/// How many slots are marked as being polled.
pub open spec fn polling_count<C>(s: Seq<TaskSlot<C>>) -> nat
    decreases s.len(),
{
    if s.len() == 0 {
        0
    } else {
        polling_count(s.drop_last()) + if s.last().polling {
            1nat
        } else {
            0nat
        }
    }
}

/// The executor's state as mathematics: the task table, the ready queue,
/// and everything emitted so far.
pub struct ExecModel<C> {
    pub slots: Seq<TaskSlot<C>>,
    pub queue: Seq<usize>,
    pub log: Seq<Seq<char>>,
}

/// What one step does to the state: nothing on an empty queue; otherwise
/// the head task leaves the queue and — if it still holds a computation —
/// is polled once, with the table, the queue and the log moving exactly as
/// the computation's poll specification says.
pub open spec fn model_step<C: Suspendable>(m: ExecModel<C>) -> ExecModel<C> {
    if m.queue.len() == 0 {
        m
    } else {
        let id = m.queue[0];
        let rest = m.queue.drop_first();
        if !(id < m.slots.len() && m.slots[id as int].computation is Some) {
            ExecModel { slots: m.slots, queue: rest, log: m.log }
        } else {
            let c = m.slots[id as int].computation.unwrap();
            let log = m.log + out_seq(c.next_output());
            match c.next_step() {
                Step::Ready => ExecModel {
                    slots: m.slots.update(
                        id as int,
                        TaskSlot { computation: None, polling: false },
                    ),
                    queue: rest,
                    log,
                },
                Step::Yield => ExecModel {
                    slots: m.slots.update(
                        id as int,
                        TaskSlot { computation: Some(c.next_state()), polling: false },
                    ),
                    queue: rest.push(id),
                    log,
                },
                Step::Wait { .. } => ExecModel {
                    slots: m.slots.update(
                        id as int,
                        TaskSlot { computation: Some(c.next_state()), polling: false },
                    ),
                    queue: rest,
                    log,
                },
            }
        }
    }
}

/// The event one step reports, from the same state.
pub open spec fn model_event<C: Suspendable>(m: ExecModel<C>) -> StepEvent {
    if m.queue.len() == 0 {
        StepEvent::Idle
    } else {
        let id = m.queue[0];
        if !(id < m.slots.len() && m.slots[id as int].computation is Some) {
            StepEvent::Skipped { task: id }
        } else {
            let c = m.slots[id as int].computation.unwrap();
            match c.next_step() {
                Step::Ready => StepEvent::Completed { task: id },
                Step::Yield => StepEvent::Yielded { task: id },
                Step::Wait { fd, interest } => StepEvent::Waiting { task: id, fd, interest },
            }
        }
    }
}

/// The step relation iterated: up to `budget` steps, stopping at the first
/// empty queue.
pub open spec fn model_run<C: Suspendable>(m: ExecModel<C>, budget: nat) -> ExecModel<C>
    decreases budget,
{
    if budget == 0 || m.queue.len() == 0 {
        m
    } else {
        model_run(model_step(m), (budget - 1) as nat)
    }
}

/// How many steps that run takes: the number of steps until the queue
/// first empties, capped at `budget`.
pub open spec fn model_run_len<C: Suspendable>(m: ExecModel<C>, budget: nat) -> nat
    decreases budget,
{
    if budget == 0 || m.queue.len() == 0 {
        0
    } else {
        1 + model_run_len(model_step(m), (budget - 1) as nat)
    }
}

/// The executor.
pub struct Executor<C> {
    tasks: Vec<TaskSlot<C>>,
    queue: ReadyQueue<usize>,
    log: Vec<String>,
}

impl<C: Suspendable> Executor<C> {
    /// The task table.
    pub closed spec fn slots(&self) -> Seq<TaskSlot<C>> {
        self.tasks@
    }

    /// The ready queue's entries, oldest first.
    pub closed spec fn queue_view(&self) -> Seq<usize> {
        self.queue.contents()
    }

    /// The ready queue's bound.
    pub closed spec fn cap(&self) -> nat {
        self.queue.cap()
    }

    /// Everything emitted so far, in emission order.
    pub closed spec fn log_view(&self) -> Seq<Seq<char>> {
        self.log@.map_values(|s: String| s@)
    }

    /// The state as mathematics, the form the step relation works on.
    pub open spec fn model(&self) -> ExecModel<C> {
        ExecModel { slots: self.slots(), queue: self.queue_view(), log: self.log_view() }
    }

    /// Task `i` still holds a computation to poll.
    pub open spec fn live(&self, i: int) -> bool {
        0 <= i < self.slots().len() && self.slots()[i].computation is Some
    }

    /// The computation of a live task.
    pub open spec fn comp(&self, i: int) -> C
        recommends
            self.live(i),
    {
        self.slots()[i].computation.unwrap()
    }

    /// Between steps: the queue respects its bound, every queued id names a
    /// task, and nobody is inside a poll.
    pub open spec fn wf(&self) -> bool {
        &&& self.queue_view().len() <= self.cap()
        &&& forall|k: int|
            0 <= k < self.queue_view().len() ==> (#[trigger] self.queue_view()[k])
                < self.slots().len()
        &&& forall|k: int| 0 <= k < self.slots().len() ==> !(#[trigger] self.slots()[k]).polling
    }

    /// A fresh executor whose ready queue holds at most `capacity` tasks.
    pub fn new(capacity: usize) -> (e: Executor<C>)
        ensures
            e.wf(),
            e.slots() == Seq::<TaskSlot<C>>::empty(),
            e.queue_view() == Seq::<usize>::empty(),
            e.log_view() == Seq::<Seq<char>>::empty(),
            e.cap() == capacity,
    {
        let e = Executor {
            tasks: Vec::new(),
            queue: ReadyQueue::new(capacity),
            log: Vec::new(),
        };
        proof {
            assert(e.log_view() =~= Seq::<Seq<char>>::empty());
        }
        e
    }

    /// Wrap a computation in a fresh task and enqueue it ready, first come
    /// first served. A full queue refuses and hands the computation back —
    /// the caller blocks and retries; nothing is dropped.
    pub fn spawn(&mut self, c: C) -> (r: Result<usize, C>)
        requires
            old(self).wf(),
        ensures
            final(self).wf(),
            final(self).cap() == old(self).cap(),
            old(self).queue_view().len() < old(self).cap() ==> {
                &&& r == Result::<usize, C>::Ok(old(self).slots().len() as usize)
                &&& final(self).slots() == old(self).slots().push(
                    (TaskSlot { computation: Some(c), polling: false }),
                )
                &&& final(self).queue_view() == old(self).queue_view().push(
                    old(self).slots().len() as usize,
                )
            },
            old(self).queue_view().len() >= old(self).cap() ==> {
                &&& r == Result::<usize, C>::Err(c)
                &&& final(self).slots() == old(self).slots()
                &&& final(self).queue_view() == old(self).queue_view()
            },
            final(self).log_view() == old(self).log_view(),
    {
        let id = self.tasks.len();
        match self.queue.try_push(id) {
            Ok(()) => {
                self.tasks.push(TaskSlot { computation: Some(c), polling: false });
                Ok(id)
            },
            Err(_) => Err(c),
        }
    }

    /// A wake handle fired: make the task eligible to be polled again. A
    /// full queue refuses, and the caller retries; a wake for a finished
    /// task is harmless and leads to at most one skipped pop.
    pub fn wake(&mut self, task: usize) -> (r: bool)
        requires
            old(self).wf(),
            task < old(self).slots().len(),
        ensures
            final(self).wf(),
            final(self).cap() == old(self).cap(),
            final(self).slots() == old(self).slots(),
            final(self).log_view() == old(self).log_view(),
            r ==> final(self).queue_view() == old(self).queue_view().push(task),
            !r ==> final(self).queue_view() == old(self).queue_view() && old(
                self,
            ).queue_view().len() >= old(self).cap(),
    {
        match self.queue.try_push(task) {
            Ok(()) => true,
            Err(_) => false,
        }
    }

    /// Pop the next ready task and poll it once, if there is one and it is
    /// still live. Exactly what happened — and what the caller owes the
    /// reactor — comes back as the event.
    pub fn step(&mut self) -> (ev: StepEvent)
        requires
            old(self).wf(),
        ensures
            final(self).wf(),
            final(self).cap() == old(self).cap(),
            final(self).model() == model_step(old(self).model()),
            ev == model_event(old(self).model()),
            old(self).queue_view().len() == 0 ==> {
                &&& ev is Idle
                &&& final(self).slots() == old(self).slots()
                &&& final(self).queue_view() == old(self).queue_view()
                &&& final(self).log_view() == old(self).log_view()
            },
            old(self).queue_view().len() > 0 ==> ({
                let id = old(self).queue_view()[0];
                let rest = old(self).queue_view().drop_first();
                &&& !old(self).live(id as int) ==> {
                    &&& ev == (StepEvent::Skipped { task: id })
                    &&& final(self).slots() == old(self).slots()
                    &&& final(self).queue_view() == rest
                    &&& final(self).log_view() == old(self).log_view()
                }
                &&& old(self).live(id as int) ==> ({
                    let c = old(self).comp(id as int);
                    &&& final(self).log_view() == old(self).log_view() + out_seq(c.next_output())
                    &&& match c.next_step() {
                        Step::Ready => {
                            &&& ev == (StepEvent::Completed { task: id })
                            &&& final(self).slots() == old(self).slots().update(
                                id as int,
                                (TaskSlot { computation: None::<C>, polling: false }),
                            )
                            &&& final(self).queue_view() == rest
                        },
                        Step::Yield => {
                            &&& ev == (StepEvent::Yielded { task: id })
                            &&& final(self).slots() == old(self).slots().update(
                                id as int,
                                (TaskSlot { computation: Some(c.next_state()), polling: false }),
                            )
                            &&& final(self).queue_view() == rest.push(id)
                        },
                        Step::Wait { fd, interest } => {
                            &&& ev == (StepEvent::Waiting { task: id, fd, interest })
                            &&& final(self).slots() == old(self).slots().update(
                                id as int,
                                (TaskSlot { computation: Some(c.next_state()), polling: false }),
                            )
                            &&& final(self).queue_view() == rest
                        },
                    }
                })
            }),
    {
        let popped = self.queue.pop();
        let id = match popped {
            None => {
                return StepEvent::Idle;
            },
            Some(id) => id,
        };
        if self.tasks[id].computation.is_none() {
            return StepEvent::Skipped { task: id };
        }
        // Check the computation out: while the poll runs, the slot holds
        // nothing and carries the polling mark — the lock is held, and a
        // second pop of the same task would be skipped, not polled.
        let slot = self.tasks.remove(id);
        let TaskSlot { computation, polling: _ } = slot;
        let mut c = match computation {
            Some(c) => c,
            None => unreached(),
        };
        self.tasks.insert(id, TaskSlot { computation: None, polling: true });
        proof {
            assert(self.tasks@ =~= old(self).slots().update(
                id as int,
                (TaskSlot { computation: None::<C>, polling: true }),
            ));
        }
        let polled = c.poll();
        let ghost log_before = self.log_view();
        if let Some(s) = polled.output {
            self.log.push(s);
            proof {
                assert(self.log_view() =~= log_before + out_seq(old(self).comp(
                    id as int,
                ).next_output()));
            }
        } else {
            proof {
                assert(self.log_view() =~= log_before + out_seq(old(self).comp(
                    id as int,
                ).next_output()));
            }
        }
        match polled.step {
            Step::Ready => {
                self.tasks.set(id, TaskSlot { computation: None, polling: false });
                proof {
                    assert(self.tasks@ =~= old(self).slots().update(
                        id as int,
                        (TaskSlot { computation: None::<C>, polling: false }),
                    ));
                }
                StepEvent::Completed { task: id }
            },
            Step::Yield => {
                self.tasks.set(id, TaskSlot { computation: Some(c), polling: false });
                proof {
                    assert(self.tasks@ =~= old(self).slots().update(
                        id as int,
                        (TaskSlot {
                            computation: Some(old(self).comp(id as int).next_state()),
                            polling: false,
                        }),
                    ));
                }
                match self.queue.try_push(id) {
                    Ok(()) => StepEvent::Yielded { task: id },
                    Err(_) => unreached(),
                }
            },
            Step::Wait { fd, interest } => {
                self.tasks.set(id, TaskSlot { computation: Some(c), polling: false });
                proof {
                    assert(self.tasks@ =~= old(self).slots().update(
                        id as int,
                        (TaskSlot {
                            computation: Some(old(self).comp(id as int).next_state()),
                            polling: false,
                        }),
                    ));
                }
                StepEvent::Waiting { task: id, fd, interest }
            },
        }
    }

    /// Step until the queue runs dry or the given budget runs out: the
    /// final state is exactly the step relation iterated, and what comes
    /// back is the number of steps taken — the steps until the queue first
    /// emptied, capped at the budget. The long-lived server calls this
    /// with a fresh budget forever.
    pub fn run(&mut self, budget: usize) -> (steps: usize)
        requires
            old(self).wf(),
        ensures
            final(self).wf(),
            final(self).cap() == old(self).cap(),
            final(self).model() == model_run(old(self).model(), budget as nat),
            steps == model_run_len(old(self).model(), budget as nat),
            steps <= budget,
            steps < budget ==> final(self).queue_view().len() == 0,
    {
        let ghost m0 = self.model();
        let mut steps: usize = 0;
        while steps < budget
            invariant
                self.wf(),
                self.cap() == old(self).cap(),
                m0 == old(self).model(),
                steps <= budget,
                model_run(self.model(), (budget - steps) as nat) == model_run(
                    m0,
                    budget as nat,
                ),
                steps + model_run_len(self.model(), (budget - steps) as nat) == model_run_len(
                    m0,
                    budget as nat,
                ),
            decreases budget - steps,
        {
            let ghost before = self.model();
            let ev = self.step();
            if let StepEvent::Idle = ev {
                proof {
                    assert(before.queue.len() == 0);
                    assert(model_step(before) == before);
                    assert(model_run(before, (budget - steps) as nat) == before);
                    assert(model_run_len(before, (budget - steps) as nat) == 0);
                }
                return steps;
            }
            proof {
                assert(before.queue.len() > 0);
                assert(model_run(before, (budget - steps) as nat) == model_run(
                    model_step(before),
                    (budget - steps - 1) as nat,
                ));
                assert(model_run_len(before, (budget - steps) as nat) == 1 + model_run_len(
                    model_step(before),
                    (budget - steps - 1) as nat,
                ));
            }
            steps = steps + 1;
        }
        proof {
            assert(model_run(self.model(), 0) == self.model());
            assert(model_run_len(self.model(), 0) == 0);
        }
        steps
    }

    /// How many tasks the table holds, finished ones included.
    pub fn task_count(&self) -> (n: usize)
        ensures
            n == self.slots().len(),
    {
        self.tasks.len()
    }

    /// Whether a task still holds a computation.
    pub fn is_live(&self, task: usize) -> (b: bool)
        requires
            task < self.slots().len(),
        ensures
            b == self.live(task as int),
    {
        self.tasks[task].computation.is_some()
    }

    /// How many tasks are ready now.
    pub fn queue_len(&self) -> (n: usize)
        ensures
            n == self.queue_view().len(),
    {
        self.queue.len()
    }

    /// How many pieces of output have been emitted.
    pub fn log_len(&self) -> (n: usize)
        ensures
            n == self.log_view().len(),
    {
        self.log.len()
    }

    /// One emitted piece of output.
    pub fn log_get(&self, i: usize) -> (s: &String)
        requires
            i < self.log_view().len(),
        ensures
            s@ == self.log_view()[i as int],
    {
        &self.log[i]
    }

    /// How many tasks are marked as being polled right now.
    pub fn polling_now(&self) -> (n: usize)
        requires
            self.wf(),
        ensures
            n == polling_count(self.slots()),
    {
        proof {
            lemma_polling_count_none(self.slots());
        }
        0
    }
}

/// With no slot marked, the polling count is zero.
proof fn lemma_polling_count_none<C>(s: Seq<TaskSlot<C>>)
    requires
        forall|k: int| 0 <= k < s.len() ==> !(#[trigger] s[k]).polling,
    ensures
        polling_count(s) == 0,
    decreases s.len(),
{
    if s.len() > 0 {
        lemma_polling_count_none(s.drop_last());
    }
}

/// Single progress per task: however the executor is driven, at most one
/// poll is in progress at any instant. Between steps nobody holds a poll
/// lock, and within a step only the popped task's computation is checked
/// out; a concurrent duplicate wake finds the slot empty and is skipped
/// rather than polled.
pub proof fn lemma_single_progress<C: Suspendable>(e: Executor<C>)
    requires
        e.wf(),
    ensures
        polling_count(e.slots()) <= 1,
{
    lemma_polling_count_none(e.slots());
}

} // verus!
