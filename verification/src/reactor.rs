//! The reactor's bookkeeping: a cross-thread command queue of add/remove
//! requests, a table from armed descriptor to wake handle, and the set of
//! descriptors the readiness multiplexer already knows. The multiplexer
//! itself (arming syscalls, the blocking wait) stays outside; this state
//! machine decides what to arm, one-shot, and which handle to wake when a
//! descriptor fires.
//!
//! The wake handle type `W` is opaque to the bookkeeping: handles are
//! stored and handed back, never inspected.

use vstd::prelude::*;
use std::collections::{HashMap, HashSet, VecDeque};
use crate::suspend::Interest;

verus! {

broadcast use vstd::std_specs::hash::group_hash_axioms, vstd::std_specs::vecdeque::group_vec_dequeue_axioms;

/// A queued request: arm a descriptor and hold its wake handle, or disarm
/// it and drop the handle.
#[derive(Debug)]
pub enum Command<W> {
    Add { fd: u64, interest: Interest, wake: W },
    Remove { fd: u64 },
}

/// The multiplexer action a drained command calls for: arm a descriptor the
/// multiplexer has not seen, re-arm one it has (a second registration is a
/// re-arm, not an error), or disarm one.
#[derive(Clone, Copy, Debug, PartialEq, Eq, Structural)]
pub enum ArmOp {
    ArmNew { fd: u64, interest: Interest },
    Rearm { fd: u64, interest: Interest },
    Disarm { fd: u64 },
}

/// The command is an Add for this descriptor.
pub open spec fn is_add_for<W>(c: Command<W>, fd: u64) -> bool {
    match c {
        Command::Add { fd: f, .. } => f == fd,
        Command::Remove { .. } => false,
    }
}

/// What one command does to the interest table.
pub open spec fn interest_after<W>(m: Map<u64, W>, c: Command<W>) -> Map<u64, W> {
    match c {
        Command::Add { fd, interest, wake } => m.insert(fd, wake),
        Command::Remove { fd } => m.remove(fd),
    }
}

/// What one command does to the set of descriptors the multiplexer knows.
pub open spec fn known_after<W>(kn: Set<u64>, c: Command<W>) -> Set<u64> {
    match c {
        Command::Add { fd, .. } => kn.insert(fd),
        Command::Remove { fd } => kn.remove(fd),
    }
}

/// What a whole queue of commands does to the interest table, applied
/// oldest first.
pub open spec fn interest_after_all<W>(m: Map<u64, W>, cs: Seq<Command<W>>) -> Map<u64, W>
    decreases cs.len(),
{
    if cs.len() == 0 {
        m
    } else {
        interest_after_all(interest_after(m, cs[0]), cs.drop_first())
    }
}

/// What a whole queue of commands does to the known set, oldest first.
pub open spec fn known_after_all<W>(kn: Set<u64>, cs: Seq<Command<W>>) -> Set<u64>
    decreases cs.len(),
{
    if cs.len() == 0 {
        kn
    } else {
        known_after_all(known_after(kn, cs[0]), cs.drop_first())
    }
}

/// The multiplexer action called for by one command, given what the
/// multiplexer knows so far.
pub open spec fn arm_one<W>(kn: Set<u64>, c: Command<W>) -> ArmOp {
    match c {
        Command::Add { fd, interest, .. } => if kn.contains(fd) {
            ArmOp::Rearm { fd, interest }
        } else {
            ArmOp::ArmNew { fd, interest }
        },
        Command::Remove { fd } => ArmOp::Disarm { fd },
    }
}

/// The multiplexer actions called for by a whole queue, oldest first.
pub open spec fn arm_ops<W>(kn: Set<u64>, cs: Seq<Command<W>>) -> Seq<ArmOp>
    decreases cs.len(),
{
    if cs.len() == 0 {
        Seq::empty()
    } else {
        seq![arm_one(kn, cs[0])] + arm_ops(known_after(kn, cs[0]), cs.drop_first())
    }
}

/// The reactor's shared state.
pub struct Reactor<W> {
    pending: VecDeque<Command<W>>,
    interest: HashMap<u64, W>,
    known: HashSet<u64>,
}

impl<W> Reactor<W> {
    /// The queued commands, oldest first.
    pub closed spec fn pending_view(&self) -> Seq<Command<W>> {
        self.pending@
    }

    /// The armed descriptors and the wake handle each will fire.
    pub closed spec fn interest_map(&self) -> Map<u64, W> {
        self.interest@
    }

    /// The descriptors the multiplexer has been told about and not yet told
    /// to forget. One-shot firing disarms but does not remove, so this is a
    /// superset of the armed descriptors.
    pub closed spec fn known_set(&self) -> Set<u64> {
        self.known@
    }

    /// A descriptor is armed exactly when the interest table holds it.
    pub open spec fn armed(&self, fd: u64) -> bool {
        self.interest_map().contains_key(fd)
    }

    /// A fresh reactor: nothing queued, nothing armed, nothing known.
    pub fn new() -> (r: Reactor<W>)
        ensures
            r.pending_view() == Seq::<Command<W>>::empty(),
            r.interest_map() == Map::<u64, W>::empty(),
            r.known_set() == Set::<u64>::empty(),
    {
        Reactor { pending: VecDeque::new(), interest: HashMap::new(), known: HashSet::new() }
    }

    /// Queue a request to arm `fd` and wake `wake` on its readiness. Called
    /// from any thread; never blocks beyond the queue append. The caller
    /// signals the reactor's notification descriptor afterwards.
    pub fn register(&mut self, fd: u64, interest: Interest, wake: W)
        ensures
            final(self).pending_view() == old(self).pending_view().push(
                Command::Add { fd, interest, wake },
            ),
            final(self).interest_map() == old(self).interest_map(),
            final(self).known_set() == old(self).known_set(),
    {
        self.pending.push_back(Command::Add { fd, interest, wake });
    }

    /// Queue a request to disarm `fd` and drop its wake handle. Harmless if
    /// the descriptor is unknown by the time the queue is drained.
    pub fn unregister(&mut self, fd: u64)
        ensures
            final(self).pending_view() == old(self).pending_view().push(
                Command::Remove::<W> { fd },
            ),
            final(self).interest_map() == old(self).interest_map(),
            final(self).known_set() == old(self).known_set(),
    {
        self.pending.push_back(Command::Remove { fd });
    }

    /// Apply one command to the bookkeeping and say which multiplexer
    /// action it calls for: an Add arms (or re-arms, when the multiplexer
    /// already knows the descriptor) and stores the handle, displacing any
    /// earlier one; a Remove disarms and drops the stored handle, and is
    /// idempotent.
    pub fn apply(&mut self, c: Command<W>) -> (op: ArmOp)
        ensures
            final(self).interest_map() == interest_after(old(self).interest_map(), c),
            final(self).known_set() == known_after(old(self).known_set(), c),
            final(self).pending_view() == old(self).pending_view(),
            op == arm_one(old(self).known_set(), c),
    {
        match c {
            Command::Add { fd, interest, wake } => {
                let fresh = self.known.insert(fd);
                self.interest.insert(fd, wake);
                if fresh {
                    ArmOp::ArmNew { fd, interest }
                } else {
                    ArmOp::Rearm { fd, interest }
                }
            },
            Command::Remove { fd } => {
                self.interest.remove(&fd);
                self.known.remove(&fd);
                ArmOp::Disarm { fd }
            },
        }
    }

    /// Drain the command queue, oldest first, and return the multiplexer
    /// actions to perform, in order. This is what the reactor thread does
    /// when its notification descriptor fires.
    pub fn drain(&mut self) -> (ops: Vec<ArmOp>)
        ensures
            final(self).pending_view() == Seq::<Command<W>>::empty(),
            final(self).interest_map() == interest_after_all(
                old(self).interest_map(),
                old(self).pending_view(),
            ),
            final(self).known_set() == known_after_all(
                old(self).known_set(),
                old(self).pending_view(),
            ),
            ops@ == arm_ops(old(self).known_set(), old(self).pending_view()),
    {
        let ghost m0 = self.interest_map();
        let ghost kn0 = self.known_set();
        let ghost cs0 = self.pending_view();
        let mut ops: Vec<ArmOp> = Vec::new();
        while self.pending.len() > 0
            invariant
                interest_after_all(self.interest_map(), self.pending_view())
                    == interest_after_all(m0, cs0),
                known_after_all(self.known_set(), self.pending_view()) == known_after_all(
                    kn0,
                    cs0,
                ),
                ops@ + arm_ops(self.known_set(), self.pending_view()) == arm_ops(kn0, cs0),
            decreases self.pending_view().len(),
        {
            let ghost before = *self;
            let ghost ops_before = ops@;
            let c = match self.pending.pop_front() {
                Some(c) => c,
                None => unreached(),
            };
            let op = self.apply(c);
            ops.push(op);
            proof {
                assert(before.pending_view().drop_first() == self.pending_view());
                assert(ops@ =~= ops_before + seq![op]);
                assert(seq![op] + arm_ops(self.known_set(), self.pending_view()) == arm_ops(
                    before.known_set(),
                    before.pending_view(),
                ));
                assert(ops@ + arm_ops(self.known_set(), self.pending_view()) =~= ops_before + (
                seq![op] + arm_ops(self.known_set(), self.pending_view())));
            }
        }
        proof {
            assert(self.pending_view() =~= Seq::<Command<W>>::empty());
            assert(ops@ =~= ops@ + arm_ops(self.known_set(), self.pending_view()));
        }
        ops
    }

    /// Whether a descriptor is currently armed.
    pub fn is_armed(&self, fd: u64) -> (b: bool)
        ensures
            b == self.armed(fd),
    {
        self.interest.contains_key(&fd)
    }

    /// How many descriptors are armed; teardown brings this back to its
    /// baseline.
    pub fn armed_count(&self) -> (n: usize)
        ensures
            n == self.interest_map().dom().len(),
    {
        self.interest.len()
    }

    /// A readiness event arrived for an armed descriptor: take its wake
    /// handle out and hand it to the caller to invoke exactly once. The
    /// descriptor is disarmed by the firing (one-shot); it stays known, and
    /// must be registered again before the next wait for it.
    ///
    /// The multiplexer only reports descriptors it has armed, so an event
    /// for an unarmed one is an invariant violation; the caller checks with
    /// `is_armed` and treats that case as fatal.
    pub fn fire(&mut self, fd: u64) -> (w: W)
        requires
            old(self).armed(fd),
        ensures
            w == old(self).interest_map()[fd],
            final(self).interest_map() == old(self).interest_map().remove(fd),
            !final(self).armed(fd),
            final(self).known_set() == old(self).known_set(),
            final(self).pending_view() == old(self).pending_view(),
    {
        match self.interest.remove(&fd) {
            Some(w) => w,
            None => unreached(),
        }
    }

    /// A readiness event arrived: the wake handle, if the descriptor is
    /// armed, and nothing if it is not — after a one-shot firing, a second
    /// event for the same descriptor delivers nothing until the descriptor
    /// is registered again.
    pub fn deliver(&mut self, fd: u64) -> (w: Option<W>)
        ensures
            old(self).armed(fd) ==> {
                &&& w == Some(old(self).interest_map()[fd])
                &&& final(self).interest_map() == old(self).interest_map().remove(fd)
            },
            !old(self).armed(fd) ==> {
                &&& w is None
                &&& final(self).interest_map() == old(self).interest_map()
            },
            !final(self).armed(fd),
            final(self).known_set() == old(self).known_set(),
            final(self).pending_view() == old(self).pending_view(),
    {
        if self.is_armed(fd) {
            Some(self.fire(fd))
        } else {
            None
        }
    }
}

/// One-shot re-arm: once a descriptor has fired (so the interest table no
/// longer holds it), no queue of commands that lacks an Add for it can arm
/// it again — no second wake is delivered until it is explicitly
/// re-registered.
pub proof fn lemma_one_shot<W>(m: Map<u64, W>, kn: Set<u64>, cs: Seq<Command<W>>, fd: u64)
    requires
        !m.contains_key(fd),
        forall|i: int| 0 <= i < cs.len() ==> !is_add_for(#[trigger] cs[i], fd),
    ensures
        !interest_after_all(m, cs).contains_key(fd),
    decreases cs.len(),
{
    if cs.len() > 0 {
        assert(!is_add_for(cs[0], fd));
        lemma_one_shot(interest_after(m, cs[0]), known_after(kn, cs[0]), cs.drop_first(), fd);
    }
}

/// No dangling registration: a queue of commands that ends with a Remove
/// for a descriptor leaves that descriptor unarmed once drained, whatever
/// came before — tearing an adapter down always clears its entry.
pub proof fn lemma_no_dangling<W>(m: Map<u64, W>, cs: Seq<Command<W>>, fd: u64)
    requires
        cs.len() > 0,
        cs.last() == (Command::Remove::<W> { fd }),
    ensures
        !interest_after_all(m, cs).contains_key(fd),
    decreases cs.len(),
{
    if cs.len() == 1 {
        assert(cs[0] == cs.last());
        assert(cs.drop_first().len() == 0);
        assert(interest_after_all(interest_after(m, cs[0]), cs.drop_first()) == interest_after(
            m,
            cs[0],
        ));
    } else {
        assert(cs.drop_first().last() == cs.last());
        lemma_no_dangling(interest_after(m, cs[0]), cs.drop_first(), fd);
    }
}

} // verus!
