//! Lamport's bakery lock, modelled at the level of its protocol state: a
//! thread takes a ticket one higher than every ticket in sight, then waits
//! until no other ticketed thread outranks it, rank being the pair (ticket,
//! thread index) in lexicographic order. Taking the ticket and testing one's
//! rank are the two halves of a spinning acquisition; the waiting is the
//! caller's business (retry `may_enter` until it answers yes).

use vstd::prelude::*;

verus! {

/// The protocol state of a bakery lock over `n` threads: for each thread,
/// whether it is inside the doorway (choosing a ticket), and the ticket it
/// holds, if any.
pub struct BakeryLock {
    pub entering: Vec<bool>,
    pub tickets: Vec<Option<u64>>,
}

/// Witness that the thread `idx` has been admitted; handed back to
/// `release` when the thread leaves.
pub struct LockGuard {
    pub idx: usize,
}

/// The largest ticket in sight, or 0 when none is held.
pub open spec fn max_ticket(s: Seq<Option<u64>>) -> int
    decreases s.len(),
{
    if s.len() == 0 {
        0
    } else {
        let rest = max_ticket(s.drop_last());
        match s.last() {
            Some(t) => if t > rest { t as int } else { rest },
            None => rest,
        }
    }
}

impl BakeryLock {
    /// Both per-thread columns cover the same threads.
    pub open spec fn wf(&self) -> bool {
        self.entering@.len() == self.tickets@.len()
    }

    /// The number of threads the lock was set up for.
    pub open spec fn threads(&self) -> nat {
        self.tickets@.len()
    }

    /// Thread `i` holds a ticket.
    pub open spec fn ticketed(&self, i: int) -> bool {
        0 <= i < self.threads() && self.tickets@[i] is Some
    }

    /// The ticket thread `i` holds.
    pub open spec fn ticket_of(&self, i: int) -> u64
        recommends
            self.ticketed(i),
    {
        self.tickets@[i].unwrap()
    }

    /// Thread `i` outranks thread `k`: a smaller ticket wins, and on equal
    /// tickets the smaller thread index wins.
    pub open spec fn outranks(&self, i: int, k: int) -> bool {
        self.ticket_of(i) < self.ticket_of(k)
            || (self.ticket_of(i) == self.ticket_of(k) && i < k)
    }

    /// Thread `k` does not stand in thread `i`'s way: it is not choosing a
    /// ticket, and if it holds one, `i`'s outranks it.
    pub open spec fn clear_of(&self, i: int, k: int) -> bool {
        !self.entering@[k] && (self.ticketed(k) ==> self.outranks(i, k))
    }

    /// Thread `i` may enter: no other thread is choosing a ticket, and `i`
    /// outranks every other ticketed thread.
    pub open spec fn has_priority(&self, i: int) -> bool {
        &&& self.ticketed(i)
        &&& forall|k: int| 0 <= k < self.threads() && k != i ==> #[trigger] self.clear_of(i, k)
    }

    /// A fresh lock for `n` threads: nobody choosing, nobody ticketed.
    pub fn new(n: usize) -> (l: BakeryLock)
        ensures
            l.wf(),
            l.threads() == n,
            forall|i: int| 0 <= i < n ==> !l.entering@[i],
            forall|i: int| 0 <= i < n ==> !l.ticketed(i),
    {
        let mut entering: Vec<bool> = Vec::new();
        let mut tickets: Vec<Option<u64>> = Vec::new();
        let mut i: usize = 0;
        while i < n
            invariant
                i <= n,
                entering@.len() == i,
                tickets@.len() == i,
                forall|k: int| 0 <= k < i ==> !entering@[k],
                forall|k: int| 0 <= k < i ==> tickets@[k] is None,
            decreases n - i,
        {
            entering.push(false);
            tickets.push(None);
            i = i + 1;
        }
        BakeryLock { entering, tickets }
    }

    /// The doorway: announce the choice, take a ticket one higher than every
    /// ticket in sight, and leave the doorway. This is the first half of an
    /// acquisition, up to where the waiting begins.
    pub fn take_ticket(&mut self, idx: usize) -> (t: u64)
        requires
            old(self).wf(),
            idx < old(self).threads(),
            !old(self).entering@[idx as int],
            max_ticket(old(self).tickets@) < u64::MAX,
        ensures
            final(self).wf(),
            t == max_ticket(old(self).tickets@) + 1,
            final(self).tickets@ == old(self).tickets@.update(idx as int, Some(t)),
            final(self).entering@ == old(self).entering@,
            final(self).ticketed(idx as int),
            final(self).ticket_of(idx as int) == t,
    {
        self.entering.set(idx, true);
        let ghost all = self.tickets@;
        let mut max: u64 = 0;
        let mut i: usize = 0;
        let n = self.tickets.len();
        while i < n
            invariant
                i <= n,
                n == all.len(),
                self.tickets@ == all,
                max == max_ticket(all.take(i as int)),
            decreases n - i,
        {
            proof {
                assert(all.take(i + 1).drop_last() == all.take(i as int));
                assert(all.take(i + 1).last() == all[i as int]);
            }
            if let Some(t) = self.tickets[i] {
                if t > max {
                    max = t;
                }
            }
            i = i + 1;
        }
        proof {
            assert(all.take(n as int) == all);
            lemma_max_ticket_bound(all);
        }
        let ticket = max + 1;
        self.tickets.set(idx, Some(ticket));
        self.entering.set(idx, false);
        proof {
            assert(self.entering@ =~= old(self).entering@);
        }
        ticket
    }

    /// The wait test: does thread `idx` outrank every other ticketed thread,
    /// with nobody in the doorway? A waiting thread retries this until it holds.
    pub fn may_enter(&self, idx: usize) -> (b: bool)
        requires
            self.wf(),
            idx < self.threads(),
            self.ticketed(idx as int),
        ensures
            b == self.has_priority(idx as int),
    {
        let mine = self.tickets[idx].unwrap();
        let n = self.tickets.len();
        let mut i: usize = 0;
        let mut ok = true;
        while i < n
            invariant
                i <= n,
                self.wf(),
                idx < n,
                n == self.threads(),
                self.ticketed(idx as int),
                mine == self.ticket_of(idx as int),
                ok == (forall|k: int|
                    0 <= k < i && k != idx ==> #[trigger] self.clear_of(idx as int, k)),
            decreases n - i,
        {
            if i != idx {
                let mut here = true;
                if self.entering[i] {
                    here = false;
                }
                if let Some(t) = self.tickets[i] {
                    if !(mine < t || (mine == t && idx < i)) {
                        here = false;
                    }
                }
                assert(here == self.clear_of(idx as int, i as int));
                ok = ok && here;
            }
            i = i + 1;
        }
        ok
    }

    /// Hand out the guard once the wait test has answered yes.
    pub fn enter(&self, idx: usize) -> (g: LockGuard)
        requires
            self.wf(),
            idx < self.threads(),
            self.has_priority(idx as int),
        ensures
            g.idx == idx,
    {
        LockGuard { idx }
    }

    /// Uncontended acquisition, the whole protocol in the case where the
    /// wait never spins: with no other thread choosing or ticketed, take a
    /// ticket and enter at once.
    pub fn lock(&mut self, idx: usize) -> (g: LockGuard)
        requires
            old(self).wf(),
            idx < old(self).threads(),
            max_ticket(old(self).tickets@) < u64::MAX,
            forall|k: int| 0 <= k < old(self).threads() ==> !old(self).entering@[k],
            forall|k: int|
                0 <= k < old(self).threads() && k != idx ==> !old(self).ticketed(k),
        ensures
            final(self).wf(),
            g.idx == idx,
            final(self).has_priority(idx as int),
            final(self).entering@ == old(self).entering@,
            final(self).tickets@ == old(self).tickets@.update(
                idx as int,
                Some((max_ticket(old(self).tickets@) + 1) as u64),
            ),
    {
        let t = self.take_ticket(idx);
        proof {
            assert forall|k: int|
                0 <= k < self.threads() && k != idx implies self.clear_of(idx as int, k) by {
                assert(self.tickets@[k] == old(self).tickets@[k]);
                assert(!old(self).ticketed(k));
                assert(!self.ticketed(k));
                assert(self.entering@[k] == old(self).entering@[k]);
                assert(!old(self).entering@[k]);
            }
        }
        let entered = self.may_enter(idx);
        assert(entered);
        self.enter(idx)
    }

    /// Release: retire the ticket; the next thread in rank order is clear.
    pub fn release(&mut self, g: LockGuard)
        requires
            old(self).wf(),
            g.idx < old(self).threads(),
        ensures
            final(self).wf(),
            final(self).tickets@ == old(self).tickets@.update(g.idx as int, None::<u64>),
            final(self).entering@ == old(self).entering@,
            !final(self).ticketed(g.idx as int),
    {
        self.tickets.set(g.idx, None);
    }
}

/// Every ticket in sight is at most the maximum.
proof fn lemma_max_ticket_bound(s: Seq<Option<u64>>)
    ensures
        0 <= max_ticket(s),
        forall|i: int| 0 <= i < s.len() && s[i] is Some ==> s[i].unwrap() <= max_ticket(s),
    decreases s.len(),
{
    if s.len() > 0 {
        lemma_max_ticket_bound(s.drop_last());
        assert forall|i: int| 0 <= i < s.len() && s[i] is Some implies s[i].unwrap() <= max_ticket(
            s,
        ) by {
            if i < s.len() - 1 {
                assert(s.drop_last()[i] == s[i]);
            }
        }
    }
}

/// Mutual exclusion of the bakery protocol: two distinct ticketed threads
/// cannot both pass the wait test at the same instant, since each would have
/// to outrank the other and rank is a strict order.
pub proof fn lemma_bakery_mutual_exclusion(l: BakeryLock, i: int, j: int)
    requires
        l.wf(),
        0 <= i < l.threads(),
        0 <= j < l.threads(),
        i != j,
        l.has_priority(i),
    ensures
        !l.has_priority(j),
{
    if l.has_priority(j) {
        assert(l.clear_of(i, j));
        assert(l.clear_of(j, i));
    }
}

} // verus!
