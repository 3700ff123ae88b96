//! A ticket lock, modelled at the level of its protocol state: each arrival
//! draws the next ticket, and the holder of the ticket equal to `turn` is the
//! one thread allowed in. Drawing a ticket and waiting one's turn are the
//! two halves of a spinning acquisition; here the wait is the caller's
//! business (retry until `turn` reaches the ticket), and the counters carry
//! the contracts.

use vstd::prelude::*;

verus! {

/// The protocol state of a ticket lock, together with the protected value.
/// `ticket` is the next number to hand out; `turn` is the number being
/// served. The lock is held exactly when a drawn ticket has not yet been
/// retired, that is, when `turn < ticket`.
pub struct TicketLock<T> {
    pub ticket: u64,
    pub turn: u64,
    pub data: T,
}

/// Witness of a drawn ticket. Its holder may enter when `turn` reaches
/// `ticket`, and retires the ticket on release.
pub struct TicketLockGuard {
    pub ticket: u64,
}

impl<T> TicketLock<T> {
    /// A ticket is outstanding: some thread has drawn one and not yet
    /// released. Under the lock's discipline at most one is outstanding.
    pub open spec fn held(&self) -> bool {
        self.turn < self.ticket
    }

    /// The counters never cross, and at most one ticket is outstanding.
    pub open spec fn wf(&self) -> bool {
        self.turn <= self.ticket <= self.turn + 1
    }

    /// A guard is the one currently served by this lock.
    pub open spec fn serves(&self, g: TicketLockGuard) -> bool {
        self.held() && g.ticket == self.turn
    }

    /// A fresh, free lock protecting `v`: no tickets drawn, none served.
    pub fn new(v: T) -> (l: TicketLock<T>)
        ensures
            l.ticket == 0,
            l.turn == 0,
            l.data == v,
            !l.held(),
            l.wf(),
    {
        TicketLock { ticket: 0, turn: 0, data: v }
    }

    /// Draw the next ticket and acquire: the counters say it is this
    /// ticket's turn at once, since no other ticket is outstanding.
    pub fn lock(&mut self) -> (g: TicketLockGuard)
        requires
            old(self).wf(),
            !old(self).held(),
            old(self).ticket < u64::MAX,
        ensures
            g.ticket == old(self).ticket,
            final(self).ticket == old(self).ticket + 1,
            final(self).turn == old(self).turn,
            final(self).data == old(self).data,
            final(self).serves(g),
            final(self).wf(),
    {
        let t = self.ticket;
        self.ticket = self.ticket + 1;
        TicketLockGuard { ticket: t }
    }

    /// Read the protected value; only the served guard may.
    pub fn get<'a>(&'a self, g: &TicketLockGuard) -> (r: &'a T)
        requires
            self.serves(*g),
        ensures
            *r == self.data,
    {
        &self.data
    }

    /// Replace the protected value; only the served guard may.
    pub fn set(&mut self, g: &TicketLockGuard, v: T)
        requires
            old(self).serves(*g),
        ensures
            final(self).data == v,
            final(self).ticket == old(self).ticket,
            final(self).turn == old(self).turn,
            final(self).serves(*g),
    {
        self.data = v;
    }

    /// Retire the served ticket: the turn advances and the lock is free.
    pub fn unlock(&mut self, g: TicketLockGuard)
        requires
            old(self).wf(),
            old(self).serves(g),
        ensures
            final(self).turn == old(self).turn + 1,
            final(self).ticket == old(self).ticket,
            final(self).data == old(self).data,
            !final(self).held(),
            final(self).wf(),
    {
        self.turn = self.turn + 1;
    }
}

/// Mutual exclusion: two guards served by the same lock at the same instant
/// carry the same ticket — there is only one admitted thread.
pub proof fn lemma_ticket_exclusive<T>(l: TicketLock<T>, g1: TicketLockGuard, g2: TicketLockGuard)
    requires
        l.serves(g1),
        l.serves(g2),
    ensures
        g1.ticket == g2.ticket,
{
}

/// First-come, first-served: the turn counter only ever rises, so of two
/// drawn tickets the smaller is served strictly before the larger; service
/// order is issue order.
pub proof fn lemma_ticket_fifo<T>(earlier: TicketLock<T>, later: TicketLock<T>, g1: TicketLockGuard, g2: TicketLockGuard)
    requires
        g1.ticket < g2.ticket,
        earlier.turn <= later.turn,
        later.serves(g1),
    ensures
        !later.serves(g2),
        !earlier.serves(g2),
{
}

} // verus!
