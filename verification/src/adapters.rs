//! The decision half of the asynchronous I/O adapters. Each poll first
//! attempts the non-blocking operation outside the library; what came back
//! is handed in here, and the contract fixes the response: a result
//! completes the poll, a would-block registers the wake handle with the
//! reactor and suspends, anything else is fatal for the accept side and
//! end-of-stream for the read side. Teardown always queues a deregistration
//! so that no descriptor stays armed for a dead adapter.

use vstd::prelude::*;
use crate::reactor::{Command, Reactor};
use crate::suspend::Interest;

verus! {

/// What the non-blocking accept attempt came back with.
#[derive(Debug)]
pub enum AcceptOutcome {
    /// A connection, identified by the descriptor of its stream.
    Conn { peer_fd: u64 },
    /// Nothing to accept yet.
    WouldBlock,
    /// Any other failure.
    Fail,
}

/// The adapter's response to one accept attempt.
#[derive(Clone, Copy, Debug, PartialEq, Eq, Structural)]
pub enum AcceptPoll {
    /// The connection is ready; hand it to the caller.
    Ready { peer_fd: u64 },
    /// Suspended: the wake handle is registered for the listener's
    /// readiness and the task parks until it fires.
    Pending,
    /// An accept failure aborts the process.
    Fatal,
}

/// What the non-blocking line read came back with.
#[derive(Debug)]
pub enum ReadOutcome {
    /// A zero-length read: the peer closed the connection.
    Eof,
    /// One full line of text.
    Line { text: String },
    /// No data yet.
    WouldBlock,
    /// Any other failure.
    Fail,
}

/// The adapter's response to one read attempt.
#[derive(Debug)]
pub enum ReadPoll {
    /// The stream has ended — by close or by a read failure — and the
    /// connection's task winds down.
    Closed,
    /// One line, exactly as it came in.
    Ready { text: String },
    /// Suspended until the stream's descriptor fires.
    Pending,
}

/// The accepting side of a listening socket.
pub struct AcceptSource {
    pub fd: u64,
}

impl AcceptSource {
    /// Wrap a listening descriptor.
    pub fn new(fd: u64) -> (a: AcceptSource)
        ensures
            a.fd == fd,
    {
        AcceptSource { fd }
    }

    /// Decide one accept poll: a connection is handed on as ready; a
    /// would-block registers interest in the listener and suspends; any
    /// other failure is fatal.
    pub fn poll_accept<W>(&self, outcome: AcceptOutcome, reactor: &mut Reactor<W>, wake: W) -> (r:
        AcceptPoll)
        ensures
            match outcome {
                AcceptOutcome::Conn { peer_fd } => {
                    &&& r == (AcceptPoll::Ready { peer_fd })
                    &&& final(reactor).pending_view() == old(reactor).pending_view()
                },
                AcceptOutcome::WouldBlock => {
                    &&& r is Pending
                    &&& final(reactor).pending_view() == old(reactor).pending_view().push(
                        Command::Add { fd: self.fd, interest: Interest::Readable, wake },
                    )
                },
                AcceptOutcome::Fail => {
                    &&& r is Fatal
                    &&& final(reactor).pending_view() == old(reactor).pending_view()
                },
            },
            final(reactor).interest_map() == old(reactor).interest_map(),
            final(reactor).known_set() == old(reactor).known_set(),
    {
        match outcome {
            AcceptOutcome::Conn { peer_fd } => AcceptPoll::Ready { peer_fd },
            AcceptOutcome::WouldBlock => {
                reactor.register(self.fd, Interest::Readable, wake);
                AcceptPoll::Pending
            },
            AcceptOutcome::Fail => AcceptPoll::Fatal,
        }
    }

    /// Teardown: queue the deregistration of the listener's descriptor, as
    /// the owning object's drop does.
    pub fn close<W>(&self, reactor: &mut Reactor<W>)
        ensures
            final(reactor).pending_view() == old(reactor).pending_view().push(
                Command::Remove::<W> { fd: self.fd },
            ),
            final(reactor).interest_map() == old(reactor).interest_map(),
            final(reactor).known_set() == old(reactor).known_set(),
    {
        reactor.unregister(self.fd);
    }
}

/// The reading side of one accepted connection.
pub struct LineSource {
    pub fd: u64,
}

impl LineSource {
    /// Wrap a connected stream's descriptor.
    pub fn new(fd: u64) -> (s: LineSource)
        ensures
            s.fd == fd,
    {
        LineSource { fd }
    }

    /// Decide one read poll: end-of-stream closes the connection's task; a
    /// line is handed on verbatim; a would-block registers interest in the
    /// stream and suspends; any other read failure is treated as closure.
    pub fn poll_read_line<W>(&self, outcome: ReadOutcome, reactor: &mut Reactor<W>, wake: W) -> (r:
        ReadPoll)
        ensures
            match outcome {
                ReadOutcome::Eof => {
                    &&& r is Closed
                    &&& final(reactor).pending_view() == old(reactor).pending_view()
                },
                ReadOutcome::Line { text } => {
                    &&& r matches ReadPoll::Ready { text: t } && t == text
                    &&& final(reactor).pending_view() == old(reactor).pending_view()
                },
                ReadOutcome::WouldBlock => {
                    &&& r is Pending
                    &&& final(reactor).pending_view() == old(reactor).pending_view().push(
                        Command::Add { fd: self.fd, interest: Interest::Readable, wake },
                    )
                },
                ReadOutcome::Fail => {
                    &&& r is Closed
                    &&& final(reactor).pending_view() == old(reactor).pending_view()
                },
            },
            final(reactor).interest_map() == old(reactor).interest_map(),
            final(reactor).known_set() == old(reactor).known_set(),
    {
        match outcome {
            ReadOutcome::Eof => ReadPoll::Closed,
            ReadOutcome::Line { text } => ReadPoll::Ready { text },
            ReadOutcome::WouldBlock => {
                reactor.register(self.fd, Interest::Readable, wake);
                ReadPoll::Pending
            },
            ReadOutcome::Fail => ReadPoll::Closed,
        }
    }

    /// Teardown: queue the deregistration of the stream's descriptor, as
    /// the owning object's drop does.
    pub fn close<W>(&self, reactor: &mut Reactor<W>)
        ensures
            final(reactor).pending_view() == old(reactor).pending_view().push(
                Command::Remove::<W> { fd: self.fd },
            ),
            final(reactor).interest_map() == old(reactor).interest_map(),
            final(reactor).known_set() == old(reactor).known_set(),
    {
        reactor.unregister(self.fd);
    }
}

} // verus!
