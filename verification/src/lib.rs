//! A minimal cooperative multitasking runtime, verified.
//!
//! The crate models the moving parts of a tiny executor/reactor pair:
//! suspendable computations that are polled to completion, a bounded ready
//! queue with back-pressure, a reactor that turns one-shot readiness events
//! into wake-ups, line-oriented I/O adapters, and a handful of classic lock
//! protocols (ticket, spin, bakery) together with the banker's deadlock
//! avoidance check. Everything that decides is here and carries a contract;
//! the thin OS shell (threads, sockets, the readiness multiplexer) lives
//! outside the library and only feeds events in and carries actions out.

pub mod suspend;
pub mod hello;
pub mod ready_queue;
pub mod ticket_lock;
pub mod spin_lock;
pub mod bakery;
pub mod reactor;
pub mod line_buffer;
pub mod adapters;
pub mod executor;
pub mod banker;
