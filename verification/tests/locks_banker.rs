use minirt::bakery::BakeryLock;
use minirt::banker::Resource;
use minirt::spin_lock::SpinLock;
use minirt::ticket_lock::TicketLock;

#[test]
fn ticket_lock_serves_in_order() {
    let mut l = TicketLock::new(0u64);
    let g0 = l.lock();
    assert_eq!(g0.ticket, 0);
    let v = *l.get(&g0);
    l.set(&g0, v + 1);
    l.unlock(g0);

    let g1 = l.lock();
    assert_eq!(g1.ticket, 1);
    assert_eq!(*l.get(&g1), 1);
    l.unlock(g1);
    assert_eq!(l.ticket, 2);
    assert_eq!(l.turn, 2);
}

#[test]
fn spin_lock_excludes_second_attempt() {
    let mut l = SpinLock::new(5u32);
    let g = l.try_lock().expect("a free lock is taken");
    // While held, every further attempt is refused.
    assert!(l.try_lock().is_none());
    l.set(&g, 6);
    assert_eq!(*l.get(&g), 6);
    l.unlock(g);
    let g = l.try_lock().expect("released, so taken again");
    l.unlock(g);
}

#[test]
fn bakery_tickets_and_priority() {
    let mut l = BakeryLock::new(3);
    // First arrival draws ticket one and may enter at once.
    let t0 = l.take_ticket(0);
    assert_eq!(t0, 1);
    assert!(l.may_enter(0));
    // Second arrival draws a higher ticket and must wait.
    let t1 = l.take_ticket(1);
    assert_eq!(t1, 2);
    assert!(!l.may_enter(1));
    assert!(l.may_enter(0));
    // Once the first releases, the second is clear.
    let g0 = l.enter(0);
    l.release(g0);
    assert!(l.may_enter(1));
    let g1 = l.enter(1);
    l.release(g1);
}

#[test]
fn bakery_released_number_reissued() {
    let mut l = BakeryLock::new(2);
    let t0 = l.take_ticket(0);
    let g0 = l.enter(0);
    l.release(g0);
    // With the first ticket retired, the same number is drawn again.
    let t1 = l.take_ticket(1);
    assert_eq!(t0, 1);
    assert_eq!(t1, 1);
    // A fresh draw goes one higher and waits behind the smaller number.
    let t0b = l.take_ticket(0);
    assert_eq!(t0b, 2);
    assert!(!l.may_enter(0));
    assert!(l.may_enter(1));
}

#[test]
fn bakery_uncontended_lock() {
    let mut l = BakeryLock::new(4);
    let g = l.lock(2);
    assert_eq!(g.idx, 2);
    l.release(g);
}

#[test]
fn banker_safe_state() {
    // Demands every thread can meet from the free pool, one after the
    // other: safe.
    let r = Resource::new(vec![3, 3, 2], vec![vec![2, 2, 2], vec![3, 3, 2], vec![1, 0, 0]]);
    assert!(r.is_safe());
}

#[test]
fn banker_unsafe_state() {
    // One thread may demand more than can ever be free: unsafe.
    let r = Resource::new(vec![3, 3, 2], vec![vec![4, 0, 0]]);
    assert!(!r.is_safe());
}

#[test]
fn banker_trivial_states() {
    // No threads at all: vacuously safe.
    let r = Resource::new(vec![1, 1], vec![]);
    assert!(r.is_safe());
    // A thread that needs nothing is always served.
    let r = Resource::new(vec![0], vec![vec![0]]);
    assert!(r.is_safe());
    // Even with an empty pool, a demand cannot be met.
    let r = Resource::new(vec![0], vec![vec![1]]);
    assert!(!r.is_safe());
}
