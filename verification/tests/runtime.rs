use minirt::executor::{Executor, StepEvent};
use minirt::hello::{Hello, StateHello};
use minirt::ready_queue::ReadyQueue;

#[test]
fn hello_convergence() {
    // A three-state computation driven through the executor produces
    // exactly "Hello," then "World!" and then stops being polled.
    let mut e: Executor<Hello> = Executor::new(16);
    let id = e.spawn(Hello::new()).unwrap();
    assert_eq!(id, 0);

    let ev1 = e.step();
    assert_eq!(ev1, StepEvent::Yielded { task: 0 });
    let ev2 = e.step();
    assert_eq!(ev2, StepEvent::Yielded { task: 0 });
    let ev3 = e.step();
    assert_eq!(ev3, StepEvent::Completed { task: 0 });

    assert_eq!(e.log_len(), 2);
    assert_eq!(e.log_get(0).as_str(), "Hello,");
    assert_eq!(e.log_get(1).as_str(), "World!");

    // Completed: never polled again.
    assert!(!e.is_live(0));
    assert_eq!(e.step(), StepEvent::Idle);
    assert_eq!(e.log_len(), 2);
}

#[test]
fn hello_run_driver() {
    let mut e: Executor<Hello> = Executor::new(16);
    e.spawn(Hello::new()).unwrap();
    let steps = e.run(100);
    assert_eq!(steps, 3);
    assert_eq!(e.log_len(), 2);
    assert_eq!(e.log_get(0).as_str(), "Hello,");
    assert_eq!(e.log_get(1).as_str(), "World!");
}

#[test]
fn hello_states() {
    let h = Hello::new();
    assert_eq!(h.state, StateHello::Hello);
}

#[test]
fn backpressure_spawn_refused_not_dropped() {
    // A ready queue of two refuses the third spawn and hands the
    // computation back intact; nothing is silently dropped.
    let mut e: Executor<Hello> = Executor::new(2);
    assert!(e.spawn(Hello::new()).is_ok());
    assert!(e.spawn(Hello::new()).is_ok());
    let refused = e.spawn(Hello::new());
    let c = match refused {
        Err(c) => c,
        Ok(_) => panic!("third spawn must be refused"),
    };
    assert_eq!(c.state, StateHello::Hello);
    assert_eq!(e.queue_len(), 2);
    assert_eq!(e.task_count(), 2);

    // One step frees a slot (the task yields back in, so step twice).
    let ev = e.step();
    assert_eq!(ev, StepEvent::Yielded { task: 0 });
    assert_eq!(e.queue_len(), 2);
    let ev = e.step();
    assert_eq!(ev, StepEvent::Yielded { task: 1 });
    assert_eq!(e.queue_len(), 2);
}

#[test]
fn backpressure_ready_queue() {
    let mut q: ReadyQueue<u64> = ReadyQueue::new(1);
    assert_eq!(q.len(), 0);
    assert!(q.try_push(7).is_ok());
    // Full: the refused entry comes back unchanged.
    assert_eq!(q.try_push(8), Err(8));
    assert_eq!(q.len(), 1);
    assert_eq!(q.pop(), Some(7));
    assert_eq!(q.pop(), None);
    // Space freed: accepted again.
    assert!(q.try_push(8).is_ok());
    assert_eq!(q.pop(), Some(8));
}

#[test]
fn single_progress_counter() {
    // The instrumented poll-lock counter never exceeds one, whatever the
    // executor is made to do.
    let mut e: Executor<Hello> = Executor::new(8);
    assert!(e.polling_now() <= 1);
    let id = e.spawn(Hello::new()).unwrap();
    assert!(e.polling_now() <= 1);
    // A duplicate wake queues the task twice; each pop polls at most once.
    assert!(e.wake(id));
    assert_eq!(e.queue_len(), 2);
    e.step();
    assert!(e.polling_now() <= 1);
    e.step();
    assert!(e.polling_now() <= 1);
    e.step();
    e.step();
    assert!(e.polling_now() <= 1);
    // The duplicate cost at most one extra pop of a finished task.
    assert!(!e.is_live(id));
    assert_eq!(e.log_len(), 2);
}

#[test]
fn duplicate_wake_skipped_after_completion() {
    let mut e: Executor<Hello> = Executor::new(8);
    let id = e.spawn(Hello::new()).unwrap();
    e.step();
    e.step();
    let ev = e.step();
    assert_eq!(ev, StepEvent::Completed { task: id });
    // A stale wake for the finished task is skipped, not polled.
    assert!(e.wake(id));
    let ev = e.step();
    assert_eq!(ev, StepEvent::Skipped { task: id });
    assert_eq!(e.log_len(), 2);
}
