use kernel_core::task::executor::{Executor, TaskState};
use kernel_core::task::{Poll, TaskId};

#[test]
fn spawned_tasks_are_ready_in_order() {
    let mut executor = Executor::new();
    assert!(executor.is_idle());
    let a = executor.spawn();
    let b = executor.spawn();
    let c = executor.spawn();
    assert_eq!((a, b, c), (TaskId(0), TaskId(1), TaskId(2)));
    assert!(!executor.is_idle());
    assert_eq!(executor.state_of(b), TaskState::Ready);
    assert_eq!(executor.next_ready(), Some(a));
    assert_eq!(executor.next_ready(), Some(b));
    assert_eq!(executor.state_of(b), TaskState::Suspended);
    assert_eq!(executor.next_ready(), Some(c));
    assert_eq!(executor.next_ready(), None);
    assert!(executor.is_idle());
}

#[test]
fn a_suspended_task_waits_for_its_wakeup() {
    let mut executor = Executor::new();
    let waiting = executor.spawn();
    let other = executor.spawn();
    assert_eq!(executor.next_ready(), Some(waiting));
    executor.finish_poll(waiting, Poll::Pending);
    for _ in 0..5 {
        assert_eq!(executor.next_ready(), Some(other));
        executor.finish_poll(other, Poll::Pending);
        executor.wake(other);
    }
    assert_eq!(executor.state_of(waiting), TaskState::Suspended);
    executor.wake(waiting);
    assert_eq!(executor.next_ready(), Some(other));
    assert_eq!(executor.next_ready(), Some(waiting));
}

#[test]
fn many_wakeups_give_one_poll() {
    let mut executor = Executor::new();
    let task = executor.spawn();
    assert_eq!(executor.next_ready(), Some(task));
    executor.finish_poll(task, Poll::Pending);
    executor.wake(task);
    executor.wake(task);
    executor.wake(task);
    assert_eq!(executor.state_of(task), TaskState::Ready);
    assert_eq!(executor.next_ready(), Some(task));
    assert_eq!(executor.next_ready(), None);
    assert_eq!(executor.state_of(task), TaskState::Suspended);
}

#[test]
fn a_wakeup_at_the_brink_of_halting_is_not_lost() {
    let mut executor = Executor::new();
    let task = executor.spawn();
    assert_eq!(executor.next_ready(), Some(task));
    executor.finish_poll(task, Poll::Pending);
    // The run loop finds nothing ready ...
    assert_eq!(executor.next_ready(), None);
    // ... the wakeup fires ...
    executor.wake(task);
    // ... and the loop, asking before it halts, does not halt.
    assert!(!executor.is_idle());
    assert_eq!(executor.next_ready(), Some(task));
}

#[test]
fn a_wakeup_during_the_poll_counts() {
    let mut executor = Executor::new();
    let task = executor.spawn();
    assert_eq!(executor.next_ready(), Some(task));
    executor.wake(task);
    executor.finish_poll(task, Poll::Pending);
    assert_eq!(executor.next_ready(), Some(task));
}

#[test]
fn finished_tasks_are_gone() {
    let mut executor = Executor::new();
    let a = executor.spawn();
    let b = executor.spawn();
    assert_eq!(executor.next_ready(), Some(a));
    executor.wake(a);
    executor.finish_poll(a, Poll::Ready(()));
    assert_eq!(executor.state_of(a), TaskState::Done);
    executor.wake(a);
    assert_eq!(executor.state_of(a), TaskState::Done);
    assert_eq!(executor.next_ready(), Some(b));
    assert_eq!(executor.next_ready(), None);
    executor.finish_poll(TaskId(17), Poll::Ready(()));
    executor.wake(TaskId(17));
    assert_eq!(executor.state_of(TaskId(17)), TaskState::Done);
    assert_eq!(executor.spawn(), TaskId(2));
}
