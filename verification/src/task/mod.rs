//! Tasks: cooperative units of work, the scheduler that polls them, and the
//! two tasks of the kernel, keyboard and shell.

pub mod executor;
pub mod keyboard;
pub mod shell;

use vstd::prelude::*;
use self::executor::{Executor, SchedulerState};
use self::keyboard::{add_scancode, BridgeState, PushOutcome, ScancodeBridge};

verus! {

/// Names one task for as long as the kernel runs.
#[derive(Clone, Copy, Debug, PartialEq, Eq, Structural)]
pub struct TaskId(pub usize);

/// What polling a suspendable computation gives: its result, or the news
/// that it waits for something and has left word whom to wake.
#[derive(Debug, PartialEq, Eq, Structural)]
pub enum Poll<T> {
    Ready(T),
    Pending,
}

/// The scheduler after the keyboard interrupt has offered a byte to
/// `bridge`: where the byte was queued, the task that waited for it is
/// woken.
pub open spec fn woken_by_scancode(scheduler: SchedulerState, bridge: BridgeState) -> SchedulerState {
    if bridge.initialized && bridge.bytes.len() < bridge.capacity && bridge.waiter is Some {
        scheduler.woken(bridge.waiter->Some_0)
    } else {
        scheduler
    }
}

/// What the keyboard interrupt does with a byte: the byte is offered to the
/// bridge, and where it was queued the task registered there is made
/// ready. Nothing here waits, and a byte that finds no room is dropped.
pub fn keyboard_interrupt(bridge: &mut ScancodeBridge, executor: &mut Executor, scancode: u8) -> (outcome:
    PushOutcome)
    requires
        old(executor)@.wf(),
    ensures
        final(bridge)@ == old(bridge)@.pushed(scancode),
        final(executor)@.wf(),
        final(executor)@ == woken_by_scancode(old(executor)@, old(bridge)@),
        outcome == (if !old(bridge)@.initialized {
            PushOutcome::DroppedUninitialized
        } else if old(bridge)@.bytes.len() < old(bridge)@.capacity {
            PushOutcome::Queued { wake: old(bridge)@.waiter }
        } else {
            PushOutcome::DroppedFull
        }),
{
    let outcome = add_scancode(bridge, scancode);
    if let PushOutcome::Queued { wake: Some(task) } = outcome {
        executor.wake(task);
    }
    outcome
}

/// A task that found the bridge empty, and was suspended for it, is the
/// next to be polled once a byte has come in, if nothing else was ready;
/// and bytes that come in after that wake nobody a second time.
pub proof fn lemma_scancode_wakes_waiter(
    scheduler: SchedulerState,
    bridge: BridgeState,
    task: TaskId,
    byte: u8,
)
    requires
        scheduler.wf(),
        scheduler.idle(),
        scheduler.state_of(task) == executor::TaskState::Suspended,
        bridge.initialized,
        bridge.bytes.len() == 0,
        bridge.capacity > 0,
    ensures
        woken_by_scancode(scheduler, bridge.polled(task)).next() == Some(task),
        woken_by_scancode(
            woken_by_scancode(scheduler, bridge.polled(task)),
            bridge.polled(task).pushed(byte),
        ) == woken_by_scancode(scheduler, bridge.polled(task)),
{
}

} // verus!
