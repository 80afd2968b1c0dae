//! The cooperative scheduler's bookkeeping: which tasks there are, and which
//! of them are ready to be polled.
//!
//! A task is ready from its spawn and from each wakeup on; it is taken out
//! of the ready set to be polled, and is then suspended until it is woken
//! or reports that it is done. Nothing is preempted and nothing times out.
//! The computations themselves are kept by the caller, which polls the task
//! that `next_ready` names and reports back with `finish_poll`.

use vstd::prelude::*;
use std::collections::VecDeque;
use super::{Poll, TaskId};

verus! {

/// Where a task stands.
#[derive(Clone, Copy, Debug, PartialEq, Eq, Structural)]
pub enum TaskState {
    /// In the ready set: it will be polled.
    Ready,
    /// Not in the ready set: it waits for a wakeup, or is being polled.
    Suspended,
    /// It has completed, or was never spawned.
    Done,
}

/// Something that happens to the scheduler.
pub enum Event {
    /// A task is spawned.
    Spawn,
    /// The wakeup of a task fires.
    Wake(TaskId),
    /// The run loop takes the next ready task to poll it.
    Take,
    /// The poll of a task has ended: with `true` the task is done.
    Polled(TaskId, bool),
}

/// The scheduler as a mathematical value.
#[verifier::ext_equal]
pub struct SchedulerState {
    /// The state of each task that was ever spawned, by its number.
    pub states: Seq<TaskState>,
    /// The ready set, in the order in which the tasks are to be polled.
    pub ready: Seq<TaskId>,
}

impl SchedulerState {
    /// The ready set holds each ready task once, and no other.
    pub open spec fn wf(self) -> bool {
        &&& self.states.len() <= usize::MAX
        &&& self.ready.no_duplicates()
        &&& forall|id: TaskId| self.ready.contains(id) <==> self.state_of(id) == TaskState::Ready
    }

    pub open spec fn state_of(self, id: TaskId) -> TaskState {
        if id.0 < self.states.len() {
            self.states[id.0 as int]
        } else {
            TaskState::Done
        }
    }

    /// Nothing is ready.
    pub open spec fn idle(self) -> bool {
        self.ready.len() == 0
    }

    /// The task that the run loop takes next.
    pub open spec fn next(self) -> Option<TaskId> {
        if self.ready.len() > 0 {
            Some(self.ready[0])
        } else {
            None
        }
    }

    /// After a spawn: the new task has the next number and is ready.
    pub open spec fn spawned(self) -> SchedulerState {
        SchedulerState {
            states: self.states.push(TaskState::Ready),
            ready: self.ready.push(TaskId(self.states.len() as usize)),
        }
    }

    /// After the wakeup of `id` has fired: a suspended task is ready again,
    /// and for any other nothing changes.
    pub open spec fn woken(self, id: TaskId) -> SchedulerState {
        if self.state_of(id) == TaskState::Suspended {
            SchedulerState {
                states: self.states.update(id.0 as int, TaskState::Ready),
                ready: self.ready.push(id),
            }
        } else {
            self
        }
    }

    /// After the run loop has taken the next ready task.
    pub open spec fn taken(self) -> SchedulerState {
        if self.ready.len() > 0 {
            SchedulerState {
                states: self.states.update(self.ready[0].0 as int, TaskState::Suspended),
                ready: self.ready.drop_first(),
            }
        } else {
            self
        }
    }

    /// After `id` has reported that it is done: it is gone, from the ready
    /// set too if a wakeup had put it back there.
    pub open spec fn completed(self, id: TaskId) -> SchedulerState {
        if id.0 < self.states.len() {
            SchedulerState {
                states: self.states.update(id.0 as int, TaskState::Done),
                ready: if self.ready.contains(id) {
                    self.ready.remove(self.ready.index_of(id))
                } else {
                    self.ready
                },
            }
        } else {
            self
        }
    }

    /// The scheduler after one event.
    pub open spec fn step(self, event: Event) -> SchedulerState {
        match event {
            Event::Spawn => self.spawned(),
            Event::Wake(id) => self.woken(id),
            Event::Take => self.taken(),
            Event::Polled(id, done) => if done {
                self.completed(id)
            } else {
                self
            },
        }
    }

    /// The scheduler after a run of events.
    pub open spec fn run(self, events: Seq<Event>) -> SchedulerState
        decreases events.len(),
    {
        if events.len() == 0 {
            self
        } else {
            self.step(events[0]).run(events.drop_first())
        }
    }

    /// How often `id` is taken to be polled in a run of events.
    pub open spec fn times_taken(self, events: Seq<Event>, id: TaskId) -> nat
        decreases events.len(),
    {
        if events.len() == 0 {
            0
        } else {
            let now: nat = if events[0] is Take && self.next() == Some(id) {
                1
            } else {
                0
            };
            now + self.step(events[0]).times_taken(events.drop_first(), id)
        }
    }
}

/// The run loop taking a task `count` times in a row, with nothing else
/// happening.
pub open spec fn takes(count: nat) -> Seq<Event> {
    Seq::new(count, |i: int| Event::Take)
}

/// How many tasks are spawned in a run of events.
pub open spec fn spawns(events: Seq<Event>) -> nat
    decreases events.len(),
{
    if events.len() == 0 {
        0
    } else {
        let now: nat = if events[0] is Spawn {
            1
        } else {
            0
        };
        now + spawns(events.drop_first())
    }
}

/// No event of the run is a wakeup of `id`.
pub open spec fn never_wakes(events: Seq<Event>, id: TaskId) -> bool {
    forall|i: int| 0 <= i < events.len() ==> events[i] != Event::Wake(id)
}

/// Taking tasks spawns none.
proof fn lemma_takes_spawn_nothing(count: nat)
    ensures
        spawns(takes(count)) == 0,
    decreases count,
{
    if count > 0 {
        assert(takes(count).drop_first() =~= takes((count - 1) as nat));
        lemma_takes_spawn_nothing((count - 1) as nat);
    }
}

impl SchedulerState {
    /// Every event leaves the ready set in order.
    pub proof fn lemma_step_keeps_wf(self, event: Event)
        requires
            self.wf(),
            event is Spawn ==> self.states.len() < usize::MAX,
        ensures
            self.step(event).wf(),
    {
        let after = self.step(event);
        match event {
            Event::Spawn => {
                let new = TaskId(self.states.len() as usize);
                assert(self.state_of(new) == TaskState::Done);
                assert forall|id: TaskId| after.ready.contains(id) <==> after.state_of(id)
                    == TaskState::Ready by {
                    self.lemma_ready_after_push(new, id);
                    assert(after.state_of(id) == if id == new {
                        TaskState::Ready
                    } else {
                        self.state_of(id)
                    });
                }
                self.lemma_push_no_duplicates(new);
            },
            Event::Wake(woken) => {
                if self.state_of(woken) == TaskState::Suspended {
                    assert forall|id: TaskId| after.ready.contains(id) <==> after.state_of(id)
                        == TaskState::Ready by {
                        self.lemma_ready_after_push(woken, id);
                        assert(after.state_of(id) == if id == woken {
                            TaskState::Ready
                        } else {
                            self.state_of(id)
                        });
                    }
                    self.lemma_push_no_duplicates(woken);
                }
            },
            Event::Take => {
                if self.ready.len() > 0 {
                    let first = self.ready[0];
                    assert(self.ready.contains(first));
                    assert(self.state_of(first) == TaskState::Ready);
                    assert forall|id: TaskId| after.ready.contains(id) <==> after.state_of(id)
                        == TaskState::Ready by {
                        self.lemma_ready_after_remove(0, id);
                        assert(self.ready.remove(0) =~= self.ready.drop_first());
                        assert(after.state_of(id) == if id == first {
                            TaskState::Suspended
                        } else {
                            self.state_of(id)
                        });
                    }
                    self.lemma_remove_no_duplicates(0);
                    assert(self.ready.remove(0) =~= self.ready.drop_first());
                }
            },
            Event::Polled(gone, done) => {
                if done && gone.0 < self.states.len() {
                    assert forall|id: TaskId| after.state_of(id) == if id == gone {
                        TaskState::Done
                    } else {
                        self.state_of(id)
                    } by {}
                    if self.ready.contains(gone) {
                        let at = self.ready.index_of(gone);
                        assert forall|id: TaskId| after.ready.contains(id) <==> after.state_of(id)
                            == TaskState::Ready by {
                            self.lemma_ready_after_remove(at, id);
                        }
                        self.lemma_remove_no_duplicates(at);
                    }
                }
            },
        }
    }

    /// No event forgets a task, and only a spawn adds one.
    proof fn lemma_step_grows(self, event: Event)
        requires
            self.wf(),
        ensures
            self.step(event).states.len() == self.states.len() + if event is Spawn {
                1int
            } else {
                0int
            },
    {
        if self.ready.len() > 0 {
            assert(self.ready.contains(self.ready[0]));
            assert(self.state_of(self.ready[0]) == TaskState::Ready);
        }
    }

    proof fn lemma_ready_after_push(self, new: TaskId, id: TaskId)
        ensures
            self.ready.push(new).contains(id) <==> (id == new || self.ready.contains(id)),
    {
        let longer = self.ready.push(new);
        if longer.contains(id) {
            let i = choose|i: int| 0 <= i < longer.len() && longer[i] == id;
            if i < self.ready.len() {
                assert(self.ready[i] == id);
            }
        }
        if self.ready.contains(id) {
            let i = choose|i: int| 0 <= i < self.ready.len() && self.ready[i] == id;
            assert(longer[i] == id);
        }
        assert(longer[self.ready.len() as int] == new);
    }

    proof fn lemma_push_no_duplicates(self, new: TaskId)
        requires
            self.ready.no_duplicates(),
            !self.ready.contains(new),
        ensures
            self.ready.push(new).no_duplicates(),
    {
        let longer = self.ready.push(new);
        assert forall|i: int, j: int|
            0 <= i < longer.len() && 0 <= j < longer.len() && i != j implies longer[i]
            != longer[j] by {
            if i < self.ready.len() {
                assert(self.ready.contains(longer[i]));
            }
            if j < self.ready.len() {
                assert(self.ready.contains(longer[j]));
            }
        }
    }

    proof fn lemma_ready_after_remove(self, at: int, id: TaskId)
        requires
            self.ready.no_duplicates(),
            0 <= at < self.ready.len(),
        ensures
            self.ready.remove(at).contains(id) <==> (id != self.ready[at] && self.ready.contains(
                id,
            )),
    {
        let shorter = self.ready.remove(at);
        if shorter.contains(id) {
            let i = choose|i: int| 0 <= i < shorter.len() && shorter[i] == id;
            let origin = if i < at {
                i
            } else {
                i + 1
            };
            assert(self.ready[origin] == id);
        }
        if id != self.ready[at] && self.ready.contains(id) {
            let i = choose|i: int| 0 <= i < self.ready.len() && self.ready[i] == id;
            let place = if i < at {
                i
            } else {
                i - 1
            };
            assert(shorter[place] == id);
        }
    }

    proof fn lemma_remove_no_duplicates(self, at: int)
        requires
            self.ready.no_duplicates(),
            0 <= at < self.ready.len(),
        ensures
            self.ready.remove(at).no_duplicates(),
    {
        let shorter = self.ready.remove(at);
        assert forall|i: int, j: int|
            0 <= i < shorter.len() && 0 <= j < shorter.len() && i != j implies shorter[i]
            != shorter[j] by {
            let oi = if i < at {
                i
            } else {
                i + 1
            };
            let oj = if j < at {
                j
            } else {
                j + 1
            };
            assert(shorter[i] == self.ready[oi]);
            assert(shorter[j] == self.ready[oj]);
        }
    }

    /// A wakeup that fires again before the task is polled changes nothing.
    pub proof fn lemma_wake_idempotent(self, id: TaskId)
        ensures
            self.woken(id).woken(id) == self.woken(id),
    {
    }

    /// A suspended task is not taken to be polled before its wakeup fires,
    /// whatever else happens.
    pub proof fn lemma_suspended_until_woken(self, events: Seq<Event>, id: TaskId)
        requires
            self.wf(),
            self.states.len() + spawns(events) <= usize::MAX,
            self.state_of(id) == TaskState::Suspended,
            never_wakes(events, id),
        ensures
            self.times_taken(events, id) == 0,
        decreases events.len(),
    {
        if events.len() > 0 {
            let event = events[0];
            let after = self.step(event);
            self.lemma_step_keeps_wf(event);
            self.lemma_step_grows(event);
            assert(!self.ready.contains(id));
            if self.ready.len() > 0 {
                assert(self.ready.contains(self.ready[0]));
                assert(self.state_of(self.ready[0]) == TaskState::Ready);
            }
            assert(event != Event::Wake(id));
            assert(after.state_of(id) == TaskState::Suspended || after.state_of(id)
                == TaskState::Done);
            assert(never_wakes(events.drop_first(), id)) by {
                assert forall|i: int| 0 <= i < events.drop_first().len() implies events.drop_first()[i]
                    != Event::Wake(id) by {
                    assert(events.drop_first()[i] == events[i + 1]);
                }
            }
            if after.state_of(id) == TaskState::Suspended {
                after.lemma_suspended_until_woken(events.drop_first(), id);
            } else {
                after.lemma_done_stays_done(events.drop_first(), id);
            }
        }
    }

    /// A task that is done is not taken to be polled again.
    pub proof fn lemma_done_stays_done(self, events: Seq<Event>, id: TaskId)
        requires
            self.wf(),
            self.states.len() + spawns(events) <= usize::MAX,
            id.0 < self.states.len(),
            self.state_of(id) == TaskState::Done,
        ensures
            self.times_taken(events, id) == 0,
        decreases events.len(),
    {
        if events.len() > 0 {
            let event = events[0];
            let after = self.step(event);
            self.lemma_step_keeps_wf(event);
            self.lemma_step_grows(event);
            assert(!self.ready.contains(id));
            if self.ready.len() > 0 {
                assert(self.ready.contains(self.ready[0]));
                assert(self.state_of(self.ready[0]) == TaskState::Ready);
            }
            after.lemma_done_stays_done(events.drop_first(), id);
        }
    }

    /// However often the wakeup of a task fires before the task is polled,
    /// the task is then taken to be polled once at most, until it is woken
    /// again.
    pub proof fn lemma_woken_once(self, events: Seq<Event>, id: TaskId)
        requires
            self.wf(),
            self.states.len() + spawns(events) <= usize::MAX,
            never_wakes(events, id),
        ensures
            self.woken(id).woken(id) == self.woken(id),
            self.woken(id).times_taken(events, id) <= 1,
    {
        self.lemma_step_keeps_wf(Event::Wake(id));
        self.woken(id).lemma_taken_once(events, id);
    }

    /// Without a new wakeup, a task is taken to be polled once at most.
    pub proof fn lemma_taken_once(self, events: Seq<Event>, id: TaskId)
        requires
            self.wf(),
            self.states.len() + spawns(events) <= usize::MAX,
            never_wakes(events, id),
        ensures
            self.times_taken(events, id) <= 1,
        decreases events.len(),
    {
        if events.len() > 0 {
            let event = events[0];
            let after = self.step(event);
            let rest = events.drop_first();
            self.lemma_step_keeps_wf(event);
            self.lemma_step_grows(event);
            assert(never_wakes(rest, id)) by {
                assert forall|i: int| 0 <= i < rest.len() implies rest[i] != Event::Wake(id) by {
                    assert(rest[i] == events[i + 1]);
                }
            }
            if event is Take && self.next() == Some(id) {
                assert(after.state_of(id) == TaskState::Suspended) by {
                    assert(self.ready.contains(id));
                    assert(self.state_of(id) == TaskState::Ready);
                }
                after.lemma_suspended_until_woken(rest, id);
            } else {
                after.lemma_taken_once(rest, id);
            }
        }
    }

    /// A ready task is polled when its turn comes: while the run loop
    /// empties the ready set, it takes the task once.
    pub proof fn lemma_ready_is_taken(self, id: TaskId)
        requires
            self.wf(),
            self.state_of(id) == TaskState::Ready,
        ensures
            self.times_taken(takes(self.ready.len()), id) == 1,
        decreases self.ready.len(),
    {
        let events = takes(self.ready.len());
        assert(self.ready.contains(id));
        assert(self.ready.len() > 0);
        let rest = takes((self.ready.len() - 1) as nat);
        assert(events.drop_first() =~= rest);
        assert(events[0] is Take);
        let after = self.taken();
        self.lemma_step_keeps_wf(Event::Take);
        assert(self.ready.contains(self.ready[0]));
        assert(self.state_of(self.ready[0]) == TaskState::Ready);
        if self.ready[0] == id {
            assert(never_wakes(rest, id));
            lemma_takes_spawn_nothing((self.ready.len() - 1) as nat);
            after.lemma_suspended_until_woken(rest, id);
        } else {
            assert(after.state_of(id) == TaskState::Ready);
            after.lemma_ready_is_taken(id);
        }
    }

    /// A wakeup that fires when nothing is ready, be it just before the
    /// run loop would halt or just after, makes its task the one that the
    /// loop takes next.
    pub proof fn lemma_wake_ends_idleness(self, id: TaskId)
        requires
            self.wf(),
            self.idle(),
            self.state_of(id) == TaskState::Suspended,
        ensures
            !self.woken(id).idle(),
            self.woken(id).next() == Some(id),
            self.woken(id).taken().state_of(id) == TaskState::Suspended,
    {
    }
}

/// The scheduler's record of its tasks.
pub struct Executor {
    states: Vec<TaskState>,
    ready: VecDeque<TaskId>,
}

impl View for Executor {
    type V = SchedulerState;

    closed spec fn view(&self) -> SchedulerState {
        SchedulerState { states: self.states@, ready: self.ready@ }
    }
}

impl Executor {
    /// A scheduler without tasks.
    pub fn new() -> (executor: Executor)
        ensures
            executor@.wf(),
            executor@.states.len() == 0,
            executor@.ready.len() == 0,
    {
        Executor { states: Vec::new(), ready: VecDeque::new() }
    }

    /// Admits a new task and names it. The task is ready.
    pub fn spawn(&mut self) -> (id: TaskId)
        requires
            old(self)@.wf(),
            old(self)@.states.len() < usize::MAX,
        ensures
            final(self)@.wf(),
            final(self)@ == old(self)@.spawned(),
            id == TaskId(old(self)@.states.len() as usize),
            old(self)@.state_of(id) == TaskState::Done,
    {
        let id = TaskId(self.states.len());
        self.states.push(TaskState::Ready);
        self.ready.push_back(id);
        proof {
            old(self)@.lemma_step_keeps_wf(Event::Spawn);
        }
        id
    }

    /// Takes the next ready task out of the ready set, to be polled. `None`
    /// says that nothing is ready.
    pub fn next_ready(&mut self) -> (next: Option<TaskId>)
        requires
            old(self)@.wf(),
        ensures
            final(self)@.wf(),
            final(self)@ == old(self)@.taken(),
            next == old(self)@.next(),
            next matches Some(id) ==> old(self)@.state_of(id) == TaskState::Ready,
    {
        proof {
            old(self)@.lemma_step_keeps_wf(Event::Take);
            if self.ready@.len() > 0 {
                assert(self.ready@.contains(self.ready@[0]));
                assert(self@.state_of(self.ready@[0]) == TaskState::Ready);
                assert(self.ready@.subrange(1, self.ready@.len() as int) =~= self.ready@.drop_first());
            }
        }
        match self.ready.pop_front() {
            Some(id) => {
                assert(id.0 < self.states@.len());
                self.states[id.0] = TaskState::Suspended;
                assert(self@ =~= old(self)@.taken());
                Some(id)
            },
            None => None,
        }
    }

    /// Records how the poll of `id` ended. A task that is done is removed;
    /// one that is not stays as it is: suspended, or ready again if its
    /// wakeup has fired meanwhile.
    pub fn finish_poll(&mut self, id: TaskId, outcome: Poll<()>)
        requires
            old(self)@.wf(),
        ensures
            final(self)@.wf(),
            final(self)@ == old(self)@.step(Event::Polled(id, outcome is Ready)),
    {
        proof {
            old(self)@.lemma_step_keeps_wf(Event::Polled(id, outcome is Ready));
        }
        match outcome {
            Poll::Ready(()) => {
                if id.0 < self.states.len() {
                    self.states[id.0] = TaskState::Done;
                    let mut i: usize = 0;
                    while i < self.ready.len()
                        invariant
                            i <= self.ready@.len(),
                            outcome is Ready,
                            old(self)@.wf(),
                            id.0 < old(self)@.states.len(),
                            self.states@ == old(self)@.states.update(id.0 as int, TaskState::Done),
                            self.ready@ == old(self)@.ready,
                            forall|j: int| 0 <= j < i ==> self.ready@[j] != id,
                            old(self)@.completed(id).wf(),
                        decreases self.ready@.len() - i,
                    {
                        if self.ready[i] == id {
                            proof {
                                assert(self.ready@.contains(id));
                                assert(self.ready@.index_of(id) == i);
                            }
                            self.ready.remove(i);
                            assert(self@ =~= old(self)@.completed(id));
                            return ;
                        }
                        i = i + 1;
                    }
                }
            },
            Poll::Pending => {},
        }
    }

    /// The wakeup of `id` has fired: a suspended task goes back into the
    /// ready set. For a task that is ready already, that is done or that
    /// never was, nothing happens.
    pub fn wake(&mut self, id: TaskId)
        requires
            old(self)@.wf(),
        ensures
            final(self)@.wf(),
            final(self)@ == old(self)@.woken(id),
    {
        proof {
            old(self)@.lemma_step_keeps_wf(Event::Wake(id));
        }
        if id.0 < self.states.len() {
            if self.states[id.0] == TaskState::Suspended {
                self.states[id.0] = TaskState::Ready;
                self.ready.push_back(id);
            }
        }
    }

    /// Whether nothing is ready, so that the processor may halt until the
    /// next interrupt. The caller must ask and halt in one step that no
    /// interrupt can split.
    pub fn is_idle(&self) -> (idle: bool)
        ensures
            idle == self@.idle(),
    {
        self.ready.len() == 0
    }

    /// How many tasks were spawned so far.
    pub fn task_count(&self) -> (count: usize)
        ensures
            count == self@.states.len(),
    {
        self.states.len()
    }

    /// Where `id` stands.
    pub fn state_of(&self, id: TaskId) -> (state: TaskState)
        ensures
            state == self@.state_of(id),
    {
        if id.0 < self.states.len() {
            self.states[id.0]
        } else {
            TaskState::Done
        }
    }
}

} // verus!
