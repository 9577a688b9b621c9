//! The task supervisor: it hands out subscriptions to the shutdown signal,
//! broadcasts the signal when a task fails fatally, and waits for every
//! task to finish, but no longer than the global deadline.

use vstd::prelude::*;
use crate::error::ClientCoreError;

verus! {

/// Milliseconds that a task is given to drain what it has in flight.
pub const DEFAULT_DRAIN_DEADLINE_MS: u64 = 5_000;

/// Milliseconds that the supervisor waits for all tasks after the signal.
pub const DEFAULT_GLOBAL_DEADLINE_MS: u64 = 10_000;

/// A task's subscription to the shutdown signal.
#[derive(Debug, Clone, Copy, PartialEq, Eq, Structural)]
pub struct TaskClient {
    pub id: u64,
    /// Milliseconds that the task may spend draining after the signal.
    pub drain_deadline_ms: u64,
}

/// Where the supervisor stands.
#[derive(Debug, Clone, Copy, PartialEq, Eq, Structural)]
pub enum SupervisorPhase {
    /// Tasks run; no shutdown was asked for.
    Running,
    /// The shutdown signal went out at `since_ms`.
    ShuttingDown { since_ms: u64 },
}

/// What the supervisor reports when asked.
#[derive(Debug, PartialEq, Eq)]
pub enum SupervisorStatus {
    /// No shutdown was asked for.
    Running,
    /// The signal went out and `remaining` tasks have not finished yet.
    Draining { remaining: usize },
    /// Every task has finished, or the deadline has passed.
    Done { result: Result<(), ClientCoreError> },
}

/// Supervises the tasks of the client.
#[derive(Debug, PartialEq, Eq)]
pub struct TaskManager {
    next_id: u64,
    active: Vec<u64>,
    phase: SupervisorPhase,
    first_error: Option<ClientCoreError>,
    drain_deadline_ms: u64,
    global_deadline_ms: u64,
}

impl TaskManager {
    /// The tasks that have subscribed and not finished, in the order of subscription.
    pub closed spec fn active(&self) -> Seq<u64> {
        self.active@
    }

    pub closed spec fn phase(&self) -> SupervisorPhase {
        self.phase
    }

    /// The first fatal error that a task reported.
    pub closed spec fn first_error(&self) -> Option<ClientCoreError> {
        self.first_error
    }

    pub closed spec fn global_deadline_ms(&self) -> u64 {
        self.global_deadline_ms
    }

    pub closed spec fn drain_deadline_ms(&self) -> u64 {
        self.drain_deadline_ms
    }

    /// The id that the next subscriber gets.
    pub closed spec fn next_id(&self) -> u64 {
        self.next_id
    }

    /// No task is listed twice and every listed id was handed out.
    pub closed spec fn wf(&self) -> bool {
        &&& self.active@.no_duplicates()
        &&& forall|i: int| 0 <= i < self.active@.len() ==> #[trigger] self.active@[i] < self.next_id
    }

    pub fn new(drain_deadline_ms: u64, global_deadline_ms: u64) -> (manager: TaskManager)
        ensures
            manager.wf(),
            manager.active() == Seq::<u64>::empty(),
            manager.phase() == SupervisorPhase::Running,
            manager.first_error() is None,
            manager.drain_deadline_ms() == drain_deadline_ms,
            manager.global_deadline_ms() == global_deadline_ms,
            manager.next_id() == 0,
    {
        TaskManager {
            next_id: 0,
            active: Vec::new(),
            phase: SupervisorPhase::Running,
            first_error: None,
            drain_deadline_ms,
            global_deadline_ms,
        }
    }

    /// How many tasks have subscribed and not finished.
    pub fn active_count(&self) -> (n: usize)
        ensures
            n == self.active().len(),
    {
        self.active.len()
    }

    /// Whether the shutdown signal has gone out.
    pub fn is_shutting_down(&self) -> (down: bool)
        ensures
            down == !(self.phase() is Running),
    {
        match self.phase {
            SupervisorPhase::Running => false,
            SupervisorPhase::ShuttingDown { .. } => true,
        }
    }

    /// Registers a task. `None` says that no task can be added: the
    /// shutdown signal has gone out, or the ids are used up.
    pub fn subscribe(&mut self) -> (client: Option<TaskClient>)
        requires
            old(self).wf(),
        ensures
            final(self).wf(),
            final(self).phase() == old(self).phase(),
            final(self).first_error() == old(self).first_error(),
            final(self).global_deadline_ms() == old(self).global_deadline_ms(),
            final(self).drain_deadline_ms() == old(self).drain_deadline_ms(),
            client is Some <==> old(self).phase() is Running && old(self).next_id() < u64::MAX,
            client is Some ==> client.unwrap().id == old(self).next_id()
                && client.unwrap().drain_deadline_ms
                == old(self).drain_deadline_ms() && final(self).active() == old(self).active().push(
                client.unwrap().id,
            ) && final(self).next_id() == old(self).next_id() + 1,
            client is None ==> final(self).active() == old(self).active() && final(self).next_id()
                == old(self).next_id(),
    {
        match self.phase {
            SupervisorPhase::ShuttingDown { .. } => {
                return None;
            },
            SupervisorPhase::Running => {},
        }
        if self.next_id == u64::MAX {
            return None;
        }
        let id = self.next_id;
        let ghost before = self.active@;
        self.active.push(id);
        self.next_id = id + 1;
        proof {
            assert forall|a: int, b: int|
                0 <= a < self.active@.len() && 0 <= b < self.active@.len()
                    && a != b implies self.active@[a]
                != self.active@[b] by {
                if a < before.len() {
                    assert(self.active@[a] == before[a]);
                }
                if b < before.len() {
                    assert(self.active@[b] == before[b]);
                }
            }
        }
        Some(TaskClient { id, drain_deadline_ms: self.drain_deadline_ms })
    }

    /// Broadcasts the shutdown signal at `now_ms`, unless it has gone out
    /// already. Returns whether the signal goes out now.
    pub fn signal_shutdown(&mut self, now_ms: u64) -> (broadcast: bool)
        requires
            old(self).wf(),
        ensures
            final(self).wf(),
            final(self).active() == old(self).active(),
            final(self).first_error() == old(self).first_error(),
            final(self).next_id() == old(self).next_id(),
            final(self).global_deadline_ms() == old(self).global_deadline_ms(),
            final(self).drain_deadline_ms() == old(self).drain_deadline_ms(),
            broadcast == old(self).phase() is Running,
            old(self).phase() is Running ==> final(self).phase() == (SupervisorPhase::ShuttingDown {
                since_ms: now_ms,
            }),
            !(old(self).phase() is Running) ==> final(self).phase() == old(self).phase(),
    {
        match self.phase {
            SupervisorPhase::Running => {
                self.phase = SupervisorPhase::ShuttingDown { since_ms: now_ms };
                true
            },
            SupervisorPhase::ShuttingDown { .. } => false,
        }
    }

    /// A task has finished, on its own or after the signal.
    pub fn on_task_finished(&mut self, id: u64)
        requires
            old(self).wf(),
        ensures
            final(self).wf(),
            final(self).phase() == old(self).phase(),
            final(self).first_error() == old(self).first_error(),
            final(self).next_id() == old(self).next_id(),
            final(self).global_deadline_ms() == old(self).global_deadline_ms(),
            final(self).drain_deadline_ms() == old(self).drain_deadline_ms(),
            !final(self).active().contains(id),
            forall|other: u64|
                other != id ==> (#[trigger] final(self).active().contains(other)
                    <==> old(self).active().contains(other)),
            final(self).active().len() == if old(self).active().contains(id) {
                old(self).active().len() - 1
            } else {
                old(self).active().len() as int
            },
    {
        let mut i: usize = 0;
        while i < self.active.len()
            invariant
                i <= self.active@.len(),
                *self == *old(self),
                self.wf(),
                forall|j: int| 0 <= j < i ==> self.active@[j] != id,
            decreases self.active@.len() - i,
        {
            if self.active[i] == id {
                let ghost before = self.active@;
                let _ = self.active.remove(i);
                proof {
                    assert forall|a: int, b: int|
                        0 <= a < self.active@.len() && 0 <= b < self.active@.len() && a
                            != b implies self.active@[a] != self.active@[b] by {
                        let a0 = if a < i { a } else { a + 1 };
                        let b0 = if b < i { b } else { b + 1 };
                        assert(self.active@[a] == before[a0]);
                        assert(self.active@[b] == before[b0]);
                    }
                    assert forall|j: int| 0 <= j < self.active@.len() implies #[trigger]
                        self.active@[j] < self.next_id by {
                        let j0 = if j < i { j } else { j + 1 };
                        assert(self.active@[j] == before[j0]);
                    }
                    assert(!self.active@.contains(id)) by {
                        if self.active@.contains(id) {
                            let p = choose|p: int| 0 <= p < self.active@.len()
                                && self.active@[p] == id;
                            let q = if p < i { p } else { p + 1 };
                            assert(before[q] == id);
                        }
                    }
                    assert forall|other: u64| other != id implies (#[trigger] self.active@.contains(
                        other,
                    ) <==> before.contains(other)) by {
                        if self.active@.contains(other) {
                            let p = choose|p: int|
                                0 <= p < self.active@.len() && self.active@[p] == other;
                            let q = if p < i { p } else { p + 1 };
                            assert(before[q] == other);
                        }
                        if before.contains(other) {
                            let q = choose|p: int| 0 <= p < before.len() && before[p] == other;
                            let p = if q < i { q } else { q - 1 };
                            assert(self.active@[p] == other);
                        }
                    }
                    assert(before.contains(id)) by {
                        assert(before[i as int] == id);
                    }
                }
                return;
            }
            i += 1;
        }
    }

    /// A task has failed fatally at `now_ms`: it counts as finished, its
    /// error is kept if it is the first, and the shutdown signal goes out
    /// unless it has gone out already. Returns whether it goes out now.
    pub fn on_task_failed(&mut self, id: u64, error: ClientCoreError, now_ms: u64) -> (broadcast:
        bool)
        requires
            old(self).wf(),
        ensures
            final(self).wf(),
            final(self).next_id() == old(self).next_id(),
            final(self).global_deadline_ms() == old(self).global_deadline_ms(),
            final(self).drain_deadline_ms() == old(self).drain_deadline_ms(),
            old(self).first_error() is Some ==> final(self).first_error()
                == old(self).first_error(),
            old(self).first_error() is None ==> final(self).first_error() == Some(error),
            broadcast == old(self).phase() is Running,
            old(self).phase() is Running ==> final(self).phase() == (SupervisorPhase::ShuttingDown {
                since_ms: now_ms,
            }),
            !(old(self).phase() is Running) ==> final(self).phase() == old(self).phase(),
            !final(self).active().contains(id),
            forall|other: u64|
                other != id ==> (#[trigger] final(self).active().contains(other)
                    <==> old(self).active().contains(other)),
            final(self).active().len() == if old(self).active().contains(id) {
                old(self).active().len() - 1
            } else {
                old(self).active().len() as int
            },
    {
        self.on_task_finished(id);
        if self.first_error.is_none() {
            self.first_error = Some(error);
        }
        self.signal_shutdown(now_ms)
    }

    /// Reports where the shutdown stands at `now_ms`. After the signal the
    /// supervisor is done when every task has finished or the global
    /// deadline has passed; it then returns the first error that was
    /// reported, or `SupervisorDeadlineExceeded` if tasks are left and no
    /// error was.
    pub fn poll(&self, now_ms: u64) -> (status: SupervisorStatus)
        requires
            self.wf(),
        ensures
            self.phase() is Running ==> status == SupervisorStatus::Running,
            self.phase() matches SupervisorPhase::ShuttingDown { since_ms } ==> {
                let expired = now_ms >= since_ms && now_ms - since_ms >= self.global_deadline_ms();
                if self.active().len() == 0 {
                    status == (SupervisorStatus::Done {
                        result: match self.first_error() {
                            Some(error) => Err(error),
                            None => Ok(()),
                        },
                    })
                } else if expired {
                    status == (SupervisorStatus::Done {
                        result: match self.first_error() {
                            Some(error) => Err(error),
                            None => Err(ClientCoreError::SupervisorDeadlineExceeded),
                        },
                    })
                } else {
                    status == (SupervisorStatus::Draining { remaining: self.active().len() as usize })
                }
            },
    {
        match self.phase {
            SupervisorPhase::Running => SupervisorStatus::Running,
            SupervisorPhase::ShuttingDown { since_ms } => {
                if self.active.len() == 0 {
                    let result = match &self.first_error {
                        Some(error) => Err(error.duplicate()),
                        None => Ok(()),
                    };
                    SupervisorStatus::Done { result }
                } else if now_ms >= since_ms && now_ms - since_ms >= self.global_deadline_ms {
                    let result = match &self.first_error {
                        Some(error) => Err(error.duplicate()),
                        None => Err(ClientCoreError::SupervisorDeadlineExceeded),
                    };
                    SupervisorStatus::Done { result }
                } else {
                    SupervisorStatus::Draining { remaining: self.active.len() }
                }
            },
        }
    }
}

impl Default for TaskManager {
    fn default() -> (manager: TaskManager)
        ensures
            manager.wf(),
            manager.active() == Seq::<u64>::empty(),
            manager.phase() == SupervisorPhase::Running,
            manager.first_error() is None,
            manager.drain_deadline_ms() == DEFAULT_DRAIN_DEADLINE_MS,
            manager.global_deadline_ms() == DEFAULT_GLOBAL_DEADLINE_MS,
    {
        TaskManager::new(DEFAULT_DRAIN_DEADLINE_MS, DEFAULT_GLOBAL_DEADLINE_MS)
    }
}

} // verus!
