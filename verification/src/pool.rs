//! The life of a worker pool: not started, running with all its
//! workers, draining while they leave one by one, and joined once the
//! last has left. A pool never goes back and never starts twice.

use vstd::prelude::*;

verus! {

/// The phase a pool is in.
#[derive(Clone, Copy, Debug, PartialEq, Eq)]
pub enum Phase {
    /// No worker has been started.
    NotStarted,
    /// All workers are at work.
    Running,
    /// The work has run out: some workers have left, others are still
    /// at work.
    Draining,
    /// Every worker has left.
    Joined,
}

/// The state of a pool: its size, the workers still at work, and its
/// phase.
pub struct PoolModel {
    pub workers: nat,
    pub active: nat,
    pub phase: Phase,
}

impl PoolModel {
    /// The place of the phase in the life of a pool.
    pub open spec fn rank(self) -> int {
        match self.phase {
            Phase::NotStarted => 0,
            Phase::Running => 1,
            Phase::Draining => 2,
            Phase::Joined => 3,
        }
    }

    /// The number of workers at work agrees with the phase.
    pub open spec fn wf(self) -> bool {
        match self.phase {
            Phase::NotStarted => self.active == 0,
            Phase::Running => self.active == self.workers && self.workers > 0,
            Phase::Draining => 0 < self.active < self.workers,
            Phase::Joined => self.active == 0,
        }
    }

    /// The state after a start: a pool that has not started runs with
    /// all its workers, or is joined at once where it has none; any
    /// other pool stays as it is.
    pub open spec fn started(self) -> PoolModel {
        if self.phase != Phase::NotStarted {
            self
        } else if self.workers == 0 {
            PoolModel { phase: Phase::Joined, ..self }
        } else {
            PoolModel { active: self.workers, phase: Phase::Running, ..self }
        }
    }

    /// The state after a worker has left: a pool with workers at work
    /// has one fewer, and is joined where that was the last and
    /// draining otherwise; any other pool stays as it is.
    pub open spec fn left(self) -> PoolModel {
        if self.phase != Phase::Running && self.phase != Phase::Draining {
            self
        } else if self.active == 1 {
            PoolModel { active: 0, phase: Phase::Joined, ..self }
        } else {
            PoolModel { active: (self.active - 1) as nat, phase: Phase::Draining, ..self }
        }
    }
}

/// What can happen to a pool.
pub enum PoolEvent {
    /// The pool is started.
    Start,
    /// A worker has found the work run out and left.
    WorkerExited,
}

impl PoolModel {
    /// The state after `event`.
    pub open spec fn step(self, event: PoolEvent) -> PoolModel {
        match event {
            PoolEvent::Start => self.started(),
            PoolEvent::WorkerExited => self.left(),
        }
    }

    /// The state after `events`, one after another.
    pub open spec fn after(self, events: Seq<PoolEvent>) -> PoolModel
        decreases events.len(),
    {
        if events.len() == 0 {
            self
        } else {
            self.after(events.drop_last()).step(events.last())
        }
    }
}

/// A pool only moves forward: whatever happens to it, it keeps its
/// size, its phase never falls back, and a joined pool stays as it is.
pub proof fn lemma_pool_only_advances(p: PoolModel, events: Seq<PoolEvent>)
    requires
        p.wf(),
    ensures
        p.after(events).wf(),
        p.after(events).workers == p.workers,
        p.after(events).rank() >= p.rank(),
        p.phase == Phase::Joined ==> p.after(events) == p,
    decreases events.len(),
{
    if events.len() > 0 {
        lemma_pool_only_advances(p, events.drop_last());
    }
}

/// The bookkeeping of a worker pool.
pub struct WorkerPool {
    workers: usize,
    active: usize,
    phase: Phase,
}

impl View for WorkerPool {
    type V = PoolModel;

    closed spec fn view(&self) -> PoolModel {
        PoolModel { workers: self.workers as nat, active: self.active as nat, phase: self.phase }
    }
}

impl WorkerPool {
    /// The pool is in order.
    pub open spec fn wf(&self) -> bool {
        self@.wf()
    }

    /// A pool of `workers` workers that has not started.
    pub fn new(workers: usize) -> (pool: WorkerPool)
        ensures
            pool.wf(),
            pool@ == (PoolModel { workers: workers as nat, active: 0, phase: Phase::NotStarted }),
    {
        WorkerPool { workers, active: 0, phase: Phase::NotStarted }
    }

    /// The phase the pool is in.
    pub fn phase(&self) -> (phase: Phase)
        ensures
            phase == self@.phase,
    {
        self.phase
    }

    /// The number of workers the pool was made for.
    pub fn workers(&self) -> (n: usize)
        ensures
            n == self@.workers,
    {
        self.workers
    }

    /// The number of workers still at work.
    pub fn active(&self) -> (n: usize)
        ensures
            n == self@.active,
    {
        self.active
    }

    /// Starts the pool. Returns whether it had not started before; a
    /// pool that had is left as it is.
    pub fn start(&mut self) -> (started: bool)
        requires
            old(self).wf(),
        ensures
            final(self).wf(),
            started == (old(self)@.phase == Phase::NotStarted),
            final(self)@ == old(self)@.started(),
            final(self)@.rank() >= old(self)@.rank(),
    {
        match self.phase {
            Phase::NotStarted => {
                if self.workers == 0 {
                    self.phase = Phase::Joined;
                } else {
                    self.active = self.workers;
                    self.phase = Phase::Running;
                }
                true
            },
            _ => false,
        }
    }

    /// Records that a worker has found the work run out and left.
    /// Returns whether a worker was at work; a pool with none is left
    /// as it is.
    pub fn worker_exited(&mut self) -> (counted: bool)
        requires
            old(self).wf(),
        ensures
            final(self).wf(),
            counted == (old(self)@.phase == Phase::Running || old(self)@.phase == Phase::Draining),
            final(self)@ == old(self)@.left(),
            final(self)@.rank() >= old(self)@.rank(),
    {
        match self.phase {
            Phase::Running | Phase::Draining => {
                self.active = self.active - 1;
                if self.active == 0 {
                    self.phase = Phase::Joined;
                } else {
                    self.phase = Phase::Draining;
                }
                true
            },
            _ => false,
        }
    }
}

} // verus!
