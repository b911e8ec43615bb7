//! The bookkeeping of a worker pool: which tasks wait, how many run, and
//! what a worker does next.
//!
//! A pool has a fixed number of workers and one queue of tasks that they
//! share. This module holds the state of such a pool and its transitions.
//! It starts no thread and takes no lock: the pool that owns the threads
//! keeps one `PoolState` behind its lock, and each transition is one step
//! under that lock.

use vstd::prelude::*;
use std::collections::VecDeque;

verus! {

/// The number of workers of a pool that is made without a size of its own.
pub const DEFAULT_POOL_SIZE: usize = 4;

/// Why the pool refuses.
#[derive(Debug, Clone, Copy, PartialEq, Eq)]
pub enum PoolError {
    /// A pool needs at least one worker.
    InvalidPoolSize,
    /// The pool was shut down and takes no more tasks.
    Closed,
}

/// What a worker that has nothing in hand does next.
pub enum WorkerStep<T> {
    /// Run the task that comes with this step, then call `finish`.
    Run(T),
    /// Nothing can be started now: wait until the state changes.
    Wait,
    /// The pool was shut down and nothing waits: leave.
    Exit,
}

/// The state of a pool whose tasks are of type `T`.
pub struct PoolState<T> {
    size: usize,
    queue: VecDeque<T>,
    running: usize,
    open: bool,
    accepted: Ghost<Seq<T>>,
    started: Ghost<nat>,
    finished: Ghost<nat>,
}

impl<T> PoolState<T> {
    /// The number of workers.
    pub closed spec fn size(&self) -> nat {
        self.size as nat
    }

    /// Whether the pool still takes tasks.
    pub closed spec fn is_open(&self) -> bool {
        self.open
    }

    /// Every task that the pool has taken, in the order of submission.
    pub closed spec fn accepted(&self) -> Seq<T> {
        self.accepted@
    }

    /// How many tasks have been handed to workers.
    pub closed spec fn started(&self) -> nat {
        self.started@
    }

    /// How many tasks have been reported as done.
    pub closed spec fn finished(&self) -> nat {
        self.finished@
    }

    /// The tasks that wait, the one that is handed out next first: those
    /// taken and not yet handed out.
    pub open spec fn waiting(&self) -> Seq<T> {
        self.accepted().skip(self.started() as int)
    }

    /// How many tasks are running: those handed out and not yet done.
    pub open spec fn running(&self) -> int {
        self.started() - self.finished()
    }

    /// Whether the pool was shut down and has nothing left to do.
    pub open spec fn drained(&self) -> bool {
        !self.is_open() && self.waiting().len() == 0 && self.running() == 0
    }

    /// The invariant of the state: the tasks are handed out in the order in
    /// which they were taken, none twice and none passed over, and never
    /// more of them run than there are workers.
    pub closed spec fn wf(&self) -> bool {
        &&& self.size > 0
        &&& self.finished@ <= self.started@ <= self.accepted@.len()
        &&& self.queue@ == self.accepted@.skip(self.started@ as int)
        &&& self.running == self.started@ - self.finished@
        &&& self.running <= self.size
    }

    /// In every state, at most as many tasks run as there are workers, and
    /// no more tasks have been handed out than were taken.
    pub proof fn lemma_bounds(&self)
        requires
            self.wf(),
        ensures
            self.size() > 0,
            0 <= self.running() <= self.size(),
            self.finished() <= self.started() <= self.accepted().len(),
            self.started() + self.waiting().len() == self.accepted().len(),
    {
    }

    /// While something waits or runs, the pool can move: the task that has
    /// waited longest can be started, or a task that runs can finish.
    pub proof fn lemma_progress(&self)
        requires
            self.wf(),
            self.waiting().len() > 0 || self.running() > 0,
        ensures
            (self.waiting().len() > 0 && self.running() < self.size()) || self.running() > 0,
    {
    }

    /// Once a pool has drained, every task that it took has been handed to
    /// a worker and has been reported as done.
    pub proof fn lemma_drained_ran_all(&self)
        requires
            self.wf(),
            self.drained(),
        ensures
            self.started() == self.accepted().len(),
            self.finished() == self.accepted().len(),
    {
    }

    /// A pool of `size` workers that has taken no task yet. Fails with
    /// `InvalidPoolSize` where `size` is zero.
    pub fn new(size: usize) -> (result: Result<Self, PoolError>)
        ensures
            size == 0 <==> result == Err::<Self, PoolError>(PoolError::InvalidPoolSize),
            size > 0 <==> result is Ok,
            result matches Ok(pool) ==> {
                &&& pool.wf()
                &&& pool.size() == size
                &&& pool.is_open()
                &&& pool.accepted() == Seq::<T>::empty()
                &&& pool.started() == 0
                &&& pool.finished() == 0
            },
    {
        if size == 0 {
            return Err(PoolError::InvalidPoolSize);
        }
        let pool = PoolState {
            size,
            queue: VecDeque::new(),
            running: 0,
            open: true,
            accepted: Ghost(Seq::empty()),
            started: Ghost(0),
            finished: Ghost(0),
        };
        assert(pool.queue@ =~= pool.accepted@.skip(0));
        Ok(pool)
    }

    /// Puts `task` at the end of the queue. Fails with `Closed`, and changes
    /// nothing, where the pool was shut down.
    pub fn submit(&mut self, task: T) -> (result: Result<(), PoolError>)
        requires
            old(self).wf(),
        ensures
            final(self).wf(),
            final(self).size() == old(self).size(),
            final(self).is_open() == old(self).is_open(),
            final(self).started() == old(self).started(),
            final(self).finished() == old(self).finished(),
            old(self).is_open() ==> {
                &&& result is Ok
                &&& final(self).accepted() == old(self).accepted().push(task)
            },
            !old(self).is_open() ==> {
                &&& result == Err::<(), PoolError>(PoolError::Closed)
                &&& final(self).accepted() == old(self).accepted()
            },
    {
        if !self.open {
            return Err(PoolError::Closed);
        }
        proof {
            self.accepted@ = self.accepted@.push(task);
        }
        self.queue.push_back(task);
        assert(self.queue@ =~= self.accepted@.skip(self.started@ as int));
        Ok(())
    }

    /// What a worker that has nothing in hand does next. Where a task waits
    /// and fewer tasks run than there are workers, the worker gets the task
    /// that has waited longest. Where nothing waits and the pool was shut
    /// down, the worker leaves. Else it waits.
    pub fn next_step(&mut self) -> (step: WorkerStep<T>)
        requires
            old(self).wf(),
        ensures
            final(self).wf(),
            final(self).size() == old(self).size(),
            final(self).is_open() == old(self).is_open(),
            final(self).accepted() == old(self).accepted(),
            final(self).finished() == old(self).finished(),
            step is Run <==> {
                &&& old(self).waiting().len() > 0
                &&& old(self).running() < old(self).size()
            },
            step is Exit <==> old(self).waiting().len() == 0 && !old(self).is_open(),
            step matches WorkerStep::Run(task) ==> {
                &&& task == old(self).accepted()[old(self).started() as int]
                &&& final(self).started() == old(self).started() + 1
            },
            !(step is Run) ==> final(self).started() == old(self).started(),
    {
        if self.queue.len() > 0 && self.running < self.size {
            match self.queue.pop_front() {
                Some(task) => {
                    proof {
                        self.started@ = self.started@ + 1;
                    }
                    self.running = self.running + 1;
                    assert(self.queue@ =~= self.accepted@.skip(self.started@ as int));
                    WorkerStep::Run(task)
                },
                None => WorkerStep::Wait,
            }
        } else if self.queue.len() == 0 && !self.open {
            WorkerStep::Exit
        } else {
            WorkerStep::Wait
        }
    }

    /// Records that a worker is done with its task. Returns `false`, and
    /// changes nothing, where no task runs.
    pub fn finish(&mut self) -> (done: bool)
        requires
            old(self).wf(),
        ensures
            final(self).wf(),
            final(self).size() == old(self).size(),
            final(self).is_open() == old(self).is_open(),
            final(self).accepted() == old(self).accepted(),
            final(self).started() == old(self).started(),
            done == (old(self).running() > 0),
            final(self).finished() == old(self).finished() + if done {
                1nat
            } else {
                0nat
            },
    {
        if self.running == 0 {
            return false;
        }
        proof {
            self.finished@ = self.finished@ + 1;
        }
        self.running = self.running - 1;
        true
    }

    /// Shuts the pool down: it takes no more tasks. The tasks that wait
    /// stay in the queue, and the tasks that run go on.
    pub fn shutdown(&mut self)
        requires
            old(self).wf(),
        ensures
            final(self).wf(),
            !final(self).is_open(),
            final(self).size() == old(self).size(),
            final(self).accepted() == old(self).accepted(),
            final(self).started() == old(self).started(),
            final(self).finished() == old(self).finished(),
    {
        self.open = false;
    }

    /// Whether the pool was shut down and has nothing left to do.
    pub fn is_drained(&self) -> (b: bool)
        requires
            self.wf(),
        ensures
            b == self.drained(),
    {
        !self.open && self.queue.len() == 0 && self.running == 0
    }

    /// The number of workers.
    pub fn workers(&self) -> (n: usize)
        ensures
            n == self.size(),
    {
        self.size
    }

    /// The number of tasks that wait.
    pub fn queued(&self) -> (n: usize)
        requires
            self.wf(),
        ensures
            n == self.waiting().len(),
    {
        self.queue.len()
    }

    /// The number of tasks that run.
    pub fn active(&self) -> (n: usize)
        requires
            self.wf(),
        ensures
            n == self.running(),
    {
        self.running
    }

    /// Whether the pool still takes tasks.
    pub fn accepts(&self) -> (b: bool)
        ensures
            b == self.is_open(),
    {
        self.open
    }
}

} // verus!
