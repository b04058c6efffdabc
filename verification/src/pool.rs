use vstd::prelude::*;
use std::collections::VecDeque;
use crate::message::Message;
use crate::model::{count_running, lemma_count_bounds, lemma_count_update, terminate_block, PoolView};
use crate::worker::{Action, WorkerState};

verus! {

/// The pool's shared state: the dispatch queue and the state of every worker.
///
/// The pool holds no thread and never blocks. Its owner keeps it behind a
/// lock; submitters call [`ThreadPool::execute`], each worker thread calls
/// [`ThreadPool::receive`] with its own id and does what it is handed, and
/// the owner calls [`ThreadPool::shutdown`] before it joins the threads.
pub struct ThreadPool<J> {
    workers: Vec<WorkerState>,
    queue: VecDeque<Message<J>>,
    running: usize,
}

impl<J> View for ThreadPool<J> {
    type V = PoolView<J>;

    closed spec fn view(&self) -> PoolView<J> {
        PoolView { queue: self.queue@, workers: self.workers@ }
    }
}

impl<J> ThreadPool<J> {
    /// The pool's invariant: it has at least one worker, and its count of
    /// running workers is the true one.
    pub closed spec fn wf(&self) -> bool {
        &&& self.workers@.len() > 0
        &&& self.running == count_running(self.workers@)
    }

    /// Creates a pool of `size` workers with ids `0..size`, all running, and
    /// an empty queue.
    pub fn new(size: usize) -> (pool: Self)
        requires
            size > 0,
        ensures
            pool.wf(),
            pool@ == PoolView::<J>::init(size as nat),
            pool@.running() == size,
    {
        let mut workers: Vec<WorkerState> = Vec::with_capacity(size);
        let mut id: usize = 0;
        while id < size
            invariant
                id <= size,
                workers@ =~= Seq::new(id as nat, |i: int| WorkerState::Running),
            decreases size - id,
        {
            workers.push(WorkerState::Running);
            id += 1;
        }
        proof {
            lemma_count_bounds(workers@);
        }
        ThreadPool { workers, queue: VecDeque::new(), running: size }
    }

    /// The number of workers the pool was built with.
    pub fn size(&self) -> (size: usize)
        requires
            self.wf(),
        ensures
            size == self@.size(),
            size > 0,
    {
        self.workers.len()
    }

    /// The number of workers that are still running.
    pub fn running(&self) -> (running: usize)
        requires
            self.wf(),
        ensures
            running == self@.running(),
            running <= self@.size(),
    {
        proof {
            lemma_count_bounds(self.workers@);
        }
        self.running
    }

    /// The number of messages in the queue.
    pub fn pending(&self) -> (pending: usize)
        ensures
            pending == self@.queue.len(),
    {
        self.queue.len()
    }

    /// Whether the receiving side is alive, that is, whether some worker is
    /// still running. Only then may a job be submitted or shutdown begin.
    pub fn is_open(&self) -> (open: bool)
        requires
            self.wf(),
        ensures
            open == self@.is_open(),
    {
        self.running > 0
    }

    /// Whether `id` names a worker that is still running. Only such a worker
    /// may receive, and only such a worker may fail.
    pub fn is_running(&self, id: usize) -> (running: bool)
        ensures
            running == self@.is_running(id as int),
    {
        id < self.workers.len() && self.workers[id] == WorkerState::Running
    }

    /// The state of worker `id`, or `None` if the pool has no such worker.
    pub fn state(&self, id: usize) -> (state: Option<WorkerState>)
        ensures
            state == if id < self@.size() {
                Some(self@.workers[id as int])
            } else {
                None
            },
    {
        if id < self.workers.len() {
            Some(self.workers[id])
        } else {
            None
        }
    }

    /// Submits `job`: it goes to the back of the queue, for whichever worker
    /// gets there first. Nothing is run here.
    pub fn execute(&mut self, job: J)
        requires
            old(self).wf(),
            old(self)@.is_open(),
        ensures
            final(self).wf(),
            final(self)@ == old(self)@.execute(job),
    {
        self.queue.push_back(Message::NewJob(job));
    }

    /// Worker `id` asks for the next message. While the queue is empty it is
    /// handed nothing and has to wait. Otherwise the oldest message leaves the
    /// queue: a job is handed over to be run, and `Terminate` ends the worker.
    pub fn receive(&mut self, id: usize) -> (action: Option<Action<J>>)
        requires
            old(self).wf(),
            old(self)@.is_running(id as int),
        ensures
            final(self).wf(),
            final(self)@ == old(self)@.receive(id as int),
            action == old(self)@.handed(),
    {
        match self.queue.pop_front() {
            None => None,
            Some(msg) => {
                let (state, action) = self.workers[id].handle(msg);
                proof {
                    lemma_count_update(self.workers@, id as int, state);
                    assert(old(self).queue@.subrange(1, old(self).queue@.len() as int)
                        =~= old(self).queue@.drop_first());
                }
                self.workers[id] = state;
                match state {
                    WorkerState::Running => {},
                    _ => {
                        self.running = self.running - 1;
                    },
                }
                Some(action)
            },
        }
    }

    /// Begins shutdown: queues one `Terminate` for each worker the pool was
    /// built with, behind every job submitted so far.
    pub fn shutdown(&mut self)
        requires
            old(self).wf(),
            old(self)@.is_open(),
        ensures
            final(self).wf(),
            final(self)@ == old(self)@.shutdown(),
    {
        let size: usize = self.workers.len();
        let mut sent: usize = 0;
        while sent < size
            invariant
                sent <= size,
                size == self.workers@.len(),
                self.workers@ == old(self).workers@,
                self.running == old(self).running,
                self.queue@ =~= old(self).queue@ + terminate_block::<J>(sent as nat),
            decreases size - sent,
        {
            self.queue.push_back(Message::Terminate);
            sent += 1;
        }
    }

    /// Records that a job failed on worker `id` and took the worker's thread
    /// with it. The worker takes no further message and is not replaced.
    pub fn fail(&mut self, id: usize)
        requires
            old(self).wf(),
            old(self)@.is_running(id as int),
        ensures
            final(self).wf(),
            final(self)@ == old(self)@.fail(id as int),
    {
        proof {
            lemma_count_update(self.workers@, id as int, WorkerState::Failed);
        }
        self.workers[id] = WorkerState::Failed;
        self.running = self.running - 1;
    }
}

} // verus!
