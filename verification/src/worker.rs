use vstd::prelude::*;
use crate::message::Message;

verus! {

/// Where a worker stands in its life. `Running` is the initial state; the
/// other two are terminal.
#[derive(Clone, Copy, PartialEq, Eq, Structural, Debug)]
pub enum WorkerState {
    /// The worker takes messages from the dispatch queue.
    Running,
    /// The worker received `Terminate` and left its loop.
    Terminated,
    /// A job failed on the worker's thread and took the thread with it. The
    /// worker is not replaced.
    Failed,
}

/// What a worker does with the message it has just received.
#[derive(Debug)]
pub enum Action<J> {
    /// Run the job to completion on the worker's own thread, then receive again.
    Run(J),
    /// Leave the loop: the thread function returns.
    Exit,
}

impl WorkerState {
    /// The state of a running worker after it has received `msg`.
    pub open spec fn after<J>(self, msg: Message<J>) -> WorkerState {
        match msg {
            Message::NewJob(_) => self,
            Message::Terminate => WorkerState::Terminated,
        }
    }

    /// The action that `msg` asks of the worker that received it.
    pub open spec fn reaction<J>(msg: Message<J>) -> Action<J> {
        match msg {
            Message::NewJob(job) => Action::Run(job),
            Message::Terminate => Action::Exit,
        }
    }

    /// One turn of a running worker's loop: the message decides the next state
    /// and the action.
    pub fn handle<J>(self, msg: Message<J>) -> (r: (WorkerState, Action<J>))
        requires
            self is Running,
        ensures
            r.0 == self.after(msg),
            r.1 == Self::reaction(msg),
    {
        match msg {
            Message::NewJob(job) => (self, Action::Run(job)),
            Message::Terminate => (WorkerState::Terminated, Action::Exit),
        }
    }
}

/// The owner's record of one worker: the worker's id and the handle of its
/// thread. `H` is the handle type. The handle is there from the start and is
/// taken out once, to be joined; after that the record holds none.
pub struct Worker<H> {
    id: usize,
    thread: Option<H>,
}

impl<H> Worker<H> {
    /// The id the worker was given when it was made.
    pub closed spec fn spec_id(&self) -> usize {
        self.id
    }

    /// The handle that the record still holds, if it holds one.
    pub closed spec fn thread(&self) -> Option<H> {
        self.thread
    }

    /// Records the worker `id`, whose thread has just been started and is
    /// known by `thread`.
    pub fn new(id: usize, thread: H) -> (worker: Self)
        ensures
            worker.spec_id() == id,
            worker.thread() == Some(thread),
    {
        Worker { id, thread: Some(thread) }
    }

    /// The worker's id. It never changes.
    #[verifier::when_used_as_spec(spec_id)]
    pub fn id(&self) -> (id: usize)
        ensures
            id == self.spec_id(),
    {
        self.id
    }

    /// Whether the handle is still there, that is, whether the worker's
    /// thread has yet to be joined.
    pub fn has_thread(&self) -> (held: bool)
        ensures
            held == self.thread().is_some(),
    {
        self.thread.is_some()
    }

    /// Takes the handle out, for the caller to join. The first call returns
    /// the handle; the record is empty from then on, so every later call
    /// returns `None` and no thread is joined twice.
    pub fn take_thread(&mut self) -> (thread: Option<H>)
        ensures
            thread == old(self).thread(),
            final(self).thread().is_none(),
            final(self).spec_id() == old(self).spec_id(),
    {
        self.thread.take()
    }
}

} // verus!
