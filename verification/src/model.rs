use vstd::prelude::*;
use crate::message::Message;
use crate::worker::{Action, WorkerState};

verus! {

/// How many of `workers` are running.
pub open spec fn count_running(workers: Seq<WorkerState>) -> nat
    decreases workers.len(),
{
    if workers.len() == 0 {
        0
    } else {
        count_running(workers.drop_last()) + if workers.last() is Running {
            1nat
        } else {
            0nat
        }
    }
}

/// The jobs that `queue` holds, in the order in which they will be received.
pub open spec fn jobs_in<J>(queue: Seq<Message<J>>) -> Seq<J>
    decreases queue.len(),
{
    if queue.len() == 0 {
        Seq::empty()
    } else {
        match queue.first() {
            Message::NewJob(job) => seq![job] + jobs_in(queue.drop_first()),
            Message::Terminate => jobs_in(queue.drop_first()),
        }
    }
}

/// How many `Terminate` messages `queue` holds.
pub open spec fn terminates_in<J>(queue: Seq<Message<J>>) -> nat
    decreases queue.len(),
{
    if queue.len() == 0 {
        0
    } else {
        terminates_in(queue.drop_first()) + if queue.first() is Terminate {
            1nat
        } else {
            0nat
        }
    }
}

/// `n` `Terminate` messages in a row.
pub open spec fn terminate_block<J>(n: nat) -> Seq<Message<J>> {
    Seq::new(n, |i: int| Message::Terminate)
}

/// The pool as a mathematical value: the dispatch queue, oldest message
/// first, and the state of each worker, indexed by the worker's id.
pub struct PoolView<J> {
    pub queue: Seq<Message<J>>,
    pub workers: Seq<WorkerState>,
}

impl<J> PoolView<J> {
    /// A fresh pool of `size` workers: all running, nothing queued.
    pub open spec fn init(size: nat) -> Self {
        PoolView { queue: Seq::empty(), workers: Seq::new(size, |id: int| WorkerState::Running) }
    }

    /// The number of workers the pool was built with.
    pub open spec fn size(self) -> nat {
        self.workers.len()
    }

    /// The number of workers that still take messages.
    pub open spec fn running(self) -> nat {
        count_running(self.workers)
    }

    /// The receiving side of the queue is alive: some worker still takes
    /// messages.
    pub open spec fn is_open(self) -> bool {
        self.running() > 0
    }

    /// `id` names a worker, and that worker is running.
    pub open spec fn is_running(self, id: int) -> bool {
        0 <= id < self.workers.len() && self.workers[id] is Running
    }

    /// The pool after `job` has been submitted: the job stands last in the
    /// queue.
    pub open spec fn execute(self, job: J) -> Self {
        PoolView { queue: self.queue.push(Message::NewJob(job)), ..self }
    }

    /// The pool after shutdown has begun: one `Terminate` per worker stands
    /// behind everything that was queued before.
    pub open spec fn shutdown(self) -> Self {
        PoolView { queue: self.queue + terminate_block(self.workers.len()), ..self }
    }

    /// What a worker is handed when it asks for the next message: nothing
    /// while the queue is empty, else the action for the oldest message.
    pub open spec fn handed(self) -> Option<Action<J>> {
        if self.queue.len() == 0 {
            None
        } else {
            Some(WorkerState::reaction(self.queue.first()))
        }
    }

    /// The pool after worker `id` has asked for the next message: the oldest
    /// message, if there is one, has left the queue, and the worker has moved
    /// as that message says.
    pub open spec fn receive(self, id: int) -> Self {
        if self.queue.len() == 0 {
            self
        } else {
            PoolView {
                queue: self.queue.drop_first(),
                workers: self.workers.update(id, self.workers[id].after(self.queue.first())),
            }
        }
    }

    /// The pool after a job has failed on worker `id`: the worker is gone,
    /// the queue is as it was.
    pub open spec fn fail(self, id: int) -> Self {
        PoolView { workers: self.workers.update(id, WorkerState::Failed), ..self }
    }
}

/// Changing one worker's state changes the running count by that worker alone.
pub proof fn lemma_count_update(workers: Seq<WorkerState>, id: int, state: WorkerState)
    requires
        0 <= id < workers.len(),
    ensures
        count_running(workers.update(id, state)) + (if workers[id] is Running {
            1nat
        } else {
            0nat
        }) == count_running(workers) + (if state is Running {
            1nat
        } else {
            0nat
        }),
    decreases workers.len(),
{
    let updated = workers.update(id, state);
    if id == workers.len() - 1 {
        assert(updated.drop_last() =~= workers.drop_last());
    } else {
        lemma_count_update(workers.drop_last(), id, state);
        assert(updated.drop_last() =~= workers.drop_last().update(id, state));
    }
}

/// The running count is the length exactly when every worker runs, and zero
/// exactly when none does.
pub proof fn lemma_count_bounds(workers: Seq<WorkerState>)
    ensures
        count_running(workers) <= workers.len(),
        count_running(workers) == workers.len() <==> forall|id: int|
            0 <= id < workers.len() ==> workers[id] is Running,
        count_running(workers) == 0 <==> forall|id: int|
            0 <= id < workers.len() ==> !(workers[id] is Running),
    decreases workers.len(),
{
    if workers.len() > 0 {
        let rest = workers.drop_last();
        lemma_count_bounds(rest);
        assert(forall|id: int| 0 <= id < rest.len() ==> rest[id] == workers[id]);
    }
}

/// Appending a message appends its job, if it carries one, and counts its
/// `Terminate`, if it is one.
pub proof fn lemma_push<J>(queue: Seq<Message<J>>, msg: Message<J>)
    ensures
        jobs_in(queue.push(msg)) == match msg {
            Message::NewJob(job) => jobs_in(queue).push(job),
            Message::Terminate => jobs_in(queue),
        },
        terminates_in(queue.push(msg)) == terminates_in(queue) + if msg is Terminate {
            1nat
        } else {
            0nat
        },
    decreases queue.len(),
{
    let pushed = queue.push(msg);
    if queue.len() == 0 {
        assert(pushed.drop_first() =~= Seq::<Message<J>>::empty());
        assert(jobs_in(pushed.drop_first()) =~= Seq::<J>::empty());
        assert(terminates_in(pushed.drop_first()) == 0);
        match msg {
            Message::NewJob(job) => {
                assert(seq![job] + Seq::<J>::empty() =~= Seq::<J>::empty().push(job));
            },
            Message::Terminate => {},
        }
    } else {
        lemma_push(queue.drop_first(), msg);
        assert(pushed.drop_first() =~= queue.drop_first().push(msg));
        match (queue.first(), msg) {
            (Message::NewJob(first), Message::NewJob(job)) => {
                assert(seq![first] + jobs_in(queue.drop_first()).push(job) =~= (seq![first]
                    + jobs_in(queue.drop_first())).push(job));
            },
            _ => {},
        }
    }
}

/// Appending a block of `Terminate` messages adds no job and adds the block's
/// length to the count of `Terminate` messages.
pub proof fn lemma_append_terminates<J>(queue: Seq<Message<J>>, n: nat)
    ensures
        jobs_in(queue + terminate_block::<J>(n)) == jobs_in(queue),
        terminates_in(queue + terminate_block::<J>(n)) == terminates_in(queue) + n,
    decreases n,
{
    if n == 0 {
        assert(queue + terminate_block::<J>(0) =~= queue);
    } else {
        let shorter = queue + terminate_block::<J>((n - 1) as nat);
        lemma_append_terminates(queue, (n - 1) as nat);
        lemma_push(shorter, Message::<J>::Terminate);
        assert(queue + terminate_block::<J>(n) =~= shorter.push(Message::Terminate));
    }
}

} // verus!
