use vstd::prelude::*;
use crate::model::PoolView;
use crate::worker::Action;

verus! {

/// One call on the pool, as a value. A sequence of events is a history: the
/// calls in the order in which the pool's lock let them in.
pub enum Event<J> {
    /// A submitter calls `execute` with this job.
    Execute(J),
    /// The worker with this id calls `receive`.
    Receive(int),
    /// The owner calls `shutdown`.
    Shutdown,
    /// `fail` is called for the worker with this id.
    Fail(int),
}

impl<J> PoolView<J> {
    /// The contract of the call that `event` stands for admits it in this
    /// state.
    pub open spec fn allows(self, event: Event<J>) -> bool {
        match event {
            Event::Execute(_) => self.is_open(),
            Event::Receive(id) => self.is_running(id),
            Event::Shutdown => self.is_open(),
            Event::Fail(id) => self.is_running(id),
        }
    }

    /// The pool after the call that `event` stands for.
    pub open spec fn step(self, event: Event<J>) -> Self {
        match event {
            Event::Execute(job) => self.execute(job),
            Event::Receive(id) => self.receive(id),
            Event::Shutdown => self.shutdown(),
            Event::Fail(id) => self.fail(id),
        }
    }

    /// The job that the call hands to a worker to be run, if it hands one.
    pub open spec fn hands_out(self, event: Event<J>) -> Seq<J> {
        match event {
            Event::Receive(_) => match self.handed() {
                Some(Action::Run(job)) => seq![job],
                _ => Seq::empty(),
            },
            _ => Seq::empty(),
        }
    }

    /// Every call of `history` is admitted in the state in which it is made.
    pub open spec fn allows_all(self, history: Seq<Event<J>>) -> bool
        decreases history.len(),
    {
        history.len() == 0 || {
            &&& self.allows(history.first())
            &&& self.step(history.first()).allows_all(history.drop_first())
        }
    }

    /// The pool after all calls of `history`.
    pub open spec fn run(self, history: Seq<Event<J>>) -> Self
        decreases history.len(),
    {
        if history.len() == 0 {
            self
        } else {
            self.step(history.first()).run(history.drop_first())
        }
    }

    /// The jobs that workers were handed in the course of `history`, in the
    /// order in which they were handed out.
    pub open spec fn dispatched(self, history: Seq<Event<J>>) -> Seq<J>
        decreases history.len(),
    {
        if history.len() == 0 {
            Seq::empty()
        } else {
            self.hands_out(history.first())
                + self.step(history.first()).dispatched(history.drop_first())
        }
    }
}

/// The job that `event` submits, if it submits one.
pub open spec fn submits<J>(event: Event<J>) -> Seq<J> {
    match event {
        Event::Execute(job) => seq![job],
        _ => Seq::empty(),
    }
}

/// The jobs that `history` submits, in the order of submission.
pub open spec fn submitted<J>(history: Seq<Event<J>>) -> Seq<J>
    decreases history.len(),
{
    if history.len() == 0 {
        Seq::empty()
    } else {
        submits(history.first()) + submitted(history.drop_first())
    }
}

/// The history in which `jobs` are submitted one after the other and nothing
/// else happens.
pub open spec fn submissions<J>(jobs: Seq<J>) -> Seq<Event<J>> {
    Seq::new(jobs.len(), |k: int| Event::Execute(jobs[k]))
}

/// A history made of two parts runs as the first part followed by the second.
pub proof fn lemma_split<J>(pool: PoolView<J>, first: Seq<Event<J>>, second: Seq<Event<J>>)
    ensures
        pool.run(first + second) == pool.run(first).run(second),
        pool.allows_all(first + second) == (pool.allows_all(first) && pool.run(
            first,
        ).allows_all(second)),
        pool.dispatched(first + second) == pool.dispatched(first) + pool.run(first).dispatched(
            second,
        ),
        submitted(first + second) == submitted(first) + submitted(second),
    decreases first.len(),
{
    let whole = first + second;
    if first.len() == 0 {
        assert(whole =~= second);
        assert(pool.dispatched(first) + pool.dispatched(second) =~= pool.dispatched(second));
        assert(submitted(first) + submitted(second) =~= submitted(second));
    } else {
        let next = pool.step(first.first());
        lemma_split(next, first.drop_first(), second);
        assert(whole.first() == first.first());
        assert(whole.drop_first() =~= first.drop_first() + second);
        assert(pool.dispatched(whole) =~= pool.dispatched(first) + pool.run(first).dispatched(
            second,
        ));
        assert(submitted(whole) =~= submitted(first) + submitted(second));
    }
}

} // verus!
