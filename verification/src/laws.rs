use vstd::prelude::*;
use crate::history::{lemma_split, submissions, submits, submitted, Event};
use crate::message::Message;
use crate::model::{
    jobs_in, lemma_append_terminates, lemma_count_bounds, lemma_count_update, lemma_push,
    terminates_in, PoolView,
};
use crate::worker::WorkerState;

verus! {

/// The pool's size is fixed when it is built: no call changes it.
pub proof fn law_size_never_changes<J>(pool: PoolView<J>, history: Seq<Event<J>>)
    requires
        pool.allows_all(history),
    ensures
        pool.run(history).size() == pool.size(),
    decreases history.len(),
{
    if history.len() > 0 {
        law_size_never_changes(pool.step(history.first()), history.drop_first());
    }
}

/// A worker that has left never comes back, and none is added: in whatever
/// follows, a worker that is not running stays as it is, and the number of
/// running workers does not grow.
pub proof fn law_workers_never_return<J>(pool: PoolView<J>, history: Seq<Event<J>>)
    requires
        pool.allows_all(history),
    ensures
        pool.run(history).running() <= pool.running(),
        forall|id: int|
            0 <= id < pool.size() && !(pool.workers[id] is Running) ==> pool.run(
                history,
            ).workers[id] == pool.workers[id],
    decreases history.len(),
{
    if history.len() > 0 {
        let event = history.first();
        let next = pool.step(event);
        lemma_counts_after_step(pool, event);
        law_workers_never_return(next, history.drop_first());
        let end = pool.run(history);
        assert forall|id: int|
            0 <= id < pool.size() && !(pool.workers[id] is Running) implies end.workers[id]
            == pool.workers[id] by {
            assert(next.size() == pool.size());
            assert(next.workers[id] == pool.workers[id]);
        }
    }
}

/// No job is lost and none is duplicated. Whatever calls are made, in
/// whatever order, the jobs that were queued at the start followed by the jobs
/// submitted since are the jobs handed to workers followed by the jobs still
/// queued: each job once, in the order of submission.
pub proof fn law_jobs_are_conserved<J>(pool: PoolView<J>, history: Seq<Event<J>>)
    ensures
        pool.dispatched(history) + jobs_in(pool.run(history).queue) == jobs_in(pool.queue)
            + submitted(history),
    decreases history.len(),
{
    if history.len() == 0 {
        assert(pool.dispatched(history) + jobs_in(pool.queue) =~= jobs_in(pool.queue)
            + submitted(history));
    } else {
        let event = history.first();
        let rest = history.drop_first();
        let next = pool.step(event);
        law_jobs_are_conserved(next, rest);
        let handed = pool.hands_out(event);
        let sent = submits(event);
        let left = jobs_in(pool.run(history).queue);
        assert(handed + jobs_in(next.queue) =~= jobs_in(pool.queue) + sent) by {
            match event {
                Event::Execute(job) => {
                    lemma_push(pool.queue, Message::NewJob(job));
                },
                Event::Shutdown => {
                    lemma_append_terminates(pool.queue, pool.workers.len());
                },
                _ => {},
            }
        }
        assert(pool.dispatched(history) + left =~= handed + (next.dispatched(rest) + left));
        assert(handed + (jobs_in(next.queue) + submitted(rest)) =~= (handed + jobs_in(next.queue))
            + submitted(rest));
        assert(jobs_in(pool.queue) + submitted(history) =~= (jobs_in(pool.queue) + sent)
            + submitted(rest));
    }
}

/// Submissions that race for the pool's lock are let in one after the other,
/// and each of them queues exactly its own job: after any number of them the
/// queue has grown by those jobs, in the order in which they were let in, and
/// nothing else has changed.
pub proof fn law_submissions_queue_each_job_once<J>(pool: PoolView<J>, jobs: Seq<J>)
    requires
        pool.is_open(),
    ensures
        pool.allows_all(submissions(jobs)),
        pool.run(submissions(jobs)).workers == pool.workers,
        pool.run(submissions(jobs)).queue == pool.queue + Seq::new(
            jobs.len(),
            |k: int| Message::NewJob(jobs[k]),
        ),
    decreases jobs.len(),
{
    let history = submissions(jobs);
    let queued = Seq::new(jobs.len(), |k: int| Message::NewJob(jobs[k]));
    if jobs.len() == 0 {
        assert(pool.queue + queued =~= pool.queue);
    } else {
        law_submissions_queue_each_job_once(pool.execute(jobs.first()), jobs.drop_first());
        assert(history.drop_first() =~= submissions(jobs.drop_first()));
        assert(pool.run(history).queue =~= pool.queue + queued);
    }
}

/// Every job submitted before shutdown begins is handed to a worker exactly
/// once before the last worker leaves, provided that no worker fails. In a
/// history that starts with a fresh pool, submits and receives in any order,
/// begins shutdown and from then on only receives, and at whose end no worker
/// runs, the jobs handed out are the jobs submitted, each once and in the
/// order of submission, and the queue ends empty.
pub proof fn law_each_job_runs_once<J>(size: nat, before: Seq<Event<J>>, after: Seq<Event<J>>)
    requires
        size > 0,
        forall|k: int| 0 <= k < before.len() ==> before[k] is Execute || before[k] is Receive,
        forall|k: int| 0 <= k < after.len() ==> after[k] is Receive,
        PoolView::<J>::init(size).allows_all(before + seq![Event::Shutdown] + after),
        PoolView::<J>::init(size).run(before + seq![Event::Shutdown] + after).running() == 0,
    ensures
        PoolView::<J>::init(size).dispatched(before + seq![Event::Shutdown] + after)
            == submitted(before),
        PoolView::<J>::init(size).run(before + seq![Event::Shutdown] + after).queue.len() == 0,
{
    let fresh = PoolView::<J>::init(size);
    let shutdown = seq![Event::<J>::Shutdown];
    let history = before + shutdown + after;
    lemma_split(fresh, before + shutdown, after);
    lemma_split(fresh, before, shutdown);

    lemma_untouched_is_kept(fresh, before);
    let open = fresh.run(before);
    let closing = open.shutdown();
    assert(open.run(shutdown) == closing) by {
        assert(shutdown.drop_first() =~= Seq::<Event<J>>::empty());
        assert(open.step(shutdown.first()).run(shutdown.drop_first()) == closing);
    }
    assert(draining(closing)) by {
        lemma_uniform_queue(open.queue);
        lemma_append_terminates(open.queue, open.workers.len());
        lemma_count_bounds(open.workers);
    }

    lemma_draining_is_kept(closing, after);
    let end = fresh.run(history);
    assert(end.queue.len() == 0 && jobs_in(end.queue) == Seq::<J>::empty()) by {
        lemma_uniform_queue(end.queue);
    }

    law_jobs_are_conserved(fresh, history);
    assert(submitted(history) == submitted(before)) by {
        lemma_no_submission(after);
        assert(submitted(shutdown.drop_first()) =~= Seq::<J>::empty());
        assert(submitted(shutdown) =~= Seq::<J>::empty());
        assert(submitted(before) + Seq::<J>::empty() + Seq::<J>::empty() =~= submitted(before));
    }
    assert(fresh.dispatched(history) + Seq::<J>::empty() =~= fresh.dispatched(history));
    assert(Seq::<J>::empty() + submitted(before) =~= submitted(before));
}

/// Shutdown reaches every worker, whatever happens after it has begun. In
/// every state that follows, the queue holds at least one `Terminate` for
/// each worker that still runs. So a running worker that asks for a message
/// is always handed one and never waits, and once the queue is empty no
/// worker runs.
pub proof fn law_shutdown_reaches_every_worker<J>(pool: PoolView<J>, after: Seq<Event<J>>)
    requires
        pool.shutdown().allows_all(after),
    ensures
        terminates_in(pool.shutdown().run(after).queue) >= pool.shutdown().run(after).running(),
        pool.shutdown().run(after).running() > 0 ==> pool.shutdown().run(after).handed() is Some,
        pool.shutdown().run(after).queue.len() == 0 ==> pool.shutdown().run(after).running() == 0,
{
    let closing = pool.shutdown();
    assert(terminates_in(closing.queue) >= closing.running()) by {
        lemma_append_terminates(pool.queue, pool.workers.len());
        lemma_count_bounds(pool.workers);
    }
    lemma_terminates_cover_workers(closing, after);
}

/// Shutdown has not begun: every worker runs and the queue holds jobs only.
spec fn untouched<J>(pool: PoolView<J>) -> bool {
    &&& pool.workers.len() > 0
    &&& forall|id: int| 0 <= id < pool.workers.len() ==> pool.workers[id] is Running
    &&& forall|k: int| 0 <= k < pool.queue.len() ==> pool.queue[k] is NewJob
}

/// Shutdown has begun and nothing has gone wrong since: the queue holds its
/// jobs first and then exactly one `Terminate` for each running worker, and a
/// worker has left only once no job was left.
spec fn draining<J>(pool: PoolView<J>) -> bool {
    &&& pool.workers.len() > 0
    &&& forall|a: int, b: int|
        0 <= a <= b < pool.queue.len() && pool.queue[a] is Terminate
            ==> pool.queue[b] is Terminate
    &&& terminates_in(pool.queue) == pool.running()
    &&& pool.running() < pool.workers.len() ==> forall|k: int|
        0 <= k < pool.queue.len() ==> pool.queue[k] is Terminate
}

/// Whether `event` takes a `Terminate` out of the queue of `pool`.
spec fn takes_terminate<J>(pool: PoolView<J>, event: Event<J>) -> bool {
    event is Receive && pool.queue.len() > 0 && pool.queue.first() is Terminate
}

/// What one admitted call does to the number of running workers and to the
/// number of `Terminate` messages. A worker leaves only by taking a
/// `Terminate` or by failing, and only shutdown adds `Terminate` messages.
proof fn lemma_counts_after_step<J>(pool: PoolView<J>, event: Event<J>)
    requires
        pool.allows(event),
    ensures
        pool.step(event).running() + (if takes_terminate(pool, event) || event is Fail {
            1nat
        } else {
            0nat
        }) == pool.running(),
        terminates_in(pool.step(event).queue) + (if takes_terminate(pool, event) {
            1nat
        } else {
            0nat
        }) == terminates_in(pool.queue) + (if event is Shutdown {
            pool.size()
        } else {
            0nat
        }),
{
    match event {
        Event::Execute(job) => {
            lemma_push(pool.queue, Message::NewJob(job));
        },
        Event::Receive(id) => {
            if pool.queue.len() > 0 {
                lemma_count_update(pool.workers, id, pool.workers[id].after(pool.queue.first()));
            }
        },
        Event::Shutdown => {
            lemma_append_terminates(pool.queue, pool.workers.len());
        },
        Event::Fail(id) => {
            lemma_count_update(pool.workers, id, WorkerState::Failed);
        },
    }
}

/// If the queue holds a `Terminate` for each running worker, it still does
/// after any admitted calls.
proof fn lemma_terminates_cover_workers<J>(pool: PoolView<J>, history: Seq<Event<J>>)
    requires
        terminates_in(pool.queue) >= pool.running(),
        pool.allows_all(history),
    ensures
        terminates_in(pool.run(history).queue) >= pool.run(history).running(),
    decreases history.len(),
{
    if history.len() > 0 {
        lemma_counts_after_step(pool, history.first());
        lemma_terminates_cover_workers(pool.step(history.first()), history.drop_first());
    }
}

/// While shutdown has not begun, receiving and submitting leave every worker
/// running and the queue free of `Terminate`.
proof fn lemma_untouched_is_kept<J>(pool: PoolView<J>, history: Seq<Event<J>>)
    requires
        untouched(pool),
        pool.allows_all(history),
        forall|k: int|
            0 <= k < history.len() ==> history[k] is Execute || history[k] is Receive,
    ensures
        untouched(pool.run(history)),
    decreases history.len(),
{
    if history.len() > 0 {
        let event = history.first();
        let rest = history.drop_first();
        let next = pool.step(event);
        assert(history[0] is Execute || history[0] is Receive);
        assert(untouched(next)) by {
            if event is Receive && pool.queue.len() > 0 {
                assert(pool.queue[0] is NewJob);
                assert(next.workers =~= pool.workers);
            }
        }
        assert(forall|k: int| 0 <= k < rest.len() ==> rest[k] == history[k + 1]);
        lemma_untouched_is_kept(next, rest);
    }
}

/// Once shutdown has begun, workers that only receive keep the queue in step
/// with them: one `Terminate` for each worker that still runs.
proof fn lemma_draining_is_kept<J>(pool: PoolView<J>, history: Seq<Event<J>>)
    requires
        draining(pool),
        pool.allows_all(history),
        forall|k: int| 0 <= k < history.len() ==> history[k] is Receive,
    ensures
        draining(pool.run(history)),
    decreases history.len(),
{
    if history.len() > 0 {
        let event = history.first();
        let rest = history.drop_first();
        let next = pool.step(event);
        assert(history[0] is Receive);
        assert(draining(next)) by {
            lemma_counts_after_step(pool, event);
            lemma_count_bounds(pool.workers);
            if pool.queue.len() > 0 {
                assert(forall|k: int|
                    0 <= k < next.queue.len() ==> next.queue[k] == pool.queue[k + 1]);
                assert(pool.queue[0] == pool.queue.first());
            }
        }
        assert(forall|k: int| 0 <= k < rest.len() ==> rest[k] == history[k + 1]);
        lemma_draining_is_kept(next, rest);
    }
}

/// A queue of jobs only holds no `Terminate`; a queue of `Terminate` messages
/// only holds no job.
proof fn lemma_uniform_queue<J>(queue: Seq<Message<J>>)
    ensures
        (forall|k: int| 0 <= k < queue.len() ==> queue[k] is NewJob) ==> terminates_in(queue) == 0,
        (forall|k: int| 0 <= k < queue.len() ==> queue[k] is Terminate) ==> terminates_in(queue)
            == queue.len() && jobs_in(queue) == Seq::<J>::empty(),
    decreases queue.len(),
{
    if queue.len() > 0 {
        let rest = queue.drop_first();
        lemma_uniform_queue(rest);
        assert(forall|k: int| 0 <= k < rest.len() ==> rest[k] == queue[k + 1]);
    }
}

/// A history of receives submits nothing.
proof fn lemma_no_submission<J>(history: Seq<Event<J>>)
    requires
        forall|k: int| 0 <= k < history.len() ==> history[k] is Receive,
    ensures
        submitted(history) == Seq::<J>::empty(),
    decreases history.len(),
{
    if history.len() > 0 {
        let rest = history.drop_first();
        assert(history[0] is Receive);
        assert(forall|k: int| 0 <= k < rest.len() ==> rest[k] == history[k + 1]);
        lemma_no_submission(rest);
        assert(Seq::<J>::empty() + Seq::<J>::empty() =~= Seq::<J>::empty());
    }
}

} // verus!
