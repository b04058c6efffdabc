use std::cell::RefCell;
use std::rc::Rc;
use thread_pool::{Action, ThreadPool, WorkerState};

/// Lets the running workers take turns, lowest id first, until none is left
/// or none is handed anything. Returns the jobs in the order they were handed
/// out, each with the id of the worker that got it.
fn drain(pool: &mut ThreadPool<u32>) -> Vec<(usize, u32)> {
    let mut handed = Vec::new();
    loop {
        let mut progressed = false;
        for id in 0..pool.size() {
            if !pool.is_running(id) {
                continue;
            }
            match pool.receive(id) {
                Some(Action::Run(job)) => {
                    handed.push((id, job));
                    progressed = true;
                }
                Some(Action::Exit) => progressed = true,
                None => {}
            }
        }
        if !progressed {
            return handed;
        }
    }
}

#[test]
fn new_pool_has_exactly_the_workers_asked_for() {
    for size in [1usize, 2, 3, 8, 64] {
        let pool: ThreadPool<u32> = ThreadPool::new(size);
        assert_eq!(pool.size(), size);
        assert_eq!(pool.running(), size);
        assert_eq!(pool.pending(), 0);
        assert!(pool.is_open());
        for id in 0..size {
            assert_eq!(pool.state(id), Some(WorkerState::Running));
            assert!(pool.is_running(id));
        }
        assert_eq!(pool.state(size), None);
        assert!(!pool.is_running(size));
    }
}

#[test]
fn new_pool_dispatches_nothing() {
    let mut pool: ThreadPool<u32> = ThreadPool::new(3);
    for id in 0..3 {
        assert!(pool.receive(id).is_none());
    }
    assert_eq!(pool.running(), 3);
    assert_eq!(pool.pending(), 0);
}

#[test]
fn a_single_worker_takes_jobs_in_submission_order() {
    let mut pool: ThreadPool<u32> = ThreadPool::new(1);
    pool.execute(7);
    pool.execute(9);
    assert!(matches!(pool.receive(0), Some(Action::Run(7))));
    assert!(matches!(pool.receive(0), Some(Action::Run(9))));
    assert!(pool.receive(0).is_none());
}

#[test]
fn each_submission_queues_exactly_one_job() {
    let mut pool: ThreadPool<u32> = ThreadPool::new(2);
    for job in 0..100u32 {
        pool.execute(job);
        assert_eq!(pool.pending(), job as usize + 1);
    }
    assert_eq!(pool.running(), 2);
    let mut seen = Vec::new();
    for turn in 0..100usize {
        match pool.receive(turn % 2) {
            Some(Action::Run(job)) => seen.push(job),
            other => panic!("expected a job, got {:?}", other),
        }
    }
    assert_eq!(seen, (0..100u32).collect::<Vec<u32>>());
    assert_eq!(pool.pending(), 0);
    assert!(pool.receive(0).is_none());
}

#[test]
fn receive_on_an_empty_queue_changes_nothing() {
    let mut pool: ThreadPool<u32> = ThreadPool::new(2);
    assert!(pool.receive(1).is_none());
    assert_eq!(pool.state(0), Some(WorkerState::Running));
    assert_eq!(pool.state(1), Some(WorkerState::Running));
    assert_eq!(pool.running(), 2);
    assert_eq!(pool.pending(), 0);
    pool.execute(5);
    assert!(matches!(pool.receive(1), Some(Action::Run(5))));
}

#[test]
fn shutdown_queues_one_terminate_per_worker() {
    let mut pool: ThreadPool<u32> = ThreadPool::new(3);
    pool.execute(1);
    pool.execute(2);
    pool.shutdown();
    assert_eq!(pool.pending(), 5);
    assert_eq!(pool.running(), 3);
    assert!(matches!(pool.receive(2), Some(Action::Run(1))));
    assert!(matches!(pool.receive(2), Some(Action::Run(2))));
    assert!(matches!(pool.receive(2), Some(Action::Exit)));
    assert_eq!(pool.state(2), Some(WorkerState::Terminated));
    assert!(!pool.is_running(2));
    assert_eq!(pool.running(), 2);
    assert!(matches!(pool.receive(0), Some(Action::Exit)));
    assert!(matches!(pool.receive(1), Some(Action::Exit)));
    assert_eq!(pool.running(), 0);
    assert_eq!(pool.pending(), 0);
    assert!(!pool.is_open());
}

#[test]
fn ten_jobs_on_four_workers_each_run_once() {
    let mut pool: ThreadPool<u32> = ThreadPool::new(4);
    for job in 0..10u32 {
        pool.execute(job);
    }
    pool.shutdown();
    let handed = drain(&mut pool);
    let mut collected: Vec<u32> = handed.iter().map(|&(_, job)| job).collect();
    assert_eq!(collected.len(), 10);
    collected.sort();
    assert_eq!(collected, vec![0, 1, 2, 3, 4, 5, 6, 7, 8, 9]);
    assert_eq!(pool.running(), 0);
    assert_eq!(pool.pending(), 0);
    for id in 0..4 {
        assert_eq!(pool.state(id), Some(WorkerState::Terminated));
    }
}

#[test]
fn ten_jobs_on_four_workers_with_submissions_and_receives_mixed() {
    let mut pool: ThreadPool<u32> = ThreadPool::new(4);
    let mut collected = Vec::new();
    for job in 0..10u32 {
        pool.execute(job);
        if job % 3 == 2 {
            let id = (job as usize) % 4;
            match pool.receive(id) {
                Some(Action::Run(got)) => collected.push(got),
                other => panic!("expected a job, got {:?}", other),
            }
        }
    }
    pool.shutdown();
    collected.extend(drain(&mut pool).into_iter().map(|(_, job)| job));
    assert_eq!(collected, vec![0, 1, 2, 3, 4, 5, 6, 7, 8, 9]);
    assert_eq!(pool.running(), 0);
    assert_eq!(pool.pending(), 0);
}

#[test]
fn one_worker_runs_two_jobs_in_the_order_submitted() {
    let mut pool: ThreadPool<&'static str> = ThreadPool::new(1);
    pool.execute("J1");
    pool.execute("J2");
    pool.shutdown();
    let mut records = Vec::new();
    loop {
        match pool.receive(0) {
            Some(Action::Run(job)) => records.push(job),
            Some(Action::Exit) => break,
            None => panic!("a running worker was left waiting during shutdown"),
        }
    }
    assert_eq!(records, vec!["J1", "J2"]);
    assert_eq!(pool.state(0), Some(WorkerState::Terminated));
    assert_eq!(pool.pending(), 0);
}

#[test]
fn jobs_can_be_closures_that_own_what_they_capture() {
    let records: Rc<RefCell<Vec<String>>> = Rc::new(RefCell::new(Vec::new()));
    let mut pool: ThreadPool<Box<dyn FnOnce()>> = ThreadPool::new(1);
    for name in ["J1", "J2"] {
        let records = Rc::clone(&records);
        let owned = String::from(name);
        pool.execute(Box::new(move || records.borrow_mut().push(owned)));
    }
    pool.shutdown();
    loop {
        match pool.receive(0) {
            Some(Action::Run(job)) => job(),
            Some(Action::Exit) => break,
            None => panic!("a running worker was left waiting during shutdown"),
        }
    }
    assert_eq!(*records.borrow(), vec![String::from("J1"), String::from("J2")]);
}

#[test]
fn shutdown_with_no_jobs_ends_every_worker() {
    let mut pool: ThreadPool<u32> = ThreadPool::new(2);
    pool.shutdown();
    assert_eq!(pool.pending(), 2);
    assert!(matches!(pool.receive(0), Some(Action::Exit)));
    assert!(matches!(pool.receive(1), Some(Action::Exit)));
    assert_eq!(pool.state(0), Some(WorkerState::Terminated));
    assert_eq!(pool.state(1), Some(WorkerState::Terminated));
    assert_eq!(pool.running(), 0);
    assert_eq!(pool.pending(), 0);
}

#[test]
fn after_shutdown_a_running_worker_is_never_left_waiting() {
    let mut pool: ThreadPool<u32> = ThreadPool::new(3);
    for job in 0..4u32 {
        pool.execute(job);
    }
    pool.shutdown();
    // Worker 1 is the greediest: it takes every job and then its Terminate.
    let mut turns = 0;
    while pool.running() > 0 {
        assert!(pool.pending() >= pool.running());
        let id = if pool.is_running(1) { 1 } else if pool.is_running(0) { 0 } else { 2 };
        assert!(pool.receive(id).is_some());
        turns += 1;
    }
    assert_eq!(turns, 7);
    assert_eq!(pool.pending(), 0);
}

#[test]
fn a_failed_job_takes_the_only_worker_and_later_jobs_never_run() {
    let mut pool: ThreadPool<&'static str> = ThreadPool::new(1);
    pool.execute("fails");
    pool.execute("never runs");
    assert!(matches!(pool.receive(0), Some(Action::Run("fails"))));
    pool.fail(0);
    assert_eq!(pool.state(0), Some(WorkerState::Failed));
    assert!(!pool.is_running(0));
    assert_eq!(pool.running(), 0);
    assert!(!pool.is_open());
    assert_eq!(pool.pending(), 1);
}

#[test]
fn a_failed_worker_is_not_replaced_and_the_rest_carry_on() {
    let mut pool: ThreadPool<u32> = ThreadPool::new(2);
    for job in 0..3u32 {
        pool.execute(job);
    }
    assert!(matches!(pool.receive(0), Some(Action::Run(0))));
    pool.fail(0);
    assert_eq!(pool.size(), 2);
    assert_eq!(pool.running(), 1);
    assert!(pool.is_open());
    pool.execute(3);
    pool.shutdown();
    let handed = drain(&mut pool);
    assert_eq!(handed, vec![(1, 1), (1, 2), (1, 3)]);
    assert_eq!(pool.state(0), Some(WorkerState::Failed));
    assert_eq!(pool.state(1), Some(WorkerState::Terminated));
    assert_eq!(pool.running(), 0);
    // The Terminate meant for the failed worker is left over.
    assert_eq!(pool.pending(), 1);
}

#[test]
fn a_job_submitted_during_shutdown_stands_behind_the_terminates() {
    let mut pool: ThreadPool<u32> = ThreadPool::new(1);
    pool.shutdown();
    pool.execute(1);
    assert_eq!(pool.pending(), 2);
    assert!(matches!(pool.receive(0), Some(Action::Exit)));
    assert_eq!(pool.running(), 0);
    assert_eq!(pool.pending(), 1);
}
