use hello::pool::{
    on_message, Message, PoolCreationError, Runnable, ThreadPool, Worker, WorkerAction, WorkerState,
};
use std::cell::RefCell;
use std::rc::Rc;

/// A job that records its own identifier into a shared log when run.
struct RecJob {
    id: u64,
    log: Rc<RefCell<Vec<u64>>>,
}

impl Runnable for RecJob {
    fn run(self) {
        self.log.borrow_mut().push(self.id);
    }
}

fn job(id: u64, log: &Rc<RefCell<Vec<u64>>>) -> RecJob {
    RecJob { id, log: Rc::clone(log) }
}

#[test]
fn pool_of_zero_workers_is_refused() {
    let r = ThreadPool::<RecJob>::new(0);
    assert!(r.is_err());
    let e = r.err().unwrap();
    assert_eq!(e, PoolCreationError);
    assert_eq!(e.message(), "Size of ThreadPool must be 1 or higher");
}

#[test]
fn pool_has_exactly_requested_workers() {
    for size in [1usize, 2, 4, 7] {
        let p = ThreadPool::<RecJob>::new(size).unwrap();
        assert_eq!(p.worker_count(), size);
        for i in 0..size {
            assert_eq!(p.worker_state(i), WorkerState::Idle);
            assert_eq!(p.worker_id(i), i);
        }
        assert!(!p.all_terminated());
    }
}

#[test]
fn worker_starts_idle_with_its_id() {
    let w = Worker::new(3);
    assert_eq!(w.id(), 3);
    assert_eq!(w.state(), WorkerState::Idle);
}

#[test]
fn submission_enqueues_without_running() {
    let log = Rc::new(RefCell::new(Vec::new()));
    let mut p = ThreadPool::new(2).unwrap();
    p.execute(job(1, &log));
    p.execute(job(2, &log));
    p.execute(job(3, &log));
    assert_eq!(p.pending_jobs(), 3);
    assert!(log.borrow().is_empty());
}

#[test]
fn shutdown_runs_every_job_exactly_once() {
    let log = Rc::new(RefCell::new(Vec::new()));
    let mut p = ThreadPool::new(4).unwrap();
    for id in 0..5 {
        p.execute(job(id, &log));
    }
    p.shutdown();
    let got = log.borrow().clone();
    assert_eq!(got.len(), 5);
    for id in 0..5 {
        assert_eq!(got.iter().filter(|&&x| x == id).count(), 1);
    }
}

#[test]
fn shutdown_terminates_every_worker() {
    let log = Rc::new(RefCell::new(Vec::new()));
    let mut p = ThreadPool::new(3).unwrap();
    p.execute(job(1, &log));
    p.shutdown();
    assert!(p.all_terminated());
    for i in 0..3 {
        assert_eq!(p.worker_state(i), WorkerState::Terminated);
    }
}

#[test]
fn single_worker_serializes_in_submission_order() {
    let log = Rc::new(RefCell::new(Vec::new()));
    let mut p = ThreadPool::new(1).unwrap();
    p.execute(job(10, &log));
    p.execute(job(20, &log));
    p.shutdown();
    assert_eq!(*log.borrow(), vec![10, 20]);
}

#[test]
fn three_jobs_each_recorded_once() {
    let log = Rc::new(RefCell::new(Vec::new()));
    let mut p = ThreadPool::new(2).unwrap();
    p.execute(job(1, &log));
    p.execute(job(2, &log));
    p.execute(job(3, &log));
    p.shutdown();
    let got = log.borrow().clone();
    assert_eq!(got.len(), 3);
    for id in [1, 2, 3] {
        assert_eq!(got.iter().filter(|&&x| x == id).count(), 1);
    }
}

#[test]
fn hundred_jobs_from_ten_batches() {
    let log = Rc::new(RefCell::new(Vec::new()));
    let mut p = ThreadPool::new(4).unwrap();
    for batch in 0..10u64 {
        for k in 0..10u64 {
            p.execute(job(batch * 10 + k, &log));
        }
    }
    p.shutdown();
    let got = log.borrow().clone();
    assert_eq!(got.len(), 100);
    for id in 0..100 {
        assert_eq!(got.iter().filter(|&&x| x == id).count(), 1);
    }
}

#[test]
fn run_next_job_runs_the_front_job() {
    let log = Rc::new(RefCell::new(Vec::new()));
    let mut p = ThreadPool::new(2).unwrap();
    p.execute(job(7, &log));
    p.execute(job(8, &log));
    p.run_next_job();
    assert_eq!(*log.borrow(), vec![7]);
    assert_eq!(p.pending_jobs(), 1);
    p.shutdown();
    assert_eq!(*log.borrow(), vec![7, 8]);
}

#[test]
fn new_job_message_is_dispatched_to_run() {
    let log = Rc::new(RefCell::new(Vec::new()));
    let action = on_message(Message::NewJob(job(42, &log)));
    match action {
        WorkerAction::Run(j) => j.run(),
        WorkerAction::Exit => panic!("a job message must be run"),
    }
    assert_eq!(*log.borrow(), vec![42]);
}

#[test]
fn terminate_message_is_dispatched_to_exit() {
    let action = on_message(Message::<RecJob>::Terminate);
    assert!(matches!(action, WorkerAction::Exit));
}
