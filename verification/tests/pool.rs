use last_project::pool::{Directive, WorkerPool, WorkerState};
use std::cell::RefCell;
use std::rc::Rc;

fn ask(pool: &mut WorkerPool<u32>, worker: usize) -> Option<u32> {
    match pool.next_job(worker) {
        Directive::Run(job) => Some(job),
        _ => None,
    }
}

#[test]
fn new_pool_is_open_and_idle() {
    let pool: WorkerPool<u32> = WorkerPool::new(4);
    assert_eq!(pool.size(), 4);
    assert_eq!(pool.pending(), 0);
    assert!(pool.is_open());
    assert!(!pool.is_terminated());
    for worker in 0..4 {
        assert_eq!(pool.state(worker), Some(WorkerState::Idle));
    }
    assert_eq!(pool.state(4), None);
}

#[test]
fn every_job_runs_once_whatever_the_number_of_workers() {
    for workers in 1..=5usize {
        for jobs in [0u32, 1, 2, 7, 40] {
            let mut pool: WorkerPool<u32> = WorkerPool::new(workers);
            let mut ran: Vec<Vec<u32>> = vec![Vec::new(); workers];
            let mut turn = 0;
            for job in 0..jobs {
                assert!(pool.submit(job).is_ok());
                if job % 3 == 2 {
                    if let Some(got) = ask(&mut pool, turn % workers) {
                        ran[turn % workers].push(got);
                    }
                    turn += 1;
                }
            }
            pool.shutdown();
            while !pool.is_terminated() {
                if let Some(got) = ask(&mut pool, turn % workers) {
                    ran[turn % workers].push(got);
                }
                turn += 1;
            }
            let mut all: Vec<u32> = ran.into_iter().flatten().collect();
            all.sort();
            assert_eq!(all, (0..jobs).collect::<Vec<u32>>());
            assert_eq!(pool.pending(), 0);
        }
    }
}

#[test]
fn jobs_that_record_their_own_execution() {
    let record: Rc<RefCell<Vec<usize>>> = Rc::new(RefCell::new(Vec::new()));
    let mut pool: WorkerPool<Box<dyn FnOnce()>> = WorkerPool::new(3);
    for id in 0..10usize {
        let record = Rc::clone(&record);
        let job: Box<dyn FnOnce()> = Box::new(move || record.borrow_mut().push(id));
        assert!(pool.submit(job).is_ok());
    }
    pool.shutdown();
    let mut worker = 0;
    while !pool.is_terminated() {
        if let Directive::Run(job) = pool.next_job(worker) {
            job();
        }
        worker = (worker + 2) % 3;
    }
    let mut seen = record.borrow().clone();
    seen.sort();
    assert_eq!(seen, (0..10).collect::<Vec<usize>>());
}

#[test]
fn jobs_leave_the_queue_in_order() {
    let mut pool: WorkerPool<u32> = WorkerPool::new(2);
    for job in [5, 3, 9] {
        assert!(pool.submit(job).is_ok());
    }
    assert_eq!(pool.pending(), 3);
    assert_eq!(ask(&mut pool, 1), Some(5));
    assert_eq!(ask(&mut pool, 0), Some(3));
    assert_eq!(ask(&mut pool, 1), Some(9));
    assert_eq!(pool.pending(), 0);
}

#[test]
fn busy_worker_holds_up_nobody() {
    let mut pool: WorkerPool<&str> = WorkerPool::new(2);
    for job in ["slow", "quick one", "quick two"] {
        assert!(pool.submit(job).is_ok());
    }
    assert!(matches!(pool.next_job(0), Directive::Run("slow")));
    assert_eq!(pool.state(0), Some(WorkerState::Busy));
    assert!(matches!(pool.next_job(1), Directive::Run("quick one")));
    assert!(matches!(pool.next_job(1), Directive::Run("quick two")));
    assert!(matches!(pool.next_job(1), Directive::Wait));
    assert_eq!(pool.state(0), Some(WorkerState::Busy));
    assert_eq!(pool.state(1), Some(WorkerState::Idle));
    assert_eq!(pool.pending(), 0);
}

#[test]
fn idle_worker_waits_while_the_queue_is_open() {
    let mut pool: WorkerPool<u32> = WorkerPool::new(1);
    assert!(matches!(pool.next_job(0), Directive::Wait));
    assert_eq!(pool.state(0), Some(WorkerState::Idle));
    assert!(pool.submit(1).is_ok());
    assert!(matches!(pool.next_job(0), Directive::Run(1)));
    assert_eq!(pool.state(0), Some(WorkerState::Busy));
    assert!(matches!(pool.next_job(0), Directive::Wait));
    assert_eq!(pool.state(0), Some(WorkerState::Idle));
}

#[test]
fn submit_after_shutdown_hands_the_job_back() {
    let mut pool: WorkerPool<u32> = WorkerPool::new(2);
    assert_eq!(pool.submit(1), Ok(()));
    pool.shutdown();
    assert!(!pool.is_open());
    assert_eq!(pool.submit(2), Err(2));
    assert_eq!(pool.pending(), 1);
    assert_eq!(ask(&mut pool, 0), Some(1));
    assert_eq!(pool.submit(3), Err(3));
    assert_eq!(pool.pending(), 0);
}

#[test]
fn queued_jobs_drain_after_shutdown() {
    let mut pool: WorkerPool<u32> = WorkerPool::new(2);
    for job in 0..4 {
        assert!(pool.submit(job).is_ok());
    }
    pool.shutdown();
    assert_eq!(ask(&mut pool, 0), Some(0));
    assert_eq!(ask(&mut pool, 1), Some(1));
    assert_eq!(ask(&mut pool, 1), Some(2));
    assert!(!pool.is_terminated());
    assert_eq!(ask(&mut pool, 0), Some(3));
    assert!(matches!(pool.next_job(1), Directive::Exit));
    assert_eq!(pool.state(1), Some(WorkerState::Exited));
    assert!(!pool.is_terminated());
    assert!(matches!(pool.next_job(0), Directive::Exit));
    assert!(pool.is_terminated());
}

#[test]
fn shutdown_twice_is_shutdown_once() {
    let mut pool: WorkerPool<u32> = WorkerPool::new(1);
    assert!(pool.submit(1).is_ok());
    pool.shutdown();
    pool.shutdown();
    assert!(!pool.is_open());
    assert_eq!(pool.pending(), 1);
    assert_eq!(ask(&mut pool, 0), Some(1));
    assert!(matches!(pool.next_job(0), Directive::Exit));
    assert!(pool.is_terminated());
    pool.shutdown();
    assert!(pool.is_terminated());
}

#[test]
fn terminated_pool_stays_as_it_is() {
    let mut pool: WorkerPool<u32> = WorkerPool::new(2);
    pool.shutdown();
    assert!(matches!(pool.next_job(0), Directive::Exit));
    assert!(matches!(pool.next_job(1), Directive::Exit));
    assert!(pool.is_terminated());
    assert_eq!(pool.submit(1), Err(1));
    assert!(matches!(pool.next_job(0), Directive::Exit));
    assert_eq!(pool.state(0), Some(WorkerState::Exited));
    assert_eq!(pool.state(1), Some(WorkerState::Exited));
    assert_eq!(pool.pending(), 0);
    assert!(pool.is_terminated());
}

#[test]
fn stranger_is_told_to_stop_and_changes_nothing() {
    let mut pool: WorkerPool<u32> = WorkerPool::new(2);
    assert!(pool.submit(1).is_ok());
    assert!(matches!(pool.next_job(2), Directive::Exit));
    assert!(matches!(pool.next_job(usize::MAX), Directive::Exit));
    assert_eq!(pool.pending(), 1);
    assert_eq!(pool.state(0), Some(WorkerState::Idle));
    assert_eq!(pool.state(1), Some(WorkerState::Idle));
}

#[test]
fn closed_pool_comes_to_rest_when_the_workers_go_on_asking() {
    let mut pool: WorkerPool<u32> = WorkerPool::new(3);
    for job in 0..5 {
        assert!(pool.submit(job).is_ok());
    }
    assert_eq!(ask(&mut pool, 1), Some(0));
    pool.shutdown();
    let mut ran = vec![0];
    for _ in 0..pool.pending() + 1 {
        ran.extend(ask(&mut pool, 0));
    }
    assert_eq!(pool.pending(), 0);
    assert_eq!(pool.state(0), Some(WorkerState::Exited));
    assert!(!pool.is_terminated());
    for worker in 0..pool.size() {
        assert!(matches!(pool.next_job(worker), Directive::Exit));
    }
    assert!(pool.is_terminated());
    assert_eq!(ran, vec![0, 1, 2, 3, 4]);
}
