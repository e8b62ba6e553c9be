use server_threadpool::message::Message;
use server_threadpool::pool::ThreadPool;
use server_threadpool::worker::Action;
use server_threadpool::worker::Worker;

#[test]
fn returns_threadpool() {
    let _pool = ThreadPool::new(4);
}

#[test]
fn new_creates_exactly_size_workers() {
    for size in 1..6 {
        let pool = ThreadPool::new(size);
        assert_eq!(pool.size(), size);
        for i in 0..size {
            let w = pool.worker(i);
            assert_eq!(w.get_id(), i);
            assert!(w.is_running());
            assert!(!w.is_joined());
        }
    }
}

#[test]
fn try_new_rejects_zero_size() {
    assert!(ThreadPool::try_new(0).is_none());
}

#[test]
fn try_new_accepts_positive_size() {
    let pool = ThreadPool::try_new(3).unwrap();
    assert_eq!(pool.size(), 3);
}

#[test]
fn execute_enqueues_without_running() {
    let mut pool = ThreadPool::new(2);
    pool.execute(10);
    pool.execute(20);
    assert_eq!(pool.submitted_log(), &vec![10, 20]);
    assert_eq!(pool.executed_log(), &vec![]);
    assert_eq!(pool.pending_messages(), 2);
}

#[test]
fn step_worker_runs_head_job() {
    let mut pool = ThreadPool::new(2);
    pool.execute(7);
    pool.execute(8);
    let a = pool.step_worker(1);
    assert_eq!(a, Some(Action::RunJob(7)));
    assert_eq!(pool.executed_log(), &vec![7]);
    assert_eq!(pool.pending_messages(), 1);
    let b = pool.step_worker(0);
    assert_eq!(b, Some(Action::RunJob(8)));
    assert_eq!(pool.executed_log(), &vec![7, 8]);
}

#[test]
fn step_worker_on_empty_queue_takes_nothing() {
    let mut pool = ThreadPool::new(1);
    assert_eq!(pool.step_worker(0), None);
    assert_eq!(pool.executed_log(), &vec![]);
}

#[test]
fn jobs_execute_exactly_once_in_order() {
    let mut pool = ThreadPool::new(3);
    pool.execute(1);
    pool.execute(2);
    pool.execute(3);
    pool.step_worker(0);
    pool.dispose();
    assert_eq!(pool.executed_log(), &vec![1, 2, 3]);
    assert_eq!(pool.submitted_log(), &vec![1, 2, 3]);
}

#[test]
fn dispose_runs_all_pending_jobs_and_joins_all_workers() {
    let mut pool = ThreadPool::new(2);
    pool.execute(41);
    pool.execute(42);
    pool.execute(43);
    pool.dispose();
    assert_eq!(pool.executed_log(), &vec![41, 42, 43]);
    assert_eq!(pool.pending_messages(), 0);
    for i in 0..2 {
        assert!(!pool.worker(i).is_running());
        assert!(pool.worker(i).is_joined());
    }
}

#[test]
fn dispose_twice_changes_nothing() {
    let mut pool = ThreadPool::new(2);
    pool.execute(5);
    pool.dispose();
    let executed = pool.executed_log().clone();
    pool.dispose();
    assert_eq!(pool.executed_log(), &executed);
    assert_eq!(pool.pending_messages(), 0);
    for i in 0..2 {
        assert!(pool.worker(i).is_joined());
    }
}

#[test]
fn dispose_of_idle_pool_returns_promptly() {
    let mut pool = ThreadPool::new(4);
    pool.dispose();
    assert_eq!(pool.executed_log(), &vec![]);
    assert_eq!(pool.submitted_log(), &vec![]);
    assert_eq!(pool.pending_messages(), 0);
    for i in 0..4 {
        assert!(!pool.worker(i).is_running());
        assert!(pool.worker(i).is_joined());
    }
}

#[test]
fn duplicate_job_tokens_each_run_once() {
    let mut pool = ThreadPool::new(1);
    pool.execute(9);
    pool.execute(9);
    pool.dispose();
    assert_eq!(pool.executed_log(), &vec![9, 9]);
}

#[test]
fn worker_runs_job_then_exits_on_terminate() {
    let mut w = Worker::new(3);
    assert_eq!(w.get_id(), 3);
    assert!(w.is_running());
    let a = w.handle_message(Message::NewJob(9));
    assert_eq!(a, Action::RunJob(9));
    assert!(w.is_running());
    let b = w.handle_message(Message::Terminate);
    assert_eq!(b, Action::Exit);
    assert!(!w.is_running());
    w.join();
    assert!(w.is_joined());
    assert_eq!(w.get_id(), 3);
}
