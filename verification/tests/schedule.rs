use server_threadpool::schedule::completion_times;

#[test]
fn two_workers_slow_job_does_not_serialize() {
    // Pool of two workers, three jobs: the first sleeps five time-units, the
    // other two are instantaneous. Both quick jobs complete at once,
    // independent of the slow one, and the whole batch takes five
    // time-units, not ten.
    let done = completion_times(&vec![5, 0, 0], 2);
    assert_eq!(done, vec![5, 0, 0]);
    assert_eq!(done.iter().max(), Some(&5));
}

#[test]
fn single_worker_serializes_jobs() {
    assert_eq!(completion_times(&vec![2, 3, 4], 1), vec![2, 5, 9]);
}

#[test]
fn first_jobs_start_at_once_with_enough_workers() {
    assert_eq!(completion_times(&vec![9, 1, 1, 1], 4), vec![9, 1, 1, 1]);
}

#[test]
fn later_job_goes_to_first_free_worker() {
    // Two workers: the third job waits for whichever worker frees up first.
    assert_eq!(completion_times(&vec![5, 1, 1], 2), vec![5, 1, 2]);
}

#[test]
fn no_jobs_no_completions() {
    assert_eq!(completion_times(&vec![], 3), vec![]);
}
