//! The pool's timing model: jobs taken FIFO from the shared queue, each by
//! the first worker to fall idle.
//!
//! A job that blocks for some duration occupies exactly one worker for that
//! long, so it delays only the jobs that land on the same worker: as long as
//! an idle worker remains, the next job starts at once. `completion_times`
//! computes when each job finishes under that discipline, and the law at the
//! bottom states the pool's core concurrency property: each of the first
//! `size` jobs completes after exactly its own duration, however long the
//! jobs around it block.

use vstd::prelude::*;

verus! {

/// The position of the first minimum of a nonempty sequence: the worker the
/// next job goes to, ties broken toward the lowest slot.
pub open spec fn first_min_index(s: Seq<int>) -> int
    recommends
        s.len() > 0,
    decreases s.len(),
{
    if s.len() <= 1 {
        0
    } else {
        let rest = first_min_index(s.drop_first()) + 1;
        if s[0] <= s[rest] {
            0
        } else {
            rest
        }
    }
}

/// `first_min_index` lands in bounds, on a minimal element, behind no
/// smaller-or-equal one.
pub proof fn lemma_first_min_index(s: Seq<int>)
    requires
        s.len() > 0,
    ensures
        0 <= first_min_index(s) < s.len(),
        forall|j: int| 0 <= j < s.len() ==> s[first_min_index(s)] <= #[trigger] s[j],
        forall|j: int| 0 <= j < first_min_index(s) ==> #[trigger] s[j] > s[first_min_index(s)],
    decreases s.len(),
{
    if s.len() > 1 {
        lemma_first_min_index(s.drop_first());
        assert(forall|j: int| 1 <= j < s.len() ==> #[trigger] s[j] == s.drop_first()[j - 1]);
    }
}

/// When each job completes, processing `durs` in order: each goes to the
/// first idle worker, starting the moment that worker frees up. `free` holds
/// the time at which each worker becomes idle.
pub open spec fn completions_from(durs: Seq<u64>, free: Seq<int>) -> Seq<int>
    recommends
        free.len() > 0,
    decreases durs.len(),
{
    if durs.len() == 0 {
        Seq::empty()
    } else {
        let w = first_min_index(free);
        let done = free[w] + durs[0];
        seq![done] + completions_from(durs.drop_first(), free.update(w, done))
    }
}

/// When each job completes on a pool of `size` workers, all idle at first.
pub open spec fn completion_times_spec(durs: Seq<u64>, size: nat) -> Seq<int> {
    completions_from(durs, Seq::new(size as nat, |i: int| 0))
}

/// One completion time per job.
pub proof fn lemma_completions_len(durs: Seq<u64>, free: Seq<int>)
    ensures
        completions_from(durs, free).len() == durs.len(),
    decreases durs.len(),
{
    if durs.len() > 0 {
        let w = first_min_index(free);
        lemma_completions_len(durs.drop_first(), free.update(w, free[w] + durs[0]));
    }
}

/// The total duration of `durs`.
pub open spec fn sum_of(durs: Seq<u64>) -> int
    decreases durs.len(),
{
    if durs.len() == 0 {
        0
    } else {
        durs[0] + sum_of(durs.drop_first())
    }
}

pub proof fn lemma_sum_nonneg(durs: Seq<u64>)
    ensures
        sum_of(durs) >= 0,
    decreases durs.len(),
{
    if durs.len() > 0 {
        lemma_sum_nonneg(durs.drop_first());
    }
}

/// The worker slots of `free`, as mathematical integers.
pub open spec fn to_ints(s: Seq<u64>) -> Seq<int> {
    s.map_values(|x: u64| x as int)
}

/// Compute when each job completes: job after job, hand it to the worker
/// that frees up first and occupy that one worker for the job's duration.
/// The result is exactly the timing model above.
pub fn completion_times(durs: &Vec<u64>, size: usize) -> (r: Vec<u64>)
    requires
        size > 0,
        sum_of(durs@) <= u64::MAX,
    ensures
        r@.len() == durs@.len(),
        forall|k: int|
            0 <= k < r@.len() ==> r@[k] == completion_times_spec(durs@, size as nat)[k],
{
    let ghost spec_result = completion_times_spec(durs@, size as nat);
    let mut free: Vec<u64> = Vec::new();
    let mut w: usize = 0;
    while w < size
        invariant
            w <= size,
            free@.len() == w,
            forall|k: int| 0 <= k < w ==> #[trigger] free@[k] == 0,
        decreases size - w,
    {
        free.push(0);
        w += 1;
    }
    proof {
        assert(to_ints(free@) =~= Seq::new(size as nat, |i: int| 0));
        lemma_completions_len(durs@, Seq::new(size as nat, |i: int| 0));
        assert(spec_result.len() == durs@.len());
        assert(durs@.skip(0) =~= durs@);
        assert(spec_result.skip(0) =~= spec_result);
        assert(forall|k: int| 0 <= k < size ==> #[trigger] to_ints(free@)[k] == 0);
    }

    let mut out: Vec<u64> = Vec::new();
    let mut j: usize = 0;
    while j < durs.len()
        invariant
            j <= durs.len(),
            size > 0,
            free@.len() == size,
            out@.len() == j,
            sum_of(durs@) <= u64::MAX,
            forall|k: int| 0 <= k < j ==> #[trigger] out@[k] == spec_result[k],
            completions_from(durs@.skip(j as int), to_ints(free@)) == spec_result.skip(j as int),
            forall|k: int|
                0 <= k < size ==> #[trigger] to_ints(free@)[k] + sum_of(durs@.skip(j as int))
                    <= u64::MAX,
            spec_result == completion_times_spec(durs@, size as nat),
            spec_result.len() == durs@.len(),
        decreases durs.len() - j,
    {
        let ghost fr = to_ints(free@);
        let ghost rest = durs@.skip(j as int);
        proof {
            assert(forall|k: int| 0 <= k < size ==> #[trigger] fr[k] == free@[k]);
            lemma_completions_len(rest, fr);
        }

        // The first idle worker: the first minimum of the free times.
        let mut best: usize = 0;
        let mut t: usize = 1;
        while t < size
            invariant
                best < t <= size,
                free@.len() == size,
                forall|k: int| 0 <= k < t ==> free@[best as int] <= #[trigger] free@[k],
                forall|k: int| 0 <= k < best ==> #[trigger] free@[k] > free@[best as int],
            decreases size - t,
        {
            if free[t] < free[best] {
                best = t;
            }
            t += 1;
        }
        proof {
            lemma_first_min_index(fr);
            let m = first_min_index(fr);
            if m < best {
                assert(fr[m] > fr[best as int]);
                assert(fr[m] <= fr[best as int]);
            }
            if best < m {
                assert(fr[best as int] > fr[m]);
                assert(fr[m] <= fr[best as int]);
            }
            assert(m == best as int);
        }

        proof {
            lemma_sum_nonneg(durs@.skip(j as int + 1));
            assert(rest[0] == durs@[j as int]);
            assert(rest.drop_first() =~= durs@.skip(j as int + 1));
            assert(sum_of(rest) == durs@[j as int] + sum_of(durs@.skip(j as int + 1)));
        }
        let done = free[best] + durs[j];
        free[best] = done;
        out.push(done);
        proof {
            assert(done as int == fr[best as int] + rest[0]);
            assert(to_ints(free@) =~= fr.update(best as int, done as int));
            assert(completions_from(rest, fr) == seq![done as int] + completions_from(
                rest.drop_first(),
                fr.update(best as int, done as int),
            ));
            assert(spec_result.skip(j as int)[0] == spec_result[j as int]);
            assert(out@[j as int] == spec_result[j as int]);
            assert(completions_from(durs@.skip(j as int + 1), to_ints(free@)) =~= spec_result.skip(
                j as int,
            ).drop_first());
            assert(spec_result.skip(j as int).drop_first() =~= spec_result.skip(j as int + 1));
        }
        j += 1;
    }
    proof {
        assert(completions_from(durs@.skip(j as int), to_ints(free@)) == spec_result.skip(
            j as int,
        ));
        assert(spec_result.skip(j as int).len() == 0);
        assert(out@.len() == spec_result.len());
    }
    out
}

/// How many worker slots of `free` are idle (zero).
pub open spec fn zero_count(s: Seq<int>) -> nat
    decreases s.len(),
{
    if s.len() == 0 {
        0
    } else {
        (if s[0] == 0 {
            1nat
        } else {
            0nat
        }) + zero_count(s.drop_first())
    }
}

pub proof fn lemma_zero_count_positive(s: Seq<int>)
    requires
        zero_count(s) > 0,
    ensures
        exists|i: int| 0 <= i < s.len() && s[i] == 0,
    decreases s.len(),
{
    if s[0] == 0 {
        assert(0 <= 0 < s.len() && s[0] == 0);
    } else {
        lemma_zero_count_positive(s.drop_first());
        let i = choose|i: int| 0 <= i < s.drop_first().len() && s.drop_first()[i] == 0;
        assert(0 <= i + 1 < s.len() && s[i + 1] == 0);
    }
}

pub proof fn lemma_zero_count_update(s: Seq<int>, i: int, v: int)
    requires
        0 <= i < s.len(),
    ensures
        zero_count(s.update(i, v)) >= zero_count(s) - 1,
    decreases s.len(),
{
    if i == 0 {
        assert(s.update(0, v).drop_first() =~= s.drop_first());
    } else {
        assert(s.update(i, v).drop_first() =~= s.drop_first().update(i - 1, v));
        lemma_zero_count_update(s.drop_first(), i - 1, v);
        assert(s.update(i, v)[0] == s[0]);
    }
}

pub proof fn lemma_zero_count_all_idle(s: Seq<int>)
    requires
        forall|i: int| 0 <= i < s.len() ==> #[trigger] s[i] == 0,
    ensures
        zero_count(s) == s.len(),
    decreases s.len(),
{
    if s.len() > 0 {
        assert(forall|i: int|
            0 <= i < s.drop_first().len() ==> #[trigger] s.drop_first()[i] == s[i + 1]);
        lemma_zero_count_all_idle(s.drop_first());
    }
}

proof fn lemma_completion_with_idle_worker(durs: Seq<u64>, free: Seq<int>, k: int)
    requires
        free.len() > 0,
        0 <= k < durs.len(),
        forall|w: int| 0 <= w < free.len() ==> #[trigger] free[w] >= 0,
        zero_count(free) > k,
    ensures
        completions_from(durs, free)[k] == durs[k],
    decreases k,
{
    lemma_first_min_index(free);
    lemma_zero_count_positive(free);
    let m = first_min_index(free);
    let z = choose|i: int| 0 <= i < free.len() && free[i] == 0;
    assert(free[m] <= free[z]);
    assert(free[m] == 0);
    let done = free[m] + durs[0];
    if k == 0 {
        assert(completions_from(durs, free)[0] == done);
    } else {
        let fr = free.update(m, done);
        lemma_zero_count_update(free, m, done);
        lemma_completion_with_idle_worker(durs.drop_first(), fr, k - 1);
        lemma_completions_len(durs.drop_first(), fr);
        assert(completions_from(durs, free) == seq![done] + completions_from(
            durs.drop_first(),
            fr,
        ));
        assert(completions_from(durs, free)[k] == completions_from(durs.drop_first(), fr)[k - 1]);
        assert(durs.drop_first()[k - 1] == durs[k]);
    }
}

/// The pool's core concurrency property: a blocking job occupies exactly one
/// worker, so throughput degrades with pool size, never to zero. As long as
/// an idle worker remains — that is, for each of the first `size` jobs — a
/// job starts the moment it is submitted and completes after exactly its own
/// duration, no matter how long the jobs around it block.
pub proof fn lemma_early_job_completes_at_own_duration(durs: Seq<u64>, size: nat, k: int)
    requires
        size > 0,
        0 <= k < size,
        k < durs.len(),
    ensures
        completion_times_spec(durs, size)[k] == durs[k],
{
    let free = Seq::new(size as nat, |i: int| 0);
    lemma_zero_count_all_idle(free);
    lemma_completion_with_idle_worker(durs, free, k);
}

/// The workers' idle times once every job of `durs` has been dispatched.
pub open spec fn free_after(durs: Seq<u64>, free: Seq<int>) -> Seq<int>
    recommends
        free.len() > 0,
    decreases durs.len(),
{
    if durs.len() == 0 {
        free
    } else {
        let w = first_min_index(free);
        free_after(durs.drop_first(), free.update(w, free[w] + durs[0]))
    }
}

/// The combined busy time of all workers.
pub open spec fn total_of(s: Seq<int>) -> int
    decreases s.len(),
{
    if s.len() == 0 {
        0
    } else {
        s[0] + total_of(s.drop_first())
    }
}

proof fn lemma_total_update(s: Seq<int>, i: int, v: int)
    requires
        0 <= i < s.len(),
    ensures
        total_of(s.update(i, v)) == total_of(s) - s[i] + v,
    decreases s.len(),
{
    if i == 0 {
        assert(s.update(0, v).drop_first() =~= s.drop_first());
    } else {
        assert(s.update(i, v).drop_first() =~= s.drop_first().update(i - 1, v));
        lemma_total_update(s.drop_first(), i - 1, v);
        assert(s.update(i, v)[0] == s[0]);
    }
}

/// A job occupies exactly one worker, for exactly its own duration:
/// dispatching a batch of jobs raises the workers' combined busy time by
/// exactly the batch's total duration, no more and no less, however the
/// jobs fall across the workers.
pub proof fn lemma_each_job_occupies_one_worker(durs: Seq<u64>, free: Seq<int>)
    requires
        free.len() > 0,
    ensures
        total_of(free_after(durs, free)) == total_of(free) + sum_of(durs),
    decreases durs.len(),
{
    if durs.len() > 0 {
        let w = first_min_index(free);
        lemma_first_min_index(free);
        lemma_total_update(free, w, free[w] + durs[0]);
        lemma_each_job_occupies_one_worker(durs.drop_first(), free.update(w, free[w] + durs[0]));
    }
}

/// With two or more workers, throughput does not collapse to serial: a job
/// submitted concurrently with a slow one completes before the slow one's
/// duration elapses whenever its own is shorter.
pub proof fn lemma_quick_job_outruns_slow_job(durs: Seq<u64>, size: nat)
    requires
        size >= 2,
        durs.len() >= 2,
        durs[1] < durs[0],
    ensures
        completion_times_spec(durs, size)[1] < durs[0],
{
    lemma_early_job_completes_at_own_duration(durs, size, 1);
}

} // verus!
