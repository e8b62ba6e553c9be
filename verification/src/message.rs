//! The messages carried by the pool's shared channel, and how a sequence of
//! queued messages decomposes into its jobs and its terminate signals.

use vstd::prelude::*;

verus! {

/// A message sent from the pool to its workers: either a job, identified by
/// the token its producer handed to `execute`, or a terminate signal whose
/// only role is to end one worker's loop.
#[derive(PartialEq, Eq, Structural, Clone, Copy, Debug)]
pub enum Message {
    NewJob(u64),
    Terminate,
}

/// The job tokens in `q`, in queue order, with terminate signals dropped.
pub open spec fn jobs_of(q: Seq<Message>) -> Seq<u64>
    decreases q.len(),
{
    if q.len() == 0 {
        Seq::empty()
    } else {
        match q[0] {
            Message::NewJob(j) => seq![j] + jobs_of(q.drop_first()),
            Message::Terminate => jobs_of(q.drop_first()),
        }
    }
}

/// How many terminate signals `q` holds.
pub open spec fn terminates_of(q: Seq<Message>) -> nat
    decreases q.len(),
{
    if q.len() == 0 {
        0
    } else {
        (if q[0] is Terminate {
            1nat
        } else {
            0nat
        }) + terminates_of(q.drop_first())
    }
}

/// Once a terminate signal appears in `q`, everything behind it is also a
/// terminate signal. This is the shape the queue has during shutdown: the
/// terminates are sent last, so they sit behind every pending job.
pub open spec fn jobs_precede_terminates(q: Seq<Message>) -> bool {
    forall|i: int, j: int|
        #![trigger q[i], q[j]]
        0 <= i <= j < q.len() && q[i] is Terminate ==> q[j] is Terminate
}

/// A queue of one message holds that message's job, or none, and counts its
/// terminate signal, or none.
pub proof fn lemma_singleton(m: Message)
    ensures
        jobs_of(seq![m]) == (match m {
            Message::NewJob(j) => seq![j],
            Message::Terminate => Seq::<u64>::empty(),
        }),
        terminates_of(seq![m]) == (if m is Terminate {
            1nat
        } else {
            0nat
        }),
{
    assert(seq![m].drop_first() =~= Seq::<Message>::empty());
    assert(jobs_of(Seq::<Message>::empty()) =~= Seq::<u64>::empty());
    assert(terminates_of(Seq::<Message>::empty()) == 0);
    match m {
        Message::NewJob(j) => {
            assert(jobs_of(seq![m]) =~= seq![j]);
        },
        Message::Terminate => {
            assert(jobs_of(seq![m]) =~= Seq::<u64>::empty());
        },
    }
}

/// Appending queues concatenates their job sequences and adds their
/// terminate counts.
pub proof fn lemma_append(q: Seq<Message>, r: Seq<Message>)
    ensures
        jobs_of(q + r) == jobs_of(q) + jobs_of(r),
        terminates_of(q + r) == terminates_of(q) + terminates_of(r),
    decreases q.len(),
{
    if q.len() == 0 {
        assert(q + r =~= r);
        assert(jobs_of(q) + jobs_of(r) =~= jobs_of(r));
    } else {
        assert((q + r).drop_first() =~= q.drop_first() + r);
        lemma_append(q.drop_first(), r);
        match q[0] {
            Message::NewJob(j) => {
                assert(seq![j] + (jobs_of(q.drop_first()) + jobs_of(r)) =~= (seq![j] + jobs_of(
                    q.drop_first(),
                )) + jobs_of(r));
            },
            Message::Terminate => {},
        }
    }
}

/// Every queued message is either a job or a terminate signal, so the two
/// counts exhaust the queue's length.
pub proof fn lemma_length_decomposition(q: Seq<Message>)
    ensures
        q.len() == jobs_of(q).len() + terminates_of(q),
    decreases q.len(),
{
    if q.len() > 0 {
        lemma_length_decomposition(q.drop_first());
    }
}

/// A queue holds no terminate signal exactly when its terminate count is
/// zero.
pub proof fn lemma_no_terminates(q: Seq<Message>)
    ensures
        terminates_of(q) == 0 <==> (forall|i: int| 0 <= i < q.len() ==> !(#[trigger] q[i] is Terminate)),
    decreases q.len(),
{
    if q.len() > 0 {
        lemma_no_terminates(q.drop_first());
        assert(forall|i: int| 1 <= i < q.len() ==> #[trigger] q[i] == q.drop_first()[i - 1]);
    }
}

/// A queue made of terminate signals alone carries no job.
pub proof fn lemma_all_terminates_no_jobs(q: Seq<Message>)
    requires
        forall|i: int| 0 <= i < q.len() ==> #[trigger] q[i] is Terminate,
    ensures
        jobs_of(q) == Seq::<u64>::empty(),
    decreases q.len(),
{
    if q.len() > 0 {
        assert(forall|i: int|
            0 <= i < q.drop_first().len() ==> #[trigger] q.drop_first()[i] is Terminate && q[i
                + 1] is Terminate);
        lemma_all_terminates_no_jobs(q.drop_first());
    }
}

} // verus!
