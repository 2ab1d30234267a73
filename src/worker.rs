use crate::queue::{DispatchQueue, lemma_receive_order};
use vstd::prelude::*;

verus! {

/// A message on the dispatch queue: a unit of work, or the signal for the
/// worker that takes it to stop.
pub enum WorkerMessage<J> {
    NewJob(J),
    Shutdown,
}

/// What a worker does with the message it has taken.
pub enum WorkerAction<J> {
    /// Run the job on the worker's own thread, then take the next message.
    Run(J),
    /// Leave the loop: the worker's thread ends.
    Stop,
}

/// The number of shutdown signals in `s`.
pub open spec fn shutdowns<J>(s: Seq<WorkerMessage<J>>) -> nat
    decreases s.len(),
{
    if s.len() == 0 {
        0
    } else {
        shutdowns(s.drop_last()) + if s.last() is Shutdown {
            1nat
        } else {
            0nat
        }
    }
}

/// The messages that one worker can have taken: it takes messages one at a
/// time and takes none after the first shutdown signal.
pub open spec fn worker_trace<J>(taken: Seq<WorkerMessage<J>>) -> bool {
    forall|i: int| 0 <= i < taken.len() - 1 ==> #[trigger] taken[i] is NewJob
}

/// Whether a worker that has taken `taken` has left its loop.
pub open spec fn worker_stopped<J>(taken: Seq<WorkerMessage<J>>) -> bool {
    taken.len() > 0 && taken.last() is Shutdown
}

/// The action for `message`: a job is run, a shutdown signal stops the worker.
pub fn next_action<J>(message: WorkerMessage<J>) -> (r: WorkerAction<J>)
    ensures
        message is Shutdown <==> r is Stop,
        forall|j: J| message == WorkerMessage::NewJob(j) <==> r == WorkerAction::Run(j),
{
    match message {
        WorkerMessage::NewJob(job) => WorkerAction::Run(job),
        WorkerMessage::Shutdown => WorkerAction::Stop,
    }
}

/// A worker that has stopped has taken exactly one shutdown signal, and a
/// worker still running has taken none: each signal retires one worker.
pub proof fn lemma_one_shutdown_per_worker<J>(taken: Seq<WorkerMessage<J>>)
    requires
        worker_trace(taken),
    ensures
        worker_stopped(taken) ==> shutdowns(taken) == 1,
        !worker_stopped(taken) ==> shutdowns(taken) == 0,
{
    if taken.len() > 0 {
        lemma_no_shutdowns(taken.drop_last());
    }
}

proof fn lemma_no_shutdowns<J>(s: Seq<WorkerMessage<J>>)
    requires
        forall|i: int| 0 <= i < s.len() ==> #[trigger] s[i] is NewJob,
    ensures
        shutdowns(s) == 0,
    decreases s.len(),
{
    if s.len() > 0 {
        lemma_no_shutdowns(s.drop_last());
    }
}

/// Counting shutdown signals over a longer prefix never gives fewer.
pub proof fn lemma_shutdowns_prefix<J>(s: Seq<WorkerMessage<J>>, n: int, m: int)
    requires
        0 <= n <= m <= s.len(),
    ensures
        shutdowns(s.take(n)) <= shutdowns(s.take(m)),
    decreases m - n,
{
    if n < m {
        lemma_shutdowns_prefix(s, n, m - 1);
        assert(s.take(m).drop_last() =~= s.take(m - 1));
    }
}

/// Once the workers have taken every shutdown signal sent, and the last
/// message sent was one, every message sent has been received, each exactly
/// once and in the order of sending: no job is left behind or run twice.
pub proof fn lemma_every_job_delivered<J>(q: &DispatchQueue<WorkerMessage<J>>)
    requires
        q.wf(),
        q.sent().len() > 0,
        q.sent().last() is Shutdown,
        shutdowns(q.received()) == shutdowns(q.sent()),
    ensures
        q.received() == q.sent(),
        q.pending().len() == 0,
        forall|i: int| 0 <= i < q.sent().len() ==> #[trigger] q.received()[i] == q.sent()[i],
{
    lemma_receive_order(q);
    let s = q.sent();
    let r = q.received();
    assert(r =~= s.take(r.len() as int));
    if r.len() < s.len() {
        lemma_shutdowns_prefix(s, r.len() as int, s.len() - 1);
        assert(s.take(s.len() - 1) =~= s.drop_last());
        assert(s.take(r.len() as int) =~= r);
        assert(false);
    }
    assert(s.take(s.len() as int) =~= s);
}

/// The number of shutdown signals that the workers with the given traces
/// have taken between them.
pub open spec fn shutdowns_taken<J>(traces: Seq<Seq<WorkerMessage<J>>>) -> nat
    decreases traces.len(),
{
    if traces.len() == 0 {
        0
    } else {
        shutdowns_taken(traces.drop_last()) + shutdowns(traces.last())
    }
}

proof fn lemma_stopped_workers_took_one_each<J>(traces: Seq<Seq<WorkerMessage<J>>>)
    requires
        forall|i: int|
            0 <= i < traces.len() ==> worker_trace(#[trigger] traces[i]) && worker_stopped(traces[i]),
    ensures
        shutdowns_taken(traces) == traces.len(),
    decreases traces.len(),
{
    if traces.len() > 0 {
        let rest = traces.drop_last();
        assert forall|i: int| 0 <= i < rest.len() implies worker_trace(#[trigger] rest[i])
            && worker_stopped(rest[i]) by {
            assert(rest[i] == traces[i]);
        }
        lemma_stopped_workers_took_one_each(rest);
        lemma_one_shutdown_per_worker(traces.last());
    }
}

/// Teardown completes the work: where the pool sent one shutdown signal per
/// thread it started, the last message sent was such a signal, the workers
/// between them took the messages received, and every worker has left its
/// loop, then every worker took exactly one signal and every message sent
/// was received, each exactly once and in the order of sending.
pub proof fn lemma_teardown_runs_every_job<J>(
    q: &DispatchQueue<WorkerMessage<J>>,
    traces: Seq<Seq<WorkerMessage<J>>>,
)
    requires
        q.wf(),
        q.sent().len() > 0,
        q.sent().last() is Shutdown,
        shutdowns(q.sent()) == traces.len(),
        shutdowns(q.received()) == shutdowns_taken(traces),
        forall|i: int|
            0 <= i < traces.len() ==> worker_trace(#[trigger] traces[i]) && worker_stopped(traces[i]),
    ensures
        forall|i: int| 0 <= i < traces.len() ==> shutdowns(#[trigger] traces[i]) == 1,
        q.received() == q.sent(),
        q.pending().len() == 0,
{
    assert forall|i: int| 0 <= i < traces.len() implies shutdowns(#[trigger] traces[i]) == 1 by {
        lemma_one_shutdown_per_worker(traces[i]);
    }
    lemma_stopped_workers_took_one_each(traces);
    lemma_every_job_delivered(q);
}

} // verus!
