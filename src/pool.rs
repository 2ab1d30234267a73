use crate::queue::DispatchQueue;
use crate::worker::WorkerMessage;
use vstd::prelude::*;

verus! {

/// A worker of the pool: its id and the handle of the thread that runs it.
///
/// Ids are positions: the worker at index `i` of the pool has id `i + 1`, so
/// an id is reused when the pool shrinks and grows again.
pub struct Worker<H> {
    pub id: usize,
    pub thread: H,
}

/// Why a pool could not be built.
#[derive(PartialEq, Eq, Structural, Debug, Clone, Copy)]
pub enum PoolError {
    /// A pool needs at least one worker.
    ZeroThreads,
}

/// `n` shutdown signals.
pub open spec fn shutdown_signals<J>(n: nat) -> Seq<WorkerMessage<J>> {
    Seq::new(n, |i: int| WorkerMessage::Shutdown)
}

/// The workers of a pool and the threads that it has retired.
///
/// `H` is the handle of a running thread; the caller starts threads and joins
/// them, the pool decides which ids to start, which workers to retire, and
/// how many shutdown signals to send.
pub struct ThreadPool<H> {
    workers: Vec<Worker<H>>,
    retired: Vec<H>,
    spawned: Ghost<nat>,
    released: Ghost<nat>,
}

impl<H> ThreadPool<H> {
    /// The tracked workers, in the order in which they were added.
    pub closed spec fn workers(&self) -> Seq<Worker<H>> {
        self.workers@
    }

    /// Threads taken out of the pool on a shrink, already sent a shutdown
    /// signal and not yet handed back to be joined.
    pub closed spec fn retired(&self) -> Seq<H> {
        self.retired@
    }

    /// How many threads the pool has had started.
    pub closed spec fn spawned(&self) -> nat {
        self.spawned@
    }

    /// How many thread handles the pool has handed back to be joined.
    pub closed spec fn released(&self) -> nat {
        self.released@
    }

    /// How many shutdown signals the pool has sent: one for each retired
    /// thread and one for each thread it handed back.
    pub open spec fn signalled(&self) -> nat {
        (self.retired().len() + self.released()) as nat
    }

    /// Ids are positions, and every thread started is tracked, retired or
    /// handed back.
    pub open spec fn wf(&self) -> bool {
        &&& forall|i: int| 0 <= i < self.workers().len() ==> #[trigger] self.workers()[i].id == i + 1
        &&& self.spawned() == self.workers().len() + self.retired().len() + self.released()
    }

    /// Adds workers until there are `new_count`, each with the next id.
    fn grow<F: Fn(usize) -> H>(&mut self, new_count: usize, spawn: F)
        requires
            old(self).wf(),
            old(self).workers().len() <= new_count,
            forall|id: usize|
                old(self).workers().len() < id <= new_count ==> #[trigger] spawn.requires((id,)),
        ensures
            final(self).wf(),
            final(self).workers().len() == new_count,
            final(self).workers().take(old(self).workers().len() as int) == old(self).workers(),
            forall|i: int|
                old(self).workers().len() <= i < new_count ==> spawn.ensures(
                    ((i + 1) as usize,),
                    #[trigger] final(self).workers()[i].thread,
                ),
            final(self).retired() == old(self).retired(),
            final(self).released() == old(self).released(),
            final(self).spawned() == old(self).spawned() + new_count - old(self).workers().len(),
    {
        let ghost start = self.workers@;
        let current = self.workers.len();
        let mut i: usize = current;
        while i < new_count
            invariant
                current == start.len(),
                current <= i <= new_count,
                self.workers@.len() == i,
                self.workers@.take(current as int) == start,
                forall|k: int| 0 <= k < i ==> #[trigger] self.workers@[k].id == k + 1,
                forall|k: int|
                    current <= k < i ==> spawn.ensures(((k + 1) as usize,), #[trigger] self.workers@[k].thread),
                forall|id: usize| current < id <= new_count ==> #[trigger] spawn.requires((id,)),
                self.retired@ == old(self).retired@,
                self.released@ == old(self).released@,
                self.spawned@ == old(self).spawned@ + i - current,
                old(self).spawned@ == current + old(self).retired@.len() + old(self).released@,
            decreases new_count - i,
        {
            let id = i + 1;
            let thread = spawn(id);
            let ghost before = self.workers@;
            self.workers.push(Worker { id, thread });
            self.spawned = Ghost(self.spawned@ + 1);
            proof {
                assert(self.workers@.take(current as int) =~= before.take(current as int));
            }
            i = id;
        }
    }

    /// A pool of `thread_count` workers with ids `1` to `thread_count`, each
    /// on the thread that `spawn` started for its id; zero workers is refused.
    pub fn new<F: Fn(usize) -> H>(thread_count: usize, spawn: F) -> (r: Result<Self, PoolError>)
        requires
            forall|id: usize| 1 <= id <= thread_count ==> #[trigger] spawn.requires((id,)),
        ensures
            r is Err <==> thread_count == 0,
            r is Err ==> r == Err::<Self, PoolError>(PoolError::ZeroThreads),
            r matches Ok(p) ==> {
                &&& p.wf()
                &&& p.workers().len() == thread_count
                &&& forall|i: int|
                    0 <= i < thread_count ==> spawn.ensures(((i + 1) as usize,), #[trigger] p.workers()[i].thread)
                &&& p.retired().len() == 0
                &&& p.spawned() == thread_count
                &&& p.released() == 0
            },
    {
        if thread_count == 0 {
            return Err(PoolError::ZeroThreads);
        }
        let mut pool = ThreadPool {
            workers: Vec::with_capacity(thread_count),
            retired: Vec::new(),
            spawned: Ghost(0),
            released: Ghost(0),
        };
        pool.grow(thread_count, spawn);
        Ok(pool)
    }

    /// The number of tracked workers.
    pub fn thread_count(&self) -> (r: usize)
        ensures
            r == self.workers().len(),
    {
        self.workers.len()
    }

    /// The ids of the tracked workers, in order.
    pub fn worker_ids(&self) -> (r: Vec<usize>)
        ensures
            r@.len() == self.workers().len(),
            forall|i: int| 0 <= i < r@.len() ==> #[trigger] r@[i] == self.workers()[i].id,
    {
        let mut r: Vec<usize> = Vec::with_capacity(self.workers.len());
        let mut i: usize = 0;
        while i < self.workers.len()
            invariant
                i <= self.workers@.len(),
                r@.len() == i,
                forall|k: int| 0 <= k < i ==> #[trigger] r@[k] == self.workers@[k].id,
            decreases self.workers@.len() - i,
        {
            r.push(self.workers[i].id);
            i = i + 1;
        }
        r
    }

    /// Puts `job` on `queue` for some worker to run.
    pub fn execute<J>(&self, queue: &mut DispatchQueue<WorkerMessage<J>>, job: J)
        requires
            old(queue).wf(),
        ensures
            final(queue).wf(),
            final(queue).sent() == old(queue).sent().push(WorkerMessage::NewJob(job)),
            final(queue).pending() == old(queue).pending().push(WorkerMessage::NewJob(job)),
            final(queue).received() == old(queue).received(),
    {
        queue.send(WorkerMessage::NewJob(job));
    }

    /// Sends `n` shutdown signals on `queue`.
    fn signal<J>(queue: &mut DispatchQueue<WorkerMessage<J>>, n: usize)
        requires
            old(queue).wf(),
        ensures
            final(queue).wf(),
            final(queue).sent() == old(queue).sent() + shutdown_signals::<J>(n as nat),
            final(queue).pending() == old(queue).pending() + shutdown_signals::<J>(n as nat),
            final(queue).received() == old(queue).received(),
    {
        proof {
            assert(old(queue).sent() + shutdown_signals::<J>(0) =~= old(queue).sent());
            assert(old(queue).pending() + shutdown_signals::<J>(0) =~= old(queue).pending());
        }
        let mut k: usize = 0;
        while k < n
            invariant
                k <= n,
                queue.wf(),
                queue.sent() == old(queue).sent() + shutdown_signals::<J>(k as nat),
                queue.pending() == old(queue).pending() + shutdown_signals::<J>(k as nat),
                queue.received() == old(queue).received(),
            decreases n - k,
        {
            queue.send(WorkerMessage::Shutdown);
            proof {
                assert(old(queue).sent() + shutdown_signals::<J>((k + 1) as nat) =~= (old(queue).sent()
                    + shutdown_signals::<J>(k as nat)).push(WorkerMessage::Shutdown));
                assert(old(queue).pending() + shutdown_signals::<J>((k + 1) as nat) =~= (old(
                    queue,
                ).pending() + shutdown_signals::<J>(k as nat)).push(WorkerMessage::Shutdown));
            }
            k = k + 1;
        }
    }

    /// Takes the last `n` workers out of the pool, most recently added first,
    /// and moves their threads to the retired ones.
    fn retire_last(&mut self, n: usize)
        requires
            old(self).wf(),
            n <= old(self).workers().len(),
        ensures
            final(self).wf(),
            final(self).workers() == old(self).workers().take(old(self).workers().len() - n),
            final(self).retired().len() == old(self).retired().len() + n,
            final(self).retired().take(old(self).retired().len() as int) == old(self).retired(),
            forall|k: int|
                0 <= k < n ==> #[trigger] final(self).retired()[old(self).retired().len() + k]
                    == old(self).workers()[old(self).workers().len() - 1 - k].thread,
            final(self).spawned() == old(self).spawned(),
            final(self).released() == old(self).released(),
    {
        let ghost ws = self.workers@;
        let ghost rs = self.retired@;
        let mut k: usize = 0;
        while k < n
            invariant
                k <= n <= ws.len(),
                self.workers@ == ws.take(ws.len() - k),
                self.retired@.len() == rs.len() + k,
                self.retired@.take(rs.len() as int) == rs,
                forall|j: int| 0 <= j < k ==> #[trigger] self.retired@[rs.len() + j] == ws[ws.len() - 1 - j].thread,
                forall|i: int| 0 <= i < ws.len() ==> #[trigger] ws[i].id == i + 1,
                old(self).spawned@ == ws.len() + rs.len() + old(self).released@,
                self.spawned@ == old(self).spawned@,
                self.released@ == old(self).released@,
            decreases n - k,
        {
            let ghost before = self.retired@;
            let w = self.workers.pop().unwrap();
            self.retired.push(w.thread);
            proof {
                assert(self.workers@ =~= ws.take(ws.len() - (k + 1)));
                assert(self.retired@.take(rs.len() as int) =~= before.take(rs.len() as int));
            }
            k = k + 1;
        }
    }

    /// Grows or shrinks the pool to `new_thread_count` workers.
    ///
    /// Growing adds workers with the next ids, each on the thread that `spawn`
    /// started for its id. Shrinking takes out the most recently added
    /// workers, moves their threads to the retired ones and sends one shutdown
    /// signal on `queue` for each, so that as many threads leave their loop;
    /// the retired threads are handed back to be joined on teardown. At the
    /// current size nothing changes.
    pub fn set_thread_count<F: Fn(usize) -> H, J>(
        &mut self,
        new_thread_count: usize,
        queue: &mut DispatchQueue<WorkerMessage<J>>,
        spawn: F,
    )
        requires
            old(self).wf(),
            old(queue).wf(),
            forall|id: usize|
                old(self).workers().len() < id <= new_thread_count ==> #[trigger] spawn.requires((id,)),
        ensures
            final(self).wf(),
            final(queue).wf(),
            final(self).workers().len() == new_thread_count,
            final(self).released() == old(self).released(),
            final(queue).received() == old(queue).received(),
            new_thread_count >= old(self).workers().len() ==> {
                &&& final(self).workers().take(old(self).workers().len() as int) == old(self).workers()
                &&& forall|i: int|
                    old(self).workers().len() <= i < new_thread_count ==> spawn.ensures(
                        ((i + 1) as usize,),
                        #[trigger] final(self).workers()[i].thread,
                    )
                &&& final(self).retired() == old(self).retired()
                &&& final(self).spawned() == old(self).spawned() + new_thread_count - old(self).workers().len()
                &&& *final(queue) == *old(queue)
            },
            new_thread_count < old(self).workers().len() ==> {
                let n = old(self).workers().len() - new_thread_count;
                &&& final(self).workers() == old(self).workers().take(new_thread_count as int)
                &&& final(self).retired().len() == old(self).retired().len() + n
                &&& final(self).retired().take(old(self).retired().len() as int) == old(self).retired()
                &&& forall|k: int|
                    0 <= k < n ==> #[trigger] final(self).retired()[old(self).retired().len() + k]
                        == old(self).workers()[old(self).workers().len() - 1 - k].thread
                &&& final(self).spawned() == old(self).spawned()
                &&& final(queue).sent() == old(queue).sent() + shutdown_signals::<J>(n as nat)
                &&& final(queue).pending() == old(queue).pending() + shutdown_signals::<J>(n as nat)
            },
            new_thread_count == old(self).workers().len() ==> {
                &&& final(self).workers() == old(self).workers()
                &&& final(self).retired() == old(self).retired()
                &&& final(self).spawned() == old(self).spawned()
                &&& *final(queue) == *old(queue)
            },
    {
        let current = self.workers.len();
        if new_thread_count > current {
            self.grow(new_thread_count, spawn);
        } else if new_thread_count < current {
            let n = current - new_thread_count;
            self.retire_last(n);
            Self::signal(queue, n);
        }
        proof {
            if new_thread_count == current {
                assert(self.workers@.take(current as int) =~= self.workers@);
            }
        }
    }

    /// Tears the pool down: sends one shutdown signal on `queue` for each
    /// tracked worker, and hands back every thread to join, the tracked ones
    /// (most recently added first) and then the retired ones. Afterwards the
    /// pool holds nothing, and it has sent as many shutdown signals as it had
    /// threads started.
    pub fn teardown<J>(&mut self, queue: &mut DispatchQueue<WorkerMessage<J>>) -> (r: Vec<H>)
        requires
            old(self).wf(),
            old(queue).wf(),
        ensures
            final(self).wf(),
            final(queue).wf(),
            final(self).workers().len() == 0,
            final(self).retired().len() == 0,
            final(self).spawned() == old(self).spawned(),
            final(self).released() == old(self).released() + r@.len(),
            final(self).signalled() == final(self).spawned(),
            final(queue).sent() == old(queue).sent() + shutdown_signals::<J>(old(self).workers().len()),
            final(queue).pending() == old(queue).pending() + shutdown_signals::<J>(old(self).workers().len()),
            final(queue).received() == old(queue).received(),
            r@.len() == old(self).workers().len() + old(self).retired().len(),
            forall|i: int|
                0 <= i < old(self).workers().len() ==> #[trigger] r@[i] == old(self).workers()[old(
                    self,
                ).workers().len() - 1 - i].thread,
            forall|j: int|
                0 <= j < old(self).retired().len() ==> #[trigger] r@[old(self).workers().len() + j]
                    == old(self).retired()[j],
    {
        let ghost ws = self.workers@;
        let ghost rs = self.retired@;
        Self::signal(queue, self.workers.len());
        let mut r: Vec<H> = Vec::with_capacity(self.workers.len());
        while self.workers.len() > 0
            invariant
                self.workers@ == ws.take(ws.len() - r@.len()),
                r@.len() <= ws.len(),
                forall|i: int| 0 <= i < r@.len() ==> #[trigger] r@[i] == ws[ws.len() - 1 - i].thread,
                self.retired@ == rs,
                self.spawned@ == old(self).spawned@,
                self.released@ == old(self).released@,
                old(self).spawned@ == ws.len() + rs.len() + old(self).released@,
            decreases self.workers@.len(),
        {
            let w = self.workers.pop().unwrap();
            r.push(w.thread);
            proof {
                assert(self.workers@ =~= ws.take(ws.len() - r@.len()));
            }
        }
        r.append(&mut self.retired);
        self.released = Ghost(self.released@ + r@.len());
        r
    }
}

} // verus!
