use std::collections::VecDeque;
use vstd::prelude::*;

verus! {

/// The queue between the pool and its workers: messages leave in the order
/// in which they were sent, each one once.
///
/// Besides the pending messages, the queue keeps as ghost state the log of
/// every message ever sent and of every message ever received.
pub struct DispatchQueue<T> {
    pending: VecDeque<T>,
    sent: Ghost<Seq<T>>,
    received: Ghost<Seq<T>>,
}

impl<T> DispatchQueue<T> {
    /// The messages waiting to be received, oldest first.
    pub closed spec fn pending(&self) -> Seq<T> {
        self.pending@
    }

    /// Every message sent so far, in the order of sending.
    pub closed spec fn sent(&self) -> Seq<T> {
        self.sent@
    }

    /// Every message received so far, in the order of receipt.
    pub closed spec fn received(&self) -> Seq<T> {
        self.received@
    }

    /// The pending messages are those sent and not yet received, and what was
    /// received is what was sent first.
    pub closed spec fn wf(&self) -> bool {
        &&& self.received@.len() <= self.sent@.len()
        &&& self.received@ == self.sent@.take(self.received@.len() as int)
        &&& self.pending@ == self.sent@.skip(self.received@.len() as int)
    }

    /// An empty queue, on which nothing has been sent.
    pub fn new() -> (r: Self)
        ensures
            r.wf(),
            r.pending() == Seq::<T>::empty(),
            r.sent() == Seq::<T>::empty(),
            r.received() == Seq::<T>::empty(),
    {
        let r = DispatchQueue { pending: VecDeque::new(), sent: Ghost(Seq::empty()), received: Ghost(Seq::empty()) };
        proof {
            assert(r.sent@.take(0) =~= Seq::<T>::empty());
            assert(r.sent@.skip(0) =~= Seq::<T>::empty());
        }
        r
    }

    /// The number of messages waiting.
    pub fn len(&self) -> (r: usize)
        ensures
            r == self.pending().len(),
    {
        self.pending.len()
    }

    /// Whether no message is waiting.
    pub fn is_empty(&self) -> (r: bool)
        ensures
            r == (self.pending().len() == 0),
    {
        self.pending.len() == 0
    }

    /// Puts `message` at the back of the queue.
    pub fn send(&mut self, message: T)
        requires
            old(self).wf(),
        ensures
            final(self).wf(),
            final(self).pending() == old(self).pending().push(message),
            final(self).sent() == old(self).sent().push(message),
            final(self).received() == old(self).received(),
    {
        let ghost old_sent = self.sent@;
        let ghost n = self.received@.len() as int;
        self.sent = Ghost(self.sent@.push(message));
        self.pending.push_back(message);
        proof {
            assert(self.sent@.take(n) =~= old_sent.take(n));
            assert(self.pending@ =~= self.sent@.skip(n));
        }
    }

    /// Takes the oldest waiting message, or `None` where no message waits.
    pub fn receive(&mut self) -> (r: Option<T>)
        requires
            old(self).wf(),
        ensures
            final(self).wf(),
            final(self).sent() == old(self).sent(),
            old(self).pending().len() == 0 ==> {
                &&& r is None
                &&& final(self).pending() == old(self).pending()
                &&& final(self).received() == old(self).received()
            },
            old(self).pending().len() > 0 ==> {
                &&& r == Some(old(self).pending()[0])
                &&& final(self).pending() == old(self).pending().drop_first()
                &&& final(self).received() == old(self).received().push(old(self).pending()[0])
            },
    {
        let r = self.pending.pop_front();
        match r {
            Some(m) => {
                let ghost n = self.received@.len() as int;
                proof {
                    assert(self.sent@[n] == m);
                }
                self.received = Ghost(self.received@.push(m));
                proof {
                    assert(self.received@ =~= self.sent@.take(n + 1));
                    assert(self.pending@ =~= self.sent@.skip(n + 1));
                }
                Some(m)
            },
            None => {
                proof {
                    assert(self.sent@.skip(self.received@.len() as int).len() == 0);
                }
                None
            },
        }
    }
}

/// Messages are received in the order in which they were sent: what has been
/// received is always the oldest part of what was sent, each message at the
/// position it was sent at, so none is received twice or out of turn.
pub proof fn lemma_receive_order<T>(q: &DispatchQueue<T>)
    requires
        q.wf(),
    ensures
        q.received().len() <= q.sent().len(),
        forall|i: int| 0 <= i < q.received().len() ==> #[trigger] q.received()[i] == q.sent()[i],
        q.received() + q.pending() == q.sent(),
{
    assert(q.sent@.take(q.received@.len() as int) + q.sent@.skip(q.received@.len() as int) =~= q.sent@);
}

} // verus!
