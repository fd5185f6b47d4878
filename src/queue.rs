use std::collections::VecDeque;
use vstd::prelude::*;

verus! {

/// A pending unit of work: a path on which a creation was observed.
pub struct Job {
    pub source_path: String,
}

impl View for Job {
    type V = Seq<char>;

    open spec fn view(&self) -> Seq<char> {
        self.source_path@
    }
}

impl Job {
    pub fn new(source_path: String) -> (j: Job)
        ensures
            j@ == source_path@,
    {
        Job { source_path }
    }
}

/// The queue in the model: the pending jobs' paths, front first, and
/// whether the queue was closed.
pub struct QueueModel {
    pub pending: Seq<Seq<char>>,
    pub closed: bool,
}

/// A sent job was refused because the queue is closed; the job comes back.
pub struct EnqueueError {
    pub job: Job,
}

/// What a receive found.
pub enum Received {
    /// The job at the front, now taken off the queue.
    Job(Job),
    /// Nothing is pending; more may come.
    Empty,
    /// Nothing is pending and nothing more will come.
    Closed,
}

/// The queue after `j` was sent to it: appended at the back, unless the
/// queue is closed.
pub open spec fn after_send(q: QueueModel, j: Seq<char>) -> QueueModel {
    if q.closed {
        q
    } else {
        QueueModel { pending: q.pending.push(j), ..q }
    }
}

/// The queue after each of `js` was sent to it, in order.
pub open spec fn after_send_all(q: QueueModel, js: Seq<Seq<char>>) -> QueueModel
    decreases js.len(),
{
    if js.len() == 0 {
        q
    } else {
        after_send(after_send_all(q, js.drop_last()), js.last())
    }
}

/// The job that a receive on `q` hands out, if any.
pub open spec fn front(q: QueueModel) -> Option<Seq<char>> {
    if q.pending.len() > 0 {
        Some(q.pending[0])
    } else {
        None
    }
}

/// The queue after one receive.
pub open spec fn after_recv(q: QueueModel) -> QueueModel {
    if q.pending.len() > 0 {
        QueueModel { pending: q.pending.drop_first(), ..q }
    } else {
        q
    }
}

/// The queue after `n` receives.
pub open spec fn after_recv_n(q: QueueModel, n: nat) -> QueueModel
    decreases n,
{
    if n == 0 {
        q
    } else {
        after_recv(after_recv_n(q, (n - 1) as nat))
    }
}

/// An unbounded first-in first-out queue of jobs. Sending never waits;
/// once closed, it refuses new jobs and still hands out those pending.
pub struct JobQueue {
    items: VecDeque<Job>,
    closed: bool,
}

impl View for JobQueue {
    type V = QueueModel;

    closed spec fn view(&self) -> QueueModel {
        QueueModel { pending: self.items@.map_values(|j: Job| j@), closed: self.closed }
    }
}

impl JobQueue {
    /// An open queue with nothing pending.
    pub fn new() -> (q: JobQueue)
        ensures
            q@.pending.len() == 0,
            !q@.closed,
    {
        let q = JobQueue { items: VecDeque::new(), closed: false };
        assert(q@.pending =~= Seq::<Seq<char>>::empty());
        q
    }

    /// The number of pending jobs.
    pub fn len(&self) -> (n: usize)
        ensures
            n == self@.pending.len(),
    {
        self.items.len()
    }

    /// Whether the queue was closed.
    pub fn is_closed(&self) -> (r: bool)
        ensures
            r == self@.closed,
    {
        self.closed
    }

    /// Closes the queue: later sends are refused; pending jobs stay.
    pub fn close(&mut self)
        ensures
            final(self)@ == (QueueModel { closed: true, ..old(self)@ }),
    {
        self.closed = true;
        assert(final(self)@.pending =~= old(self)@.pending);
    }

    /// Appends `job` at the back, or hands it back in the error where the
    /// queue is closed.
    pub fn send(&mut self, job: Job) -> (r: Result<(), EnqueueError>)
        ensures
            final(self)@ == after_send(old(self)@, job@),
            r is Ok <==> !old(self)@.closed,
            r matches Err(e) ==> e.job@ == job@,
    {
        if self.closed {
            Err(EnqueueError { job })
        } else {
            let ghost j = job@;
            self.items.push_back(job);
            assert(final(self)@.pending =~= old(self)@.pending.push(j));
            Ok(())
        }
    }

    /// Takes the job at the front, if any; says whether more can come
    /// where none is pending.
    pub fn recv(&mut self) -> (r: Received)
        ensures
            final(self)@ == after_recv(old(self)@),
            match r {
                Received::Job(j) => front(old(self)@) == Some(j@),
                Received::Empty => front(old(self)@) is None && !old(self)@.closed,
                Received::Closed => front(old(self)@) is None && old(self)@.closed,
            },
    {
        match self.items.pop_front() {
            Some(j) => {
                assert(final(self)@.pending =~= old(self)@.pending.drop_first());
                Received::Job(j)
            },
            None => if self.closed {
                Received::Closed
            } else {
                Received::Empty
            },
        }
    }
}

proof fn lemma_send_all_open(q: QueueModel, js: Seq<Seq<char>>)
    requires
        !q.closed,
    ensures
        after_send_all(q, js) == (QueueModel { pending: q.pending + js, ..q }),
    decreases js.len(),
{
    if js.len() == 0 {
        assert(q.pending + js =~= q.pending);
    } else {
        lemma_send_all_open(q, js.drop_last());
        assert(q.pending + js.drop_last() + seq![js.last()] =~= q.pending + js);
        assert((q.pending + js.drop_last()).push(js.last()) =~= q.pending + js);
    }
}

proof fn lemma_recv_n(q: QueueModel, n: nat)
    requires
        n <= q.pending.len(),
    ensures
        after_recv_n(q, n) == (QueueModel { pending: q.pending.skip(n as int), ..q }),
    decreases n,
{
    if n == 0 {
        assert(q.pending.skip(0) =~= q.pending);
    } else {
        lemma_recv_n(q, (n - 1) as nat);
        assert(q.pending.skip(n - 1).drop_first() =~= q.pending.skip(n as int));
    }
}

/// Jobs sent to an open queue are handed out in the order they were sent,
/// each exactly once, after the jobs that were already pending: the
/// `i`-th receive after those hands out `js[i]`, and once all of them
/// were received nothing is left.
pub proof fn lemma_delivered_in_order_once(q: QueueModel, js: Seq<Seq<char>>)
    requires
        !q.closed,
    ensures
        forall|i: int|
            0 <= i < js.len() ==> #[trigger] front(
                after_recv_n(after_send_all(q, js), (q.pending.len() + i) as nat),
            ) == Some(js[i]),
        after_recv_n(after_send_all(q, js), (q.pending.len() + js.len()) as nat).pending.len()
            == 0,
{
    lemma_send_all_open(q, js);
    let all = q.pending + js;
    assert forall|i: int| 0 <= i < js.len() implies #[trigger] front(
        after_recv_n(after_send_all(q, js), (q.pending.len() + i) as nat),
    ) == Some(js[i]) by {
        lemma_recv_n(after_send_all(q, js), (q.pending.len() + i) as nat);
        assert(all.skip(q.pending.len() + i)[0] == all[q.pending.len() + i]);
    }
    lemma_recv_n(after_send_all(q, js), (q.pending.len() + js.len()) as nat);
}

/// Two jobs sent one after the other to an open, empty queue are received
/// in that order.
pub proof fn lemma_fifo(q: QueueModel, a: Seq<char>, b: Seq<char>)
    requires
        !q.closed,
        q.pending.len() == 0,
    ensures
        front(after_send(after_send(q, a), b)) == Some(a),
        front(after_recv(after_send(after_send(q, a), b))) == Some(b),
{
    assert(after_send(after_send(q, a), b).pending =~= seq![a, b]);
    assert(after_recv(after_send(after_send(q, a), b)).pending =~= seq![b]);
}

} // verus!
