use crate::queue::{EnqueueError, Job, JobQueue, QueueModel};
use crate::transcode::views;
use vstd::prelude::*;

verus! {

/// The kind of a filesystem change notification.
#[derive(Clone, Copy, Debug, PartialEq, Eq, Structural)]
pub enum EventKind {
    /// A change whose kind the platform did not say.
    Any,
    /// A file was read or opened.
    Access,
    /// A file or directory was created.
    Create,
    /// Contents, metadata or a name changed.
    Modify,
    /// A file or directory was removed.
    Remove,
    /// Some other change.
    Other,
}

/// One filesystem change notification: its kind and the paths it concerns.
pub struct FsEvent {
    pub kind: EventKind,
    pub paths: Vec<String>,
}

/// Whether one path of an event was accepted by the queue.
pub struct EnqueueReport {
    pub path: String,
    pub accepted: bool,
}

/// The jobs that an event of kind `kind` on `paths` asks for: one per path
/// of a creation, none for any other kind.
pub open spec fn jobs_for(kind: EventKind, paths: Seq<Seq<char>>) -> Seq<Seq<char>> {
    if kind == EventKind::Create {
        paths
    } else {
        Seq::empty()
    }
}

/// The queue after an event of kind `kind` on `paths` was handled: the
/// event's jobs appended at the back, unless the queue is closed.
pub open spec fn after_event(q: QueueModel, kind: EventKind, paths: Seq<Seq<char>>) -> QueueModel {
    if q.closed {
        q
    } else {
        QueueModel { pending: q.pending + jobs_for(kind, paths), ..q }
    }
}

/// The queue after the events `evs` (each a kind and its paths) were
/// handled one at a time, in that order.
pub open spec fn after_events(q: QueueModel, evs: Seq<(EventKind, Seq<Seq<char>>)>) -> QueueModel
    decreases evs.len(),
{
    if evs.len() == 0 {
        q
    } else {
        after_event(after_events(q, evs.drop_last()), evs.last().0, evs.last().1)
    }
}

/// The jobs that the events `evs` ask for, in order.
pub open spec fn all_jobs(evs: Seq<(EventKind, Seq<Seq<char>>)>) -> Seq<Seq<char>>
    decreases evs.len(),
{
    if evs.len() == 0 {
        Seq::empty()
    } else {
        all_jobs(evs.drop_last()) + jobs_for(evs.last().0, evs.last().1)
    }
}

/// Events handled one at a time on an open queue, whichever producers they
/// came from and in whatever order their calls were made, leave behind the
/// jobs that were pending followed by one job for each path of each creation
/// event, in the order of the calls: no job is lost, none is doubled, and no
/// other kind of event adds one.
pub proof fn lemma_events_lose_nothing(q: QueueModel, evs: Seq<(EventKind, Seq<Seq<char>>)>)
    requires
        !q.closed,
    ensures
        after_events(q, evs) == (QueueModel { pending: q.pending + all_jobs(evs), ..q }),
    decreases evs.len(),
{
    if evs.len() == 0 {
        assert(q.pending + all_jobs(evs) =~= q.pending);
    } else {
        lemma_events_lose_nothing(q, evs.drop_last());
        let last = jobs_for(evs.last().0, evs.last().1);
        assert(q.pending + all_jobs(evs.drop_last()) + last =~= q.pending + all_jobs(evs));
    }
}

/// Sends one job for each path of a creation event to `queue`, in the
/// order of the paths, and reports for each whether it was accepted.
/// Other kinds of event send nothing.
pub fn handle_event(event: &FsEvent, queue: &mut JobQueue) -> (r: Vec<EnqueueReport>)
    ensures
        final(queue)@ == after_event(old(queue)@, event.kind, views(event.paths@)),
        r@.len() == jobs_for(event.kind, views(event.paths@)).len(),
        forall|i: int|
            0 <= i < r@.len() ==> (#[trigger] r@[i]).path@ == event.paths@[i]@ && r@[i].accepted
                == !old(queue)@.closed,
{
    let mut reports: Vec<EnqueueReport> = Vec::new();
    if event.kind != EventKind::Create {
        assert(jobs_for(event.kind, views(event.paths@)) =~= Seq::<Seq<char>>::empty());
        assert(queue@.pending + Seq::<Seq<char>>::empty() =~= queue@.pending);
        return reports;
    }
    let ghost start: QueueModel = queue@;
    let ghost all = views(event.paths@);
    assert(start.pending + all.take(0) =~= start.pending);
    let n = event.paths.len();
    let mut i: usize = 0;
    while i < n
        invariant
            n == event.paths@.len(),
            event.kind == EventKind::Create,
            all == views(event.paths@),
            i <= n,
            queue@.closed == start.closed,
            queue@.pending == if start.closed {
                start.pending
            } else {
                start.pending + all.take(i as int)
            },
            reports@.len() == i,
            forall|k: int|
                0 <= k < i ==> (#[trigger] reports@[k]).path@ == event.paths@[k]@
                    && reports@[k].accepted == !start.closed,
        decreases n - i,
    {
        let path = event.paths[i].clone();
        let sent = queue.send(Job::new(path.clone()));
        let accepted = match sent {
            Ok(()) => true,
            Err(EnqueueError { .. }) => false,
        };
        reports.push(EnqueueReport { path, accepted });
        assert(start.pending + all.take(i + 1) =~= (start.pending + all.take(i as int)).push(
            all[i as int],
        ));
        i = i + 1;
    }
    assert(all.take(n as int) =~= all);
    reports
}

} // verus!
