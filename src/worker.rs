use crate::queue::{after_recv, front, Job, QueueModel};
use crate::transcode::{
    classify, command_for, outcome_of, output_file_of, transcode_command, CommandModel,
    OutcomeModel, ProcessModel, ProcessResult, TranscodeCommand, TranscodeOutcome,
};
use vstd::prelude::*;

verus! {

/// What the worker learns from outside: a job taken off the queue, that the
/// queue is closed, or how the run it asked for ended.
pub enum WorkerEvent {
    Received(Job),
    QueueClosed,
    Finished(ProcessResult),
}

/// A worker event in the model.
pub enum EventModel {
    Received(Seq<char>),
    QueueClosed,
    Finished(ProcessModel),
}

impl View for WorkerEvent {
    type V = EventModel;

    open spec fn view(&self) -> EventModel {
        match self {
            WorkerEvent::Received(j) => EventModel::Received(j@),
            WorkerEvent::QueueClosed => EventModel::QueueClosed,
            WorkerEvent::Finished(p) => EventModel::Finished(p@),
        }
    }
}

/// What the worker asks to be done next.
pub enum WorkerAction {
    /// Run the transcoder as `cmd` says, wait for it, and report how it
    /// ended with `WorkerEvent::Finished`.
    Transcode(TranscodeCommand),
    /// Processing of `job` is over with `outcome`; take the next job.
    Report { job: Job, outcome: TranscodeOutcome },
    /// The queue is closed and empty: stop.
    Exit,
}

/// A worker action in the model.
pub enum ActionModel {
    Transcode(CommandModel),
    Report { job: Seq<char>, outcome: OutcomeModel },
    Exit,
}

impl View for WorkerAction {
    type V = ActionModel;

    open spec fn view(&self) -> ActionModel {
        match self {
            WorkerAction::Transcode(c) => ActionModel::Transcode(c@),
            WorkerAction::Report { job, outcome } => ActionModel::Report {
                job: job@,
                outcome: outcome@,
            },
            WorkerAction::Exit => ActionModel::Exit,
        }
    }
}

/// Where the worker stands, in the model.
pub enum PhaseModel {
    /// Waiting for a job.
    Idle,
    /// The run for `job`, which writes `output`, is in flight.
    Busy { job: Seq<char>, output: Seq<char> },
    /// The queue closed; nothing more is done.
    Stopped,
}

/// The worker in the model: the output directory, its phase, and the jobs it
/// has begun and finished processing, in order.
pub struct WorkerModel {
    pub output_dir: Seq<char>,
    pub phase: PhaseModel,
    pub started: Seq<Seq<char>>,
    pub finished: Seq<Seq<char>>,
}

impl WorkerModel {
    /// Every job begun is finished, but the one in flight.
    pub open spec fn wf(self) -> bool {
        match self.phase {
            PhaseModel::Busy { job, .. } => self.started == self.finished.push(job),
            _ => self.started == self.finished,
        }
    }

    /// Whether `e` can come next: a job or the queue's closing while idle,
    /// the end of the run while busy.
    pub open spec fn accepts(self, e: EventModel) -> bool {
        match self.phase {
            PhaseModel::Idle => !(e is Finished),
            PhaseModel::Busy { .. } => e is Finished,
            PhaseModel::Stopped => false,
        }
    }
}

/// The worker's next state and action on the event `e`.
pub open spec fn step(w: WorkerModel, e: EventModel) -> (WorkerModel, ActionModel) {
    match (w.phase, e) {
        (PhaseModel::Idle, EventModel::Received(j)) => match output_file_of(j, w.output_dir) {
            Some(o) => (
                WorkerModel {
                    phase: PhaseModel::Busy { job: j, output: o },
                    started: w.started.push(j),
                    ..w
                },
                ActionModel::Transcode(command_for(j, o)),
            ),
            None => (
                WorkerModel {
                    started: w.started.push(j),
                    finished: w.finished.push(j),
                    ..w
                },
                ActionModel::Report { job: j, outcome: OutcomeModel::NoFileName },
            ),
        },
        (PhaseModel::Idle, EventModel::QueueClosed) => (
            WorkerModel { phase: PhaseModel::Stopped, ..w },
            ActionModel::Exit,
        ),
        (PhaseModel::Busy { job, output }, EventModel::Finished(p)) => (
            WorkerModel { phase: PhaseModel::Idle, finished: w.finished.push(job), ..w },
            ActionModel::Report { job, outcome: outcome_of(output, p) },
        ),
        _ => (w, ActionModel::Exit),
    }
}

enum Phase {
    Idle,
    Busy { job: Job, output: String },
    Stopped,
}

/// The single consumer of the job queue. It processes one job at a time:
/// at most one run of the transcoder is in flight.
pub struct Worker {
    output_dir: String,
    phase: Phase,
    started: Ghost<Seq<Seq<char>>>,
    finished: Ghost<Seq<Seq<char>>>,
}

impl View for Worker {
    type V = WorkerModel;

    closed spec fn view(&self) -> WorkerModel {
        WorkerModel {
            output_dir: self.output_dir@,
            phase: match self.phase {
                Phase::Idle => PhaseModel::Idle,
                Phase::Busy { job, output } => PhaseModel::Busy { job: job@, output: output@ },
                Phase::Stopped => PhaseModel::Stopped,
            },
            started: self.started@,
            finished: self.finished@,
        }
    }
}

impl Worker {
    #[verifier::type_invariant]
    spec fn inv(&self) -> bool {
        self@.wf()
    }

    /// An idle worker that writes under `output_dir` and has processed nothing.
    pub fn new(output_dir: String) -> (w: Worker)
        ensures
            w@.output_dir == output_dir@,
            w@.phase is Idle,
            w@.started.len() == 0,
            w@.finished.len() == 0,
    {
        Worker {
            output_dir,
            phase: Phase::Idle,
            started: Ghost(Seq::empty()),
            finished: Ghost(Seq::empty()),
        }
    }

    /// Whether `e` can come next.
    pub fn accepts(&self, e: &WorkerEvent) -> (r: bool)
        ensures
            r == self@.accepts(e@),
    {
        match (&self.phase, e) {
            (Phase::Idle, WorkerEvent::Finished(_)) => false,
            (Phase::Idle, _) => true,
            (Phase::Busy { .. }, WorkerEvent::Finished(_)) => true,
            _ => false,
        }
    }

    /// Whether the worker has stopped.
    pub fn is_stopped(&self) -> (r: bool)
        ensures
            r == (self@.phase is Stopped),
    {
        match self.phase {
            Phase::Stopped => true,
            _ => false,
        }
    }
}

/// One turn of the consumer loop: takes the event that ended the last wait
/// and says what to do next. A job becomes one run of the transcoder, or a
/// failure where its path names no file; the end of a run becomes a report
/// of its outcome; a closed queue stops the worker.
pub fn consumer_thread(worker: &mut Worker, event: WorkerEvent) -> (action: WorkerAction)
    requires
        old(worker)@.accepts(event@),
    ensures
        (final(worker)@, action@) == step(old(worker)@, event@),
{
    proof {
        use_type_invariant(&*worker);
    }
    let mut current = Worker::new(String::new());
    std::mem::swap(&mut current, worker);
    let Worker { output_dir, phase, started, finished } = current;
    let (next, action) = match (phase, event) {
        (Phase::Idle, WorkerEvent::Received(job)) => {
            let started = Ghost(started@.push(job@));
            match transcode_command(job.source_path.as_str(), output_dir.as_str()) {
                Some(command) => {
                    let phase = Phase::Busy { job, output: command.output.clone() };
                    (Worker { output_dir, phase, started, finished }, WorkerAction::Transcode(command))
                },
                None => {
                    let finished = Ghost(finished@.push(job@));
                    let action = WorkerAction::Report { job, outcome: TranscodeOutcome::NoFileName };
                    (Worker { output_dir, phase: Phase::Idle, started, finished }, action)
                },
            }
        },
        (Phase::Busy { job, output }, WorkerEvent::Finished(result)) => {
            let finished = Ghost(finished@.push(job@));
            let outcome = classify(&output, result);
            let action = WorkerAction::Report { job, outcome };
            (Worker { output_dir, phase: Phase::Idle, started, finished }, action)
        },
        (_, _) => (Worker { output_dir, phase: Phase::Stopped, started, finished }, WorkerAction::Exit),
    };
    *worker = next;
    action
}

/// The worker after one job `j`: it takes the job and, where that starts a
/// run, learns that the run ended as `p`.
pub open spec fn run_job(w: WorkerModel, j: Seq<char>, p: ProcessModel) -> WorkerModel {
    let w1 = step(w, EventModel::Received(j)).0;
    if w1.phase is Busy {
        step(w1, EventModel::Finished(p)).0
    } else {
        w1
    }
}

/// The worker after the jobs `js`, one after the other, the run of the
/// `i`-th ending as `ps[i]`.
pub open spec fn run_jobs(w: WorkerModel, js: Seq<Seq<char>>, ps: Seq<ProcessModel>) -> WorkerModel
    decreases js.len(),
{
    if js.len() == 0 || ps.len() == 0 {
        w
    } else {
        run_jobs(run_job(w, js[0], ps[0]), js.drop_first(), ps.drop_first())
    }
}

/// Runs never overlap: a run starts only from an idle worker, and a worker
/// with a run in flight takes nothing but that run's end, after which it is
/// idle. At most one job is ever begun and not finished.
pub proof fn lemma_one_run_at_a_time(w: WorkerModel, e: EventModel)
    requires
        w.wf(),
        w.accepts(e),
    ensures
        step(w, e).1 is Transcode ==> w.phase is Idle && step(w, e).0.phase is Busy,
        w.phase is Busy ==> e is Finished && !(step(w, e).1 is Transcode) && step(
            w,
            e,
        ).0.phase is Idle,
        step(w, e).0.wf(),
        step(w, e).0.started.len() <= step(w, e).0.finished.len() + 1,
{
}

/// A failed run does not stop the worker: the failure is reported, the
/// worker is idle again and takes the next job `next`; where `next` names a
/// file, the transcoder is run for it, and a successful exit of that run is
/// reported as a success with its output file.
pub proof fn lemma_failure_does_not_block(
    w: WorkerModel,
    p: ProcessModel,
    next: Seq<char>,
    stderr: Seq<char>,
)
    requires
        w.wf(),
        w.phase is Busy,
        !(p matches ProcessModel::Exited { success, .. } && success),
    ensures
        step(w, EventModel::Finished(p)).1 matches ActionModel::Report { outcome, .. } && !(
        outcome is Success),
        step(w, EventModel::Finished(p)).0.phase is Idle,
        step(w, EventModel::Finished(p)).0.accepts(EventModel::Received(next)),
        output_file_of(next, w.output_dir) matches Some(o) ==> {
            let w1 = step(w, EventModel::Finished(p)).0;
            let w2 = step(w1, EventModel::Received(next)).0;
            &&& step(w1, EventModel::Received(next)).1 == ActionModel::Transcode(
                command_for(next, o),
            )
            &&& step(w2, EventModel::Finished(ProcessModel::Exited { success: true, stderr })).1
                == ActionModel::Report {
                job: next,
                outcome: OutcomeModel::Success { output_path: o },
            }
        },
{
}

/// Jobs handed to an idle worker one after another are each begun exactly
/// once and finished exactly once, in the order they came, whatever the
/// outcomes of their runs; the worker is idle afterwards.
pub proof fn lemma_jobs_in_order_once(w: WorkerModel, js: Seq<Seq<char>>, ps: Seq<ProcessModel>)
    requires
        w.wf(),
        w.phase is Idle,
        ps.len() == js.len(),
    ensures
        run_jobs(w, js, ps).started == w.started + js,
        run_jobs(w, js, ps).finished == w.finished + js,
        run_jobs(w, js, ps).phase is Idle,
        run_jobs(w, js, ps).output_dir == w.output_dir,
    decreases js.len(),
{
    if js.len() == 0 {
        assert(w.started + js =~= w.started);
        assert(w.finished + js =~= w.finished);
    } else {
        let w1 = run_job(w, js[0], ps[0]);
        assert(w1.started == w.started.push(js[0]));
        assert(w1.finished == w.finished.push(js[0]));
        lemma_jobs_in_order_once(w1, js.drop_first(), ps.drop_first());
        assert(w.started.push(js[0]) + js.drop_first() =~= w.started + js);
        assert(w.finished.push(js[0]) + js.drop_first() =~= w.finished + js);
    }
}

/// The worker and the queue after the worker took `n` jobs from `q`, one
/// after another, the run of the `i`-th ending as `ps[i]`.
pub open spec fn drain(w: WorkerModel, q: QueueModel, n: nat, ps: Seq<ProcessModel>) -> (
    WorkerModel,
    QueueModel,
)
    decreases n,
{
    if n == 0 {
        (w, q)
    } else {
        let (w1, q1) = drain(w, q, (n - 1) as nat, ps);
        match front(q1) {
            Some(j) => (run_job(w1, j, ps[n - 1]), after_recv(q1)),
            None => (w1, q1),
        }
    }
}

/// A worker that takes the queue's jobs one after another has, after `k` of
/// them, begun and finished exactly the first `k` jobs that were pending,
/// in queue order, and the rest are still pending: what has begun is at
/// every point a prefix of what was sent, and each job is processed once.
pub proof fn lemma_drain_in_order_once(
    w: WorkerModel,
    q: QueueModel,
    ps: Seq<ProcessModel>,
    k: nat,
)
    requires
        w.wf(),
        w.phase is Idle,
        k <= q.pending.len(),
    ensures
        drain(w, q, k, ps).0.started == w.started + q.pending.take(k as int),
        drain(w, q, k, ps).0.finished == w.finished + q.pending.take(k as int),
        drain(w, q, k, ps).0.phase is Idle,
        drain(w, q, k, ps).0.output_dir == w.output_dir,
        drain(w, q, k, ps).1 == (QueueModel { pending: q.pending.skip(k as int), ..q }),
    decreases k,
{
    if k == 0 {
        assert(w.started + q.pending.take(0) =~= w.started);
        assert(w.finished + q.pending.take(0) =~= w.finished);
        assert(q.pending.skip(0) =~= q.pending);
    } else {
        lemma_drain_in_order_once(w, q, ps, (k - 1) as nat);
        let (w1, q1) = drain(w, q, (k - 1) as nat, ps);
        assert(q1.pending[0] == q.pending[k - 1]);
        assert(front(q1) == Some(q.pending[k - 1]));
        let j = q.pending[k - 1];
        assert(run_job(w1, j, ps[k - 1]).started == w1.started.push(j));
        assert(run_job(w1, j, ps[k - 1]).finished == w1.finished.push(j));
        assert((w.started + q.pending.take(k - 1)).push(j) =~= w.started + q.pending.take(
            k as int,
        ));
        assert((w.finished + q.pending.take(k - 1)).push(j) =~= w.finished + q.pending.take(
            k as int,
        ));
        assert(q.pending.skip(k - 1).drop_first() =~= q.pending.skip(k as int));
    }
}

} // verus!
