use transcode_watch::{
    consumer_thread, handle_event, EventKind, FsEvent, Job, JobQueue, ProcessResult, Received,
    TranscodeOutcome, Worker, WorkerAction, WorkerEvent,
};

/// Drives the worker over everything pending in `q`, running each command
/// through `run`; returns the jobs in the order they were begun and their
/// outcomes in the order they were reported.
fn drain(
    w: &mut Worker,
    q: &mut JobQueue,
    mut run: impl FnMut(&[String]) -> ProcessResult,
) -> (Vec<String>, Vec<(String, TranscodeOutcome)>) {
    let mut begun = Vec::new();
    let mut reports = Vec::new();
    loop {
        let ev = match q.recv() {
            Received::Job(j) => {
                begun.push(j.source_path.clone());
                WorkerEvent::Received(j)
            }
            Received::Empty => return (begun, reports),
            Received::Closed => WorkerEvent::QueueClosed,
        };
        assert!(w.accepts(&ev));
        let mut action = consumer_thread(w, ev);
        loop {
            match action {
                WorkerAction::Transcode(cmd) => {
                    let res = run(&cmd.args);
                    let ev = WorkerEvent::Finished(res);
                    assert!(w.accepts(&ev));
                    action = consumer_thread(w, ev);
                }
                WorkerAction::Report { job, outcome } => {
                    reports.push((job.source_path, outcome));
                    break;
                }
                WorkerAction::Exit => return (begun, reports),
            }
        }
    }
}

#[test]
fn jobs_begin_in_arrival_order() {
    let mut q = JobQueue::new();
    q.send(Job::new("in/a.wav".to_string())).ok().unwrap();
    q.send(Job::new("in/b.wav".to_string())).ok().unwrap();
    let mut w = Worker::new("out".to_string());
    let mut seen = Vec::new();
    let (begun, _) = drain(&mut w, &mut q, |args| {
        seen.push(args[1].clone());
        ProcessResult::Exited { success: true, stderr: String::new() }
    });
    assert_eq!(begun, vec!["in/a.wav".to_string(), "in/b.wav".to_string()]);
    assert_eq!(seen, vec!["in/a.wav".to_string(), "in/b.wav".to_string()]);
}

#[test]
fn failure_does_not_stop_next_job() {
    let mut q = JobQueue::new();
    q.send(Job::new("in/missing.mp3".to_string())).ok().unwrap();
    q.send(Job::new("in/good.mp3".to_string())).ok().unwrap();
    let mut w = Worker::new("out".to_string());
    let (_, reports) = drain(&mut w, &mut q, |args| {
        if args[1] == "in/missing.mp3" {
            ProcessResult::Exited { success: false, stderr: "in/missing.mp3: No such file".to_string() }
        } else {
            ProcessResult::Exited { success: true, stderr: String::new() }
        }
    });
    assert_eq!(reports.len(), 2);
    assert_eq!(reports[0].0, "in/missing.mp3");
    assert!(matches!(&reports[0].1, TranscodeOutcome::Failed { stderr } if stderr.contains("No such file")));
    assert_eq!(reports[1].0, "in/good.mp3");
    assert!(matches!(&reports[1].1, TranscodeOutcome::Success { output_path } if output_path == "out/good_transcoded.wav"));
}

#[test]
fn launch_failure_does_not_stop_next_job() {
    let mut q = JobQueue::new();
    q.send(Job::new("in/one.mp3".to_string())).ok().unwrap();
    q.send(Job::new("in/two.mp3".to_string())).ok().unwrap();
    let mut w = Worker::new("out".to_string());
    let mut first = true;
    let (_, reports) = drain(&mut w, &mut q, |_| {
        if first {
            first = false;
            ProcessResult::LaunchFailed { message: "ffmpeg not found".to_string() }
        } else {
            ProcessResult::Exited { success: true, stderr: String::new() }
        }
    });
    assert!(matches!(&reports[0].1, TranscodeOutcome::LaunchFailed { .. }));
    assert!(reports[1].1.is_success());
}

#[test]
fn burst_is_processed_once_each_without_overlap() {
    let n = 8;
    let mut q = JobQueue::new();
    let paths: Vec<String> = (0..n).map(|i| format!("in/f{}.mp3", i)).collect();
    let ev = FsEvent { kind: EventKind::Create, paths: paths.clone() };
    assert_eq!(handle_event(&ev, &mut q).len(), n);
    let mut w = Worker::new("out".to_string());
    // A stand-in for the transcoder that records overlapping calls.
    let mut running = 0u32;
    let mut max_running = 0u32;
    let mut calls = Vec::new();
    let (begun, reports) = drain(&mut w, &mut q, |args| {
        running += 1;
        max_running = max_running.max(running);
        calls.push(args[1].clone());
        running -= 1;
        ProcessResult::Exited { success: true, stderr: String::new() }
    });
    assert_eq!(max_running, 1);
    assert_eq!(calls, paths);
    assert_eq!(begun, paths);
    assert_eq!(reports.len(), n);
    assert!(reports.iter().all(|(_, o)| o.is_success()));
}

#[test]
fn busy_worker_accepts_only_the_end_of_its_run() {
    let mut w = Worker::new("out".to_string());
    let a = consumer_thread(&mut w, WorkerEvent::Received(Job::new("in/a.mp3".to_string())));
    assert!(matches!(a, WorkerAction::Transcode(_)));
    assert!(!w.accepts(&WorkerEvent::Received(Job::new("in/b.mp3".to_string()))));
    assert!(!w.accepts(&WorkerEvent::QueueClosed));
    assert!(w.accepts(&WorkerEvent::Finished(ProcessResult::Exited { success: true, stderr: String::new() })));
}

#[test]
fn path_without_file_name_is_reported_without_a_run() {
    let mut w = Worker::new("out".to_string());
    let a = consumer_thread(&mut w, WorkerEvent::Received(Job::new("/".to_string())));
    assert!(matches!(a, WorkerAction::Report { outcome: TranscodeOutcome::NoFileName, .. }));
    assert!(w.accepts(&WorkerEvent::Received(Job::new("in/b.mp3".to_string()))));
}

#[test]
fn closed_queue_stops_the_worker() {
    let mut q = JobQueue::new();
    q.send(Job::new("in/a.mp3".to_string())).ok().unwrap();
    q.close();
    let mut w = Worker::new("out".to_string());
    let (begun, reports) = drain(&mut w, &mut q, |_| ProcessResult::Exited { success: true, stderr: String::new() });
    assert_eq!(begun.len(), 1);
    assert_eq!(reports.len(), 1);
    assert!(w.is_stopped());
    assert!(!w.accepts(&WorkerEvent::QueueClosed));
}
