//! A watched-directory transcoding pipeline: creation events become jobs,
//! jobs wait in a first-in first-out queue, and a single worker turns each
//! job into one run of an external transcoder.
pub mod event;
pub mod queue;
pub mod transcode;
pub mod worker;

pub use event::{handle_event, EnqueueReport, EventKind, FsEvent};
pub use queue::{EnqueueError, Job, JobQueue, Received};
pub use transcode::{
    classify, output_path, transcode_command, ProcessResult, TranscodeCommand, TranscodeOutcome,
};
pub use worker::{consumer_thread, Worker, WorkerAction, WorkerEvent};
