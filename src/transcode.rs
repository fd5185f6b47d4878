use vstd::prelude::*;

verus! {

/// The path separator.
pub const SEP: char = '/';

/// Whether `p` ends with a separator, or with a `.` component that follows
/// a separator (a `.` that leads the path is kept).
pub open spec fn ends_in_skipped(p: Seq<char>) -> bool {
    (p.len() > 0 && p.last() == SEP) || (p.len() >= 2 && p.last() == '.' && p[p.len() - 2]
        == SEP)
}

/// `p` without the separators and the non-leading `.` components that end it.
pub open spec fn trim_trailing(p: Seq<char>) -> Seq<char>
    decreases p.len(),
{
    if ends_in_skipped(p) {
        trim_trailing(p.drop_last())
    } else {
        p
    }
}

/// The characters of `p` after its last separator.
pub open spec fn last_component(p: Seq<char>) -> Seq<char>
    decreases p.len(),
{
    if p.len() == 0 || p.last() == SEP {
        Seq::empty()
    } else {
        last_component(p.drop_last()).push(p.last())
    }
}

/// The file name of a path: its last component, once the separators and the
/// `.` components that end it are dropped (a `.` that leads the path stays).
/// A path whose last component is then empty, `.` or `..` names no file:
/// `a/.` names `a`; `/.`, `./.` and `a/..` name none.
pub open spec fn file_name_of(p: Seq<char>) -> Option<Seq<char>> {
    let c = last_component(trim_trailing(p));
    if c.len() == 0 || c == seq!['.'] || c == seq!['.', '.'] {
        None
    } else {
        Some(c)
    }
}

/// The stem of a file name: the characters before its first `.`.
pub open spec fn stem_of(name: Seq<char>) -> Seq<char>
    decreases name.len(),
{
    if name.len() == 0 || name[0] == '.' {
        Seq::empty()
    } else {
        seq![name[0]] + stem_of(name.drop_first())
    }
}

/// The file that the transcoder writes for the source `src` under `out_dir`:
/// `{out_dir}/{stem}_transcoded.wav`, or none where `src` names no file.
pub open spec fn output_file_of(src: Seq<char>, out_dir: Seq<char>) -> Option<Seq<char>> {
    match file_name_of(src) {
        Some(name) => Some(out_dir + seq![SEP] + stem_of(name) + "_transcoded.wav"@),
        None => None,
    }
}

proof fn lemma_stem_prefix(name: Seq<char>, k: int)
    requires
        0 <= k <= name.len(),
        k == name.len() || name[k] == '.',
        forall|j: int| 0 <= j < k ==> name[j] != '.',
    ensures
        stem_of(name) == name.take(k),
    decreases k,
{
    if k == 0 {
        assert(name.take(0) =~= Seq::<char>::empty());
    } else {
        let rest = name.drop_first();
        assert forall|j: int| 0 <= j < k - 1 implies rest[j] != '.' by {
            assert(rest[j] == name[j + 1]);
        }
        if k - 1 < rest.len() {
            assert(rest[k - 1] == name[k]);
        }
        lemma_stem_prefix(rest, k - 1);
        assert(seq![name[0]] + rest.take(k - 1) =~= name.take(k));
    }
}

/// The number of characters of `s` before its first `.`.
fn stem_len(s: &str) -> (k: usize)
    ensures
        k <= s@.len(),
        stem_of(s@) == s@.take(k as int),
{
    let n = s.unicode_len();
    let mut k: usize = 0;
    while k < n && s.get_char(k) != '.'
        invariant
            n == s@.len(),
            k <= n,
            forall|j: int| 0 <= j < k ==> s@[j] != '.',
        decreases n - k,
    {
        k = k + 1;
    }
    proof {
        lemma_stem_prefix(s@, k as int);
    }
    k
}

/// The character range `(start, end)` of the last component of `p`, trailing
/// separators and non-leading `.` components ignored.
fn last_component_range(p: &str) -> (r: (usize, usize))
    ensures
        r.0 <= r.1 <= p@.len(),
        last_component(trim_trailing(p@)) == p@.subrange(r.0 as int, r.1 as int),
{
    let n = p.unicode_len();
    let mut end: usize = n;
    assert(p@.take(n as int) =~= p@);
    while end > 0 && (p.get_char(end - 1) == SEP || (end >= 2 && p.get_char(end - 1) == '.'
        && p.get_char(end - 2) == SEP))
        invariant
            n == p@.len(),
            end <= n,
            trim_trailing(p@) == trim_trailing(p@.take(end as int)),
        decreases end,
    {
        let ghost q = p@.take(end as int);
        assert(q.last() == p@[end - 1]);
        assert(end >= 2 ==> q[q.len() - 2] == p@[end - 2]);
        assert(ends_in_skipped(q));
        assert(q.drop_last() =~= p@.take(end - 1));
        end = end - 1;
    }
    proof {
        let q = p@.take(end as int);
        if q.len() > 0 {
            assert(q.last() == p@[end - 1]);
        }
        if q.len() >= 2 {
            assert(q[q.len() - 2] == p@[end - 2]);
        }
        assert(!ends_in_skipped(q));
    }
    assert(trim_trailing(p@) == p@.take(end as int));
    let mut start: usize = end;
    while start > 0 && p.get_char(start - 1) != SEP
        invariant
            n == p@.len(),
            start <= end <= n,
            last_component(p@.take(end as int)) == last_component(p@.take(start as int))
                + p@.subrange(start as int, end as int),
        decreases start,
    {
        let ghost q = p@.take(start as int);
        assert(q.drop_last() =~= p@.take(start - 1));
        assert(last_component(q) == last_component(p@.take(start - 1)).push(p@[start - 1]));
        assert(last_component(p@.take(start - 1)).push(p@[start - 1]) + p@.subrange(
            start as int,
            end as int,
        ) =~= last_component(p@.take(start - 1)) + p@.subrange(start - 1, end as int));
        start = start - 1;
    }
    assert(last_component(p@.take(start as int)) =~= Seq::<char>::empty());
    assert(Seq::<char>::empty() + p@.subrange(start as int, end as int) =~= p@.subrange(
        start as int,
        end as int,
    ));
    (start, end)
}

/// The path of the file that the transcoder writes for `src` under `out_dir`;
/// `None` where `src` names no file.
pub fn output_path(src: &str, out_dir: &str) -> (r: Option<String>)
    ensures
        r matches Some(o) ==> output_file_of(src@, out_dir@) == Some(o@),
        r is None ==> output_file_of(src@, out_dir@) is None,
{
    let (start, end) = last_component_range(src);
    let name = src.substring_char(start, end);
    let len = end - start;
    if len == 0 || (len == 1 && name.get_char(0) == '.') || (len == 2 && name.get_char(0) == '.'
        && name.get_char(1) == '.') {
        assert(len == 1 ==> name@ =~= seq!['.']);
        assert(len == 2 ==> name@ =~= seq!['.', '.']);
        return None;
    }
    assert(len == 1 ==> name@ != seq!['.']) by {
        if len == 1 && name@ == seq!['.'] {
            assert(name@[0] == '.');
        }
    }
    assert(len == 2 ==> name@ != seq!['.', '.']) by {
        if len == 2 && name@ == seq!['.', '.'] {
            assert(name@[0] == '.' && name@[1] == '.');
        }
    }
    let k = stem_len(name);
    let stem = name.substring_char(0, k);
    let out = String::from_str(out_dir).concat("/").concat(stem).concat("_transcoded.wav");
    proof {
        reveal_strlit("/");
    }
    assert(out@ =~= out_dir@ + seq![SEP] + stem_of(name@) + "_transcoded.wav"@);
    Some(out)
}

/// The transcoder's argument list for the source `src` and the output file
/// `out`: mono, 16000 Hz, signed 16-bit samples.
pub open spec fn transcode_args(src: Seq<char>, out: Seq<char>) -> Seq<Seq<char>> {
    seq![
        "-i"@,
        src,
        "-ac"@,
        "1"@,
        "-ar"@,
        "16000"@,
        "-sample_fmt"@,
        "s16"@,
        out,
    ]
}

/// The views of a list of strings.
pub open spec fn views(v: Seq<String>) -> Seq<Seq<char>> {
    v.map_values(|a: String| a@)
}

/// One run of the external transcoder.
pub struct TranscodeCommand {
    /// The program to start.
    pub program: String,
    /// Its arguments, in order.
    pub args: Vec<String>,
    /// The file that the run writes.
    pub output: String,
}

/// What a run of the transcoder is, in the model.
pub struct CommandModel {
    pub program: Seq<char>,
    pub args: Seq<Seq<char>>,
    pub output: Seq<char>,
}

impl View for TranscodeCommand {
    type V = CommandModel;

    open spec fn view(&self) -> CommandModel {
        CommandModel { program: self.program@, args: views(self.args@), output: self.output@ }
    }
}

/// The run that transcodes `src` into `out`.
pub open spec fn command_for(src: Seq<char>, out: Seq<char>) -> CommandModel {
    CommandModel { program: "ffmpeg"@, args: transcode_args(src, out), output: out }
}

/// The run of the transcoder for `src` under `out_dir`; `None` where `src`
/// names no file.
pub fn transcode_command(src: &str, out_dir: &str) -> (r: Option<TranscodeCommand>)
    ensures
        match output_file_of(src@, out_dir@) {
            Some(o) => r matches Some(c) && c@ == command_for(src@, o),
            None => r is None,
        },
{
    match output_path(src, out_dir) {
        None => None,
        Some(out) => {
            let args: Vec<String> = vec![
                String::from_str("-i"),
                String::from_str(src),
                String::from_str("-ac"),
                String::from_str("1"),
                String::from_str("-ar"),
                String::from_str("16000"),
                String::from_str("-sample_fmt"),
                String::from_str("s16"),
                out.clone(),
            ];
            let c = TranscodeCommand { program: String::from_str("ffmpeg"), args, output: out };
            assert(views(c.args@) =~= transcode_args(src@, c.output@));
            Some(c)
        },
    }
}

/// How a started run of the transcoder ended, or why it did not start.
pub enum ProcessResult {
    /// The process ran and exited; `success` is false for a non-zero or
    /// signalled exit.
    Exited { success: bool, stderr: String },
    /// The process could not be started.
    LaunchFailed { message: String },
}

/// A process result in the model.
pub enum ProcessModel {
    Exited { success: bool, stderr: Seq<char> },
    LaunchFailed { message: Seq<char> },
}

impl View for ProcessResult {
    type V = ProcessModel;

    open spec fn view(&self) -> ProcessModel {
        match self {
            ProcessResult::Exited { success, stderr } => ProcessModel::Exited {
                success: *success,
                stderr: stderr@,
            },
            ProcessResult::LaunchFailed { message } => ProcessModel::LaunchFailed {
                message: message@,
            },
        }
    }
}

/// What became of one job.
pub enum TranscodeOutcome {
    /// The transcoder wrote `output_path`.
    Success { output_path: String },
    /// The job's path names no file, so nothing was run.
    NoFileName,
    /// The transcoder could not be started.
    LaunchFailed { message: String },
    /// The transcoder exited with failure; `stderr` is what it printed there.
    Failed { stderr: String },
}

/// An outcome in the model.
pub enum OutcomeModel {
    Success { output_path: Seq<char> },
    NoFileName,
    LaunchFailed { message: Seq<char> },
    Failed { stderr: Seq<char> },
}

impl View for TranscodeOutcome {
    type V = OutcomeModel;

    open spec fn view(&self) -> OutcomeModel {
        match self {
            TranscodeOutcome::Success { output_path } => OutcomeModel::Success {
                output_path: output_path@,
            },
            TranscodeOutcome::NoFileName => OutcomeModel::NoFileName,
            TranscodeOutcome::LaunchFailed { message } => OutcomeModel::LaunchFailed {
                message: message@,
            },
            TranscodeOutcome::Failed { stderr } => OutcomeModel::Failed { stderr: stderr@ },
        }
    }
}

impl TranscodeOutcome {
    /// Whether the job succeeded.
    pub fn is_success(&self) -> (r: bool)
        ensures
            r == (self@ is Success),
    {
        match self {
            TranscodeOutcome::Success { .. } => true,
            _ => false,
        }
    }
}

/// The outcome of a run that was to write `out` and ended as `p`.
pub open spec fn outcome_of(out: Seq<char>, p: ProcessModel) -> OutcomeModel {
    match p {
        ProcessModel::Exited { success, stderr } => if success {
            OutcomeModel::Success { output_path: out }
        } else {
            OutcomeModel::Failed { stderr }
        },
        ProcessModel::LaunchFailed { message } => OutcomeModel::LaunchFailed { message },
    }
}

/// Classifies how a run that was to write `output` ended: a successful exit
/// is a success with that file; a failed exit or a failed start is a failure.
pub fn classify(output: &String, result: ProcessResult) -> (r: TranscodeOutcome)
    ensures
        r@ == outcome_of(output@, result@),
{
    match result {
        ProcessResult::Exited { success, stderr } => if success {
            TranscodeOutcome::Success { output_path: output.clone() }
        } else {
            TranscodeOutcome::Failed { stderr }
        },
        ProcessResult::LaunchFailed { message } => TranscodeOutcome::LaunchFailed { message },
    }
}

} // verus!
