//! What the scheduler reads from Slurm's `sbatch`, `squeue` and `sacct`: the
//! commands run outside, their outputs are parsed here.
use vstd::prelude::*;
use crate::number::{decimal, decimal_chars};
use crate::text::{
    chars_eq_str, chars_of, is_ws, lemma_split_field, lemma_split_without_sep, lemma_splitn_field,
    lemma_splitn_from_last, lemma_trim_idempotent, lemma_trim_padded, lemma_trim_unchanged,
    seqs_of, split_chars, split_on, split_once, splitn, splitn_chars, string_of, strings_of, trim,
    trim_chars, words, words_chars,
};
use crate::types::{
    final_status_of, parse_job_id, FinalJobStatus, FinishedData, JobId, JobIdError, JobScript,
    JobState, PendingData, RunningData,
};

verus! {

/// The state that `squeue -o %T` reports for a job.
#[derive(Debug, Clone, PartialEq)]
pub enum QueueState {
    Pending,
    Running,
    NotInQueue,
    Other(String),
    Unknown,
}

impl Default for QueueState {
    fn default() -> (q: QueueState)
        ensures
            q == QueueState::Unknown,
    {
        QueueState::Unknown
    }
}

/// A queue state over character sequences.
pub enum QueueStateView {
    Pending,
    Running,
    NotInQueue,
    Other(Seq<char>),
    Unknown,
}

impl View for QueueState {
    type V = QueueStateView;

    open spec fn view(&self) -> QueueStateView {
        match self {
            QueueState::Pending => QueueStateView::Pending,
            QueueState::Running => QueueStateView::Running,
            QueueState::NotInQueue => QueueStateView::NotInQueue,
            QueueState::Other(s) => QueueStateView::Other(s@),
            QueueState::Unknown => QueueStateView::Unknown,
        }
    }
}

/// The queue state that a state word names, once trimmed: nothing means the
/// job has left the queue.
pub open spec fn queue_state_of(s: Seq<char>) -> QueueStateView {
    let t = trim(s);
    if t.len() == 0 {
        QueueStateView::NotInQueue
    } else if t == "PENDING"@ {
        QueueStateView::Pending
    } else if t == "RUNNING"@ {
        QueueStateView::Running
    } else {
        QueueStateView::Other(t)
    }
}

fn queue_state_from_chars(v: &[char]) -> (r: QueueState)
    ensures
        r@ == queue_state_of(v@),
{
    let t = trim_chars(v);
    if t.len() == 0 {
        QueueState::NotInQueue
    } else if chars_eq_str(t.as_slice(), "PENDING") {
        QueueState::Pending
    } else if chars_eq_str(t.as_slice(), "RUNNING") {
        QueueState::Running
    } else {
        QueueState::Other(string_of(t.as_slice()))
    }
}

impl<'a> From<&'a str> for QueueState {
    fn from(value: &'a str) -> (r: QueueState)
        ensures
            r@ == queue_state_of(value@),
    {
        let v = chars_of(value);
        queue_state_from_chars(v.as_slice())
    }
}

/// `from` is stated by its own `ensures` over views: two `String`s with the same
/// characters are not known to be equal values, so the equation with
/// `from_spec` is not claimed.
impl<'a> vstd::std_specs::convert::FromSpecImpl<&'a str> for QueueState {
    open spec fn obeys_from_spec() -> bool {
        false
    }

    open spec fn from_spec(v: &'a str) -> QueueState {
        choose|q: QueueState| q@ == queue_state_of(v@)
    }
}

/// Why talking to Slurm failed.
#[derive(Debug, Clone, PartialEq, Eq)]
pub enum SlurmError {
    /// `sbatch` failed; its standard error.
    SubmitFailed(String),
    /// `sbatch` printed no valid job id.
    InvalidJobId(JobIdError),
    /// `squeue` failed while asking for the state.
    QueueQueryFailed,
    /// `squeue` reported a state that is not handled.
    UnsupportedQueueState(String),
    /// The queue state was never asked for.
    QueueStateNotPolled,
    PendingQueryFailed,
    PendingUnparsable,
    RunningQueryFailed,
    /// `squeue` gave this many fields for a running job, not four.
    RunningFieldCount(usize),
    FinishedQueryFailed,
    /// `sacct` gave this many fields, not five.
    FinishedFieldCount(usize),
    MissingFinalStatus,
    MissingJobScript,
}

fn append_str(m: &mut String, s: &str)
    ensures
        final(m)@ == old(m)@ + s@,
{
    m.append(s);
}

/// The message of a Slurm error.
pub open spec fn slurm_message(e: SlurmError) -> Seq<char> {
    match e {
        SlurmError::SubmitFailed(s) => "Failed to submit jobscript with err: "@ + s@,
        SlurmError::InvalidJobId(JobIdError::Empty) => "job id is empty"@,
        SlurmError::InvalidJobId(JobIdError::InvalidFormat) => "Parse error: job id invalid format"@,
        SlurmError::QueueQueryFailed => "query failed"@,
        SlurmError::UnsupportedQueueState(s) => "unsupported queue state "@ + s@,
        SlurmError::QueueStateNotPolled => "queue state was not polled"@,
        SlurmError::PendingQueryFailed => "pending query failed"@,
        SlurmError::PendingUnparsable => "could not parse query in new_pending"@,
        SlurmError::RunningQueryFailed => "running query failed"@,
        SlurmError::RunningFieldCount(n) => "Expected fields: 4, got "@ + decimal(n as nat),
        SlurmError::FinishedQueryFailed => "finished query failed"@,
        SlurmError::FinishedFieldCount(n) => "Expected fields: 5, got "@ + decimal(n as nat),
        SlurmError::MissingFinalStatus => "missing final status"@,
        SlurmError::MissingJobScript => "Could not parse jobscript from submit line"@,
    }
}

impl SlurmError {
    /// The error's message.
    pub fn message(&self) -> (m: String)
        ensures
            m@ == slurm_message(*self),
    {
        let mut m = String::new();
        match self {
            SlurmError::SubmitFailed(e) => {
                append_str(&mut m, "Failed to submit jobscript with err: ");
                append_str(&mut m, e.as_str());
            },
            SlurmError::InvalidJobId(e) => append_str(&mut m, e.message()),
            SlurmError::QueueQueryFailed => append_str(&mut m, "query failed"),
            SlurmError::UnsupportedQueueState(s) => {
                append_str(&mut m, "unsupported queue state ");
                append_str(&mut m, s.as_str());
            },
            SlurmError::QueueStateNotPolled => append_str(&mut m, "queue state was not polled"),
            SlurmError::PendingQueryFailed => append_str(&mut m, "pending query failed"),
            SlurmError::PendingUnparsable => append_str(
                &mut m,
                "could not parse query in new_pending",
            ),
            SlurmError::RunningQueryFailed => append_str(&mut m, "running query failed"),
            SlurmError::RunningFieldCount(n) => {
                append_str(&mut m, "Expected fields: 4, got ");
                append_str(&mut m, string_of(decimal_chars(*n as u64).as_slice()).as_str());
            },
            SlurmError::FinishedQueryFailed => append_str(&mut m, "finished query failed"),
            SlurmError::FinishedFieldCount(n) => {
                append_str(&mut m, "Expected fields: 5, got ");
                append_str(&mut m, string_of(decimal_chars(*n as u64).as_slice()).as_str());
            },
            SlurmError::MissingFinalStatus => append_str(&mut m, "missing final status"),
            SlurmError::MissingJobScript => append_str(
                &mut m,
                "Could not parse jobscript from submit line",
            ),
        }
        m
    }
}

/// The outcome of `sbatch --parsable`: its job id, read from standard output.
pub fn submission_result(success: bool, stdout: String, stderr: String) -> (r: Result<
    JobId,
    SlurmError,
>)
    ensures
        !success ==> r == Err::<JobId, SlurmError>(SlurmError::SubmitFailed(stderr)),
        success ==> match r {
            Ok(id) => parse_job_id(stdout@) == Ok::<Seq<char>, JobIdError>(id@),
            Err(SlurmError::InvalidJobId(e)) => parse_job_id(stdout@) == Err::<
                Seq<char>,
                JobIdError,
            >(e),
            Err(_) => false,
        },
{
    if !success {
        return Err(SlurmError::SubmitFailed(stderr));
    }
    match JobId::new(stdout) {
        Ok(id) => Ok(id),
        Err(e) => Err(SlurmError::InvalidJobId(e)),
    }
}

/// The queue state from the outcome of `squeue -h -j <id> -o %T`: empty output
/// of a successful query means the job has left the queue.
pub fn get_queue_state(success: bool, stdout: &str) -> (r: Result<QueueState, SlurmError>)
    ensures
        trim(stdout@).len() == 0 && success ==> r == Ok::<QueueState, SlurmError>(
            QueueState::NotInQueue,
        ),
        !success ==> r == Err::<QueueState, SlurmError>(SlurmError::QueueQueryFailed),
        success && trim(stdout@).len() > 0 ==> (r matches Ok(q) && q@ == queue_state_of(
            trim(stdout@),
        )),
{
    let v = chars_of(stdout);
    let t = trim_chars(v.as_slice());
    if t.len() == 0 && success {
        return Ok(QueueState::NotInQueue);
    } else if !success {
        return Err(SlurmError::QueueQueryFailed);
    }
    Ok(queue_state_from_chars(t.as_slice()))
}

/// The query that follows a queue state.
#[derive(Debug, Clone, Copy, PartialEq, Eq, Structural)]
pub enum StateQuery {
    /// `squeue -o %V|%o`
    Pending,
    /// `squeue -o %V|%o|%N|%M`
    Running,
    /// `sacct`
    Finished,
}

/// Which query tells the state of a job in the given queue state.
pub fn state_query(queue_state: &QueueState) -> (r: Result<StateQuery, SlurmError>)
    ensures
        match queue_state {
            QueueState::Pending => r == Ok::<StateQuery, SlurmError>(StateQuery::Pending),
            QueueState::Running => r == Ok::<StateQuery, SlurmError>(StateQuery::Running),
            QueueState::NotInQueue => r == Ok::<StateQuery, SlurmError>(StateQuery::Finished),
            QueueState::Other(s) => r == Err::<StateQuery, SlurmError>(
                SlurmError::UnsupportedQueueState(*s),
            ),
            QueueState::Unknown => r == Err::<StateQuery, SlurmError>(
                SlurmError::QueueStateNotPolled,
            ),
        },
{
    match queue_state {
        QueueState::Pending => Ok(StateQuery::Pending),
        QueueState::Running => Ok(StateQuery::Running),
        QueueState::NotInQueue => Ok(StateQuery::Finished),
        QueueState::Other(s) => Err(SlurmError::UnsupportedQueueState(s.clone())),
        QueueState::Unknown => Err(SlurmError::QueueStateNotPolled),
    }
}

/// The state of a pending job from `squeue -o "%V|%o"`: submit time, then job script.
pub fn parse_pending_output(job_id: &JobId, success: bool, stdout: &str) -> (r: Result<
    JobState,
    SlurmError,
>)
    ensures
        !success ==> r == Err::<JobState, SlurmError>(SlurmError::PendingQueryFailed),
        success ==> match split_once(trim(stdout@), '|') {
            None => r == Err::<JobState, SlurmError>(SlurmError::PendingUnparsable),
            Some((submit_time, script)) => r matches Ok(JobState::Pending(d)) && d.submit_time@
                == submit_time && d.jobscript@ == script && d.job_id == *job_id,
        },
{
    if !success {
        return Err(SlurmError::PendingQueryFailed);
    }
    let v = chars_of(stdout);
    let t = trim_chars(v.as_slice());
    let parts = splitn_chars(t.as_slice(), 2, '|');
    if parts.len() != 2 {
        return Err(SlurmError::PendingUnparsable);
    }
    assert(seqs_of(parts@)[0] == parts@[0]@ && seqs_of(parts@)[1] == parts@[1]@);
    let data = PendingData {
        jobscript: JobScript::new(string_of(parts[1].as_slice())),
        job_id: job_id.clone(),
        submit_time: string_of(parts[0].as_slice()),
    };
    Ok(JobState::Pending(data))
}

/// The state of a running job from `squeue -o "%V|%o|%N|%M"`: submit time, job
/// script, comma-separated node list, elapsed time.
pub fn parse_running_output(job_id: &JobId, success: bool, stdout: &str) -> (r: Result<
    JobState,
    SlurmError,
>)
    ensures
        !success ==> r == Err::<JobState, SlurmError>(SlurmError::RunningQueryFailed),
        success ==> {
            let fields = split_on(trim(stdout@), '|');
            if fields.len() != 4 {
                r == Err::<JobState, SlurmError>(SlurmError::RunningFieldCount(fields.len() as usize))
            } else {
                r matches Ok(JobState::Running(d)) && d.jobscript@ == fields[1] && d.nodes.deep_view()
                    == split_on(fields[2], ',') && d.uptime@ == fields[3] && d.job_id == *job_id
            }
        },
{
    if !success {
        return Err(SlurmError::RunningQueryFailed);
    }
    let v = chars_of(stdout);
    let t = trim_chars(v.as_slice());
    let fields = split_chars(t.as_slice(), '|');
    if fields.len() != 4 {
        return Err(SlurmError::RunningFieldCount(fields.len()));
    }
    assert(seqs_of(fields@)[1] == fields@[1]@ && seqs_of(fields@)[2] == fields@[2]@ && seqs_of(
        fields@,
    )[3] == fields@[3]@);
    let nodes = split_chars(fields[2].as_slice(), ',');
    let data = RunningData {
        jobscript: JobScript::new(string_of(fields[1].as_slice())),
        job_id: job_id.clone(),
        nodes: strings_of(&nodes),
        uptime: string_of(fields[3].as_slice()),
    };
    Ok(JobState::Running(data))
}

/// The state of a finished job from `sacct -n -P -X --format=Start,End,Elapsed,State,SubmitLine`:
/// the first word of the state field is the final status, the last word of
/// the submit line is the job script.
pub fn parse_finished_output(job_id: &JobId, success: bool, stdout: &str) -> (r: Result<
    JobState,
    SlurmError,
>)
    ensures
        !success ==> r == Err::<JobState, SlurmError>(SlurmError::FinishedQueryFailed),
        success ==> {
            let fields = splitn(trim(stdout@), 5, '|');
            if fields.len() != 5 {
                r == Err::<JobState, SlurmError>(
                    SlurmError::FinishedFieldCount(fields.len() as usize),
                )
            } else if words(fields[3]).len() == 0 {
                r == Err::<JobState, SlurmError>(SlurmError::MissingFinalStatus)
            } else if words(fields[4]).len() == 0 {
                r == Err::<JobState, SlurmError>(SlurmError::MissingJobScript)
            } else {
                r matches Ok(JobState::Finished(d)) && d.start_time@ == fields[0] && d.end_time@
                    == fields[1] && d.runtime@ == fields[2] && d.final_status@ == final_status_of(
                    words(fields[3])[0],
                ) && d.jobscript@ == words(fields[4]).last() && d.job_id == *job_id
            }
        },
{
    if !success {
        return Err(SlurmError::FinishedQueryFailed);
    }
    let v = chars_of(stdout);
    let t = trim_chars(v.as_slice());
    let fields = splitn_chars(t.as_slice(), 5, '|');
    if fields.len() != 5 {
        return Err(SlurmError::FinishedFieldCount(fields.len()));
    }
    assert(forall|i: int| 0 <= i < 5 ==> seqs_of(fields@)[i] == #[trigger] fields@[i]@);
    let status_words = words_chars(fields[3].as_slice());
    if status_words.len() == 0 {
        return Err(SlurmError::MissingFinalStatus);
    }
    assert(seqs_of(status_words@)[0] == status_words@[0]@);
    let final_status = FinalJobStatus::from_state_word(status_words[0].as_slice());
    let script_words = words_chars(fields[4].as_slice());
    if script_words.len() == 0 {
        return Err(SlurmError::MissingJobScript);
    }
    let last = script_words.len() - 1;
    assert(seqs_of(script_words@)[last as int] == script_words@[last as int]@);
    let data = FinishedData {
        jobscript: JobScript::new(string_of(script_words[last].as_slice())),
        job_id: job_id.clone(),
        start_time: string_of(fields[0].as_slice()),
        end_time: string_of(fields[1].as_slice()),
        runtime: string_of(fields[2].as_slice()),
        final_status,
    };
    Ok(JobState::Finished(data))
}

/// Whitespace around the state word does not change the queue state it names,
/// and the output of a query is read as its trimmed text.
pub proof fn law_queue_state_ignores_padding(a: Seq<char>, w: Seq<char>, b: Seq<char>)
    requires
        forall|i: int| 0 <= i < a.len() ==> is_ws(#[trigger] a[i]),
        forall|i: int| 0 <= i < b.len() ==> is_ws(#[trigger] b[i]),
        w.len() > 0 ==> !is_ws(w[0]) && !is_ws(w.last()),
    ensures
        queue_state_of(a + w + b) == queue_state_of(w),
        queue_state_of(trim(a + w + b)) == queue_state_of(a + w + b),
{
    lemma_trim_padded(a, w, b);
    lemma_trim_unchanged(w);
    lemma_trim_idempotent(a + w + b);
}

/// No character of `s` is `c`.
pub open spec fn free_of(s: Seq<char>, c: char) -> bool {
    forall|i: int| 0 <= i < s.len() ==> s[i] != c
}

/// Text that trims to itself.
pub open spec fn untrimmed(s: Seq<char>) -> bool {
    s.len() > 0 ==> !is_ws(s[0]) && !is_ws(s.last())
}

/// The line that `squeue -o "%V|%o"` prints for a pending job reads back as its
/// submit time and job script.
pub proof fn law_pending_line_reads_back(submit_time: Seq<char>, script: Seq<char>)
    requires
        free_of(submit_time, '|'),
        untrimmed(submit_time + seq!['|'] + script),
    ensures
        split_once(trim(submit_time + seq!['|'] + script), '|') == Some((submit_time, script)),
{
    let line = submit_time + seq!['|'] + script;
    lemma_trim_unchanged(line);
    lemma_splitn_field(submit_time, script, 2, '|');
    lemma_splitn_from_last(script, '|', Seq::empty());
    assert(Seq::<char>::empty() + script =~= script);
}

/// The line that `squeue -o "%V|%o|%N|%M"` prints for a running job reads back
/// as its four fields.
pub proof fn law_running_line_reads_back(f0: Seq<char>, f1: Seq<char>, f2: Seq<char>, f3: Seq<char>)
    requires
        free_of(f0, '|'),
        free_of(f1, '|'),
        free_of(f2, '|'),
        free_of(f3, '|'),
        untrimmed(f0 + seq!['|'] + f1 + seq!['|'] + f2 + seq!['|'] + f3),
    ensures
        split_on(trim(f0 + seq!['|'] + f1 + seq!['|'] + f2 + seq!['|'] + f3), '|') == seq![
            f0,
            f1,
            f2,
            f3,
        ],
{
    let bar = seq!['|'];
    let line = f0 + bar + f1 + bar + f2 + bar + f3;
    lemma_trim_unchanged(line);
    let r3 = f2 + bar + f3;
    let r2 = f1 + bar + r3;
    assert(line =~= f0 + bar + r2);
    lemma_split_field(f0, r2, '|');
    lemma_split_field(f1, r3, '|');
    lemma_split_field(f2, f3, '|');
    lemma_split_without_sep(f3, '|');
    assert(seq![f0] + (seq![f1] + (seq![f2] + seq![f3])) =~= seq![f0, f1, f2, f3]);
}

/// The line that `sacct -P` prints for a finished job reads back as its five
/// fields, whatever the submit line (the last field) holds, separators included.
pub proof fn law_finished_line_reads_back(
    f0: Seq<char>,
    f1: Seq<char>,
    f2: Seq<char>,
    f3: Seq<char>,
    submit_line: Seq<char>,
)
    requires
        free_of(f0, '|'),
        free_of(f1, '|'),
        free_of(f2, '|'),
        free_of(f3, '|'),
        untrimmed(f0 + seq!['|'] + f1 + seq!['|'] + f2 + seq!['|'] + f3 + seq!['|'] + submit_line),
    ensures
        splitn(
            trim(f0 + seq!['|'] + f1 + seq!['|'] + f2 + seq!['|'] + f3 + seq!['|'] + submit_line),
            5,
            '|',
        ) == seq![f0, f1, f2, f3, submit_line],
{
    let bar = seq!['|'];
    let line = f0 + bar + f1 + bar + f2 + bar + f3 + bar + submit_line;
    lemma_trim_unchanged(line);
    let r4 = f3 + bar + submit_line;
    let r3 = f2 + bar + r4;
    let r2 = f1 + bar + r3;
    assert(line =~= f0 + bar + r2);
    lemma_splitn_field(f0, r2, 5, '|');
    lemma_splitn_field(f1, r3, 4, '|');
    lemma_splitn_field(f2, r4, 3, '|');
    lemma_splitn_field(f3, submit_line, 2, '|');
    lemma_splitn_from_last(submit_line, '|', Seq::empty());
    assert(Seq::<char>::empty() + submit_line =~= submit_line);
    assert(seq![f0] + (seq![f1] + (seq![f2] + (seq![f3] + seq![submit_line]))) =~= seq![
        f0,
        f1,
        f2,
        f3,
        submit_line,
    ]);
}

} // verus!
