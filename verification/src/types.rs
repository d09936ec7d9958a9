//! Slurm job identifiers, job scripts and the states a job passes through.
use vstd::prelude::*;
use crate::number::{parse_unsigned, parse_unsigned_chars};
use crate::text::{
    chars_eq_str, chars_of, lemma_split_from_nonempty, seqs_of, split_chars, split_on, string_of,
    trim, trim_chars,
};

verus! {

/// Why a text is not a job id.
#[derive(Debug, Clone, Copy, PartialEq, Eq, Structural)]
pub enum JobIdError {
    /// Nothing is left once the text is trimmed and cut at `;`.
    Empty,
    /// What is left is not an unsigned 64-bit number.
    InvalidFormat,
}

impl JobIdError {
    pub fn message(&self) -> (m: &'static str)
        ensures
            m@ == (match self {
                JobIdError::Empty => "job id is empty"@,
                JobIdError::InvalidFormat => "Parse error: job id invalid format"@,
            }),
    {
        match self {
            JobIdError::Empty => "job id is empty",
            JobIdError::InvalidFormat => "Parse error: job id invalid format",
        }
    }
}

/// The id that Slurm gave a job: the decimal digits of an unsigned 64-bit number.
#[derive(Debug, PartialEq, Eq)]
pub struct JobId(String);

impl Clone for JobId {
    fn clone(&self) -> (r: JobId)
        ensures
            r == *self,
    {
        JobId(self.0.clone())
    }
}

impl View for JobId {
    type V = Seq<char>;

    closed spec fn view(&self) -> Seq<char> {
        self.0@
    }
}

/// The candidate id in `sbatch --parsable` output: the text before the first
/// `;` (a cluster name may follow it), trimmed.
pub open spec fn job_id_text(s: Seq<char>) -> Seq<char> {
    trim(split_on(trim(s), ';')[0])
}

/// What `JobId::new` makes of a text.
pub open spec fn parse_job_id(s: Seq<char>) -> Result<Seq<char>, JobIdError> {
    let t = job_id_text(s);
    if t.len() == 0 {
        Err(JobIdError::Empty)
    } else if parse_unsigned(t, u64::MAX as nat) is None {
        Err(JobIdError::InvalidFormat)
    } else {
        Ok(t)
    }
}

impl JobId {
    /// Reads a job id from `sbatch --parsable` output such as `"12345"` or
    /// `"12345;cluster\n"`.
    pub fn new(string: String) -> (r: Result<JobId, JobIdError>)
        ensures
            match r {
                Ok(id) => parse_job_id(string@) == Ok::<Seq<char>, JobIdError>(id@),
                Err(e) => parse_job_id(string@) == Err::<Seq<char>, JobIdError>(e),
            },
    {
        let all = chars_of(string.as_str());
        let t = trim_chars(all.as_slice());
        let parts = split_chars(t.as_slice(), ';');
        proof {
            lemma_split_from_nonempty(t@, ';', Seq::empty());
            assert(seqs_of(parts@)[0] == parts@[0]@);
        }
        let first = trim_chars(parts[0].as_slice());
        if first.len() == 0 {
            return Err(JobIdError::Empty);
        }
        match parse_unsigned_chars(first.as_slice(), u64::MAX) {
            Err(_) => Err(JobIdError::InvalidFormat),
            Ok(_) => Ok(JobId(string_of(first.as_slice()))),
        }
    }

    pub fn as_str(&self) -> (s: &str)
        ensures
            s@ == self@,
    {
        self.0.as_str()
    }
}

/// The path of a job script, as text.
#[derive(Debug, PartialEq, Eq)]
pub struct JobScript(String);

impl Clone for JobScript {
    fn clone(&self) -> (r: JobScript)
        ensures
            r == *self,
    {
        JobScript(self.0.clone())
    }
}

impl View for JobScript {
    type V = Seq<char>;

    closed spec fn view(&self) -> Seq<char> {
        self.0@
    }
}

impl JobScript {
    pub fn new(path: String) -> (s: JobScript)
        ensures
            s@ == path@,
    {
        JobScript(path)
    }

    /// The path, as text.
    pub fn as_path(&self) -> (s: &str)
        ensures
            s@ == self@,
    {
        self.0.as_str()
    }
}

/// A job waiting in the queue.
#[derive(Debug, Clone, PartialEq)]
pub struct PendingData {
    pub jobscript: JobScript,
    pub job_id: JobId,
    pub submit_time: String,
}

/// A job running on some nodes.
#[derive(Debug, Clone, PartialEq)]
pub struct RunningData {
    pub jobscript: JobScript,
    pub job_id: JobId,
    pub nodes: Vec<String>,
    pub uptime: String,
}

/// A job that has left the queue.
#[derive(Debug, Clone, PartialEq)]
pub struct FinishedData {
    pub jobscript: JobScript,
    pub job_id: JobId,
    pub start_time: String,
    pub end_time: String,
    pub runtime: String,
    pub final_status: FinalJobStatus,
}

/// Where a job is.
#[derive(Debug, Clone, PartialEq)]
pub enum JobState {
    Pending(PendingData),
    Running(RunningData),
    Finished(FinishedData),
    Other(String),
}

/// How a job ended, as `sacct` reports it.
#[derive(Debug, Clone, PartialEq)]
pub enum FinalJobStatus {
    Completed,
    Cancelled,
    Timeout,
    OutOfMemory,
    Failed,
    Other(String),
}

/// A final job status over character sequences.
pub enum FinalStatusView {
    Completed,
    Cancelled,
    Timeout,
    OutOfMemory,
    Failed,
    Other(Seq<char>),
}

impl View for FinalJobStatus {
    type V = FinalStatusView;

    open spec fn view(&self) -> FinalStatusView {
        match self {
            FinalJobStatus::Completed => FinalStatusView::Completed,
            FinalJobStatus::Cancelled => FinalStatusView::Cancelled,
            FinalJobStatus::Timeout => FinalStatusView::Timeout,
            FinalJobStatus::OutOfMemory => FinalStatusView::OutOfMemory,
            FinalJobStatus::Failed => FinalStatusView::Failed,
            FinalJobStatus::Other(s) => FinalStatusView::Other(s@),
        }
    }
}

/// The status that a state word of `sacct` names: the variant's name in
/// SCREAMING_SNAKE_CASE, any other word kept as it is.
pub open spec fn final_status_of(s: Seq<char>) -> FinalStatusView {
    if s == "COMPLETED"@ {
        FinalStatusView::Completed
    } else if s == "CANCELLED"@ {
        FinalStatusView::Cancelled
    } else if s == "TIMEOUT"@ {
        FinalStatusView::Timeout
    } else if s == "OUT_OF_MEMORY"@ {
        FinalStatusView::OutOfMemory
    } else if s == "FAILED"@ {
        FinalStatusView::Failed
    } else {
        FinalStatusView::Other(s)
    }
}

impl FinalJobStatus {
    /// Reads a state word of `sacct`.
    pub fn from_state_word(s: &[char]) -> (r: FinalJobStatus)
        ensures
            r@ == final_status_of(s@),
    {
        if chars_eq_str(s, "COMPLETED") {
            FinalJobStatus::Completed
        } else if chars_eq_str(s, "CANCELLED") {
            FinalJobStatus::Cancelled
        } else if chars_eq_str(s, "TIMEOUT") {
            FinalJobStatus::Timeout
        } else if chars_eq_str(s, "OUT_OF_MEMORY") {
            FinalJobStatus::OutOfMemory
        } else if chars_eq_str(s, "FAILED") {
            FinalJobStatus::Failed
        } else {
            FinalJobStatus::Other(string_of(s))
        }
    }

    /// `str::parse` of a state word; it never fails.
    pub fn parse_state(s: &str) -> (r: FinalJobStatus)
        ensures
            r@ == final_status_of(s@),
    {
        let v = chars_of(s);
        FinalJobStatus::from_state_word(v.as_slice())
    }
}

/// The decimal text of any unsigned 64-bit number is a job id, which is that text.
pub proof fn law_job_id_of_number(n: u64)
    ensures
        parse_job_id(crate::number::decimal(n as nat)) == Ok::<Seq<char>, JobIdError>(
            crate::number::decimal(n as nat),
        ),
{
    let d = crate::number::decimal(n as nat);
    crate::number::law_parse_decimal_roundtrip(n as nat, u64::MAX as nat);
    crate::number::lemma_decimal_is_digits(n as nat);
    crate::text::lemma_trim_unchanged(d);
    crate::text::lemma_split_without_sep(d, ';');
}

} // verus!
