//! The decisions of the pipeline runner: after each finished job of a step,
//! whether the step is complete, resubmitted after a timeout, or failed.
//! Submitting, waiting and the steps' own work happen outside.
use vstd::prelude::*;
use crate::types::{FinalJobStatus, FinalStatusView};

verus! {

/// The engines of the molecular-dynamics step.
#[derive(Debug, Clone, Copy, PartialEq, Eq, Structural)]
pub enum MdEngine {
    Lammps,
}

impl MdEngine {
    pub fn as_str(&self) -> (s: &'static str)
        ensures
            s@ == "lammps"@,
    {
        match self {
            MdEngine::Lammps => "lammps",
        }
    }
}

/// The codes of the DFT step.
#[derive(Debug, Clone, Copy, PartialEq, Eq, Structural)]
pub enum DftCode {
    Vasp,
}

impl DftCode {
    pub fn as_str(&self) -> (s: &'static str)
        ensures
            s@ == "vasp"@,
    {
        match self {
            DftCode::Vasp => "vasp",
        }
    }
}

/// The potentials that the training step fits.
#[derive(Debug, Clone, Copy, PartialEq, Eq, Structural)]
pub enum ModelBackend {
    Upet,
    N2p2,
}

impl ModelBackend {
    pub fn as_str(&self) -> (s: &'static str)
        ensures
            s@ == (match self {
                ModelBackend::Upet => "UPET"@,
                ModelBackend::N2p2 => "n2p2"@,
            }),
    {
        match self {
            ModelBackend::Upet => "UPET",
            ModelBackend::N2p2 => "n2p2",
        }
    }
}

/// The query-by-committee disagreement measures.
#[derive(Debug, Clone, Copy, PartialEq, Eq, Structural)]
pub enum ObcMethod {
    Rrmsfd,
}

impl ObcMethod {
    pub fn as_str(&self) -> (s: &'static str)
        ensures
            s@ == "RRMSFD (relative root mean squared force deviation)"@,
    {
        match self {
            ObcMethod::Rrmsfd => "RRMSFD (relative root mean squared force deviation)",
        }
    }
}

/// Why a step stopped the pipeline.
#[derive(Debug, Clone, PartialEq, Eq)]
pub enum RunError {
    OutOfMemory,
    Cancelled,
    Failed,
    /// A final status that is not known; its text.
    UnknownStatus(String),
}

impl RunError {
    pub fn message(&self) -> (m: String)
        ensures
            m@ == (match self {
                RunError::OutOfMemory => "Out of memory"@,
                RunError::Cancelled => "Job cancelled"@,
                RunError::Failed => "Job failed"@,
                RunError::UnknownStatus(e) => "Unknown status: "@ + e@,
            }),
    {
        match self {
            RunError::OutOfMemory => "Out of memory".to_owned(),
            RunError::Cancelled => "Job cancelled".to_owned(),
            RunError::Failed => "Job failed".to_owned(),
            RunError::UnknownStatus(e) => {
                let mut m = String::from_str("Unknown status: ");
                m.append(e.as_str());
                m
            },
        }
    }
}

/// What the runner does next for the current step.
#[derive(Debug, Clone, Copy, PartialEq, Eq, Structural)]
pub enum StepAction {
    /// Wait for the step's current job to finish.
    Wait,
    /// Go on with the next step.
    Advance,
}

/// What follows a finished job.
#[derive(Debug, Clone, Copy, PartialEq, Eq, Structural)]
pub enum Reaction {
    /// The job completed: hand its data to the step.
    Complete,
    /// The job timed out: resubmit the step from its current state.
    Resubmit,
}

/// The state of one step of a pipeline run.
#[derive(Debug, Clone, Copy, PartialEq, Eq, Structural)]
pub struct StepRun {
    /// Resubmissions so far.
    pub retries: u32,
    /// Resubmissions allowed; the step waits for a job only while `retries` is below it.
    pub max_retries: u32,
    /// Whether a job of the step has completed.
    pub completed: bool,
}

/// Resubmissions stay within what is allowed.
pub open spec fn step_wf(s: StepRun) -> bool {
    s.retries <= s.max_retries
}

/// Whether the runner waits for a job of the step.
pub open spec fn waits(s: StepRun) -> bool {
    !s.completed && s.retries < s.max_retries
}

/// The step after a job finished with `status`; `None` when the status stops the pipeline.
pub open spec fn after_finished(s: StepRun, status: FinalStatusView) -> Option<StepRun> {
    match status {
        FinalStatusView::Completed => Some(StepRun { completed: true, ..s }),
        FinalStatusView::Timeout => Some(StepRun { retries: (s.retries + 1) as u32, ..s }),
        _ => None,
    }
}

impl StepRun {
    /// A step whose first job was just submitted.
    pub fn start(max_retries: u32) -> (s: StepRun)
        ensures
            s == (StepRun { retries: 0, max_retries, completed: false }),
            step_wf(s),
    {
        StepRun { retries: 0, max_retries, completed: false }
    }

    /// The runner waits for the step's job while the step has not completed and
    /// fewer than `max_retries` resubmissions were made; otherwise it moves on.
    pub fn next_action(&self) -> (a: StepAction)
        ensures
            a == (if waits(*self) {
                StepAction::Wait
            } else {
                StepAction::Advance
            }),
    {
        if !self.completed && self.retries < self.max_retries {
            StepAction::Wait
        } else {
            StepAction::Advance
        }
    }

    /// Handles the final status of the job that was waited for.
    pub fn on_finished(&mut self, status: &FinalJobStatus) -> (r: Result<Reaction, RunError>)
        requires
            waits(*old(self)),
            step_wf(*old(self)),
        ensures
            step_wf(*final(self)),
            match status {
                FinalJobStatus::Completed => r == Ok::<Reaction, RunError>(Reaction::Complete),
                FinalJobStatus::Timeout => r == Ok::<Reaction, RunError>(Reaction::Resubmit),
                FinalJobStatus::OutOfMemory => r == Err::<Reaction, RunError>(RunError::OutOfMemory),
                FinalJobStatus::Cancelled => r == Err::<Reaction, RunError>(RunError::Cancelled),
                FinalJobStatus::Failed => r == Err::<Reaction, RunError>(RunError::Failed),
                FinalJobStatus::Other(e) => r == Err::<Reaction, RunError>(
                    RunError::UnknownStatus(*e),
                ),
            },
            r is Ok ==> Some(*final(self)) == after_finished(*old(self), status@),
            r is Err ==> *final(self) == *old(self),
    {
        match status {
            FinalJobStatus::Completed => {
                self.completed = true;
                Ok(Reaction::Complete)
            },
            FinalJobStatus::Timeout => {
                self.retries = self.retries + 1;
                Ok(Reaction::Resubmit)
            },
            FinalJobStatus::OutOfMemory => Err(RunError::OutOfMemory),
            FinalJobStatus::Cancelled => Err(RunError::Cancelled),
            FinalJobStatus::Failed => Err(RunError::Failed),
            FinalJobStatus::Other(e) => Err(RunError::UnknownStatus(e.clone())),
        }
    }
}

/// How a step ends when its jobs finish with the given statuses, in order.
pub enum StepEnd {
    /// A job completed after this many resubmissions.
    Completed(nat),
    /// The allowed resubmissions ran out.
    GaveUp,
    /// A status stopped the pipeline.
    Stopped,
    /// More statuses are needed.
    Running(StepRun),
}

/// The step driven by the machine above through a sequence of job outcomes.
pub open spec fn drive(s: StepRun, statuses: Seq<FinalStatusView>) -> StepEnd
    decreases statuses.len(),
{
    if s.completed {
        StepEnd::Completed(s.retries as nat)
    } else if !waits(s) {
        StepEnd::GaveUp
    } else if statuses.len() == 0 {
        StepEnd::Running(s)
    } else {
        match after_finished(s, statuses[0]) {
            Some(t) => drive(t, statuses.drop_first()),
            None => StepEnd::Stopped,
        }
    }
}

/// However the jobs of a step finish, the step is resubmitted at most
/// `max_retries` times, and the machine stays well formed.
pub proof fn law_resubmissions_bounded(s: StepRun, statuses: Seq<FinalStatusView>)
    requires
        step_wf(s),
    ensures
        drive(s, statuses) matches StepEnd::Completed(n) ==> n <= s.max_retries,
        drive(s, statuses) matches StepEnd::Running(t) ==> step_wf(t) && t.max_retries
            == s.max_retries && t.retries <= s.retries + statuses.len(),
    decreases statuses.len(),
{
    if !s.completed && waits(s) && statuses.len() > 0 {
        if let Some(t) = after_finished(s, statuses[0]) {
            law_resubmissions_bounded(t, statuses.drop_first());
        }
    }
}

/// A step whose jobs keep timing out gives up after exactly `max_retries`
/// resubmissions, that is after `max_retries` waits.
pub proof fn law_timeouts_give_up(max_retries: u32, n: nat)
    requires
        n >= max_retries,
    ensures
        drive(
            StepRun { retries: 0, max_retries, completed: false },
            Seq::new(n, |i: int| FinalStatusView::Timeout),
        ) == StepEnd::GaveUp,
{
    lemma_timeouts_from(0, max_retries, n);
}

proof fn lemma_timeouts_from(k: u32, max_retries: u32, n: nat)
    requires
        k <= max_retries,
        n >= max_retries - k,
    ensures
        drive(
            StepRun { retries: k, max_retries, completed: false },
            Seq::new(n, |i: int| FinalStatusView::Timeout),
        ) == StepEnd::GaveUp,
    decreases max_retries - k,
{
    let s = StepRun { retries: k, max_retries, completed: false };
    let statuses = Seq::new(n, |i: int| FinalStatusView::Timeout);
    if k < max_retries {
        assert(statuses[0] == FinalStatusView::Timeout);
        assert(statuses.drop_first() =~= Seq::new((n - 1) as nat, |i: int| FinalStatusView::Timeout));
        lemma_timeouts_from((k + 1) as u32, max_retries, (n - 1) as nat);
    }
}

/// A completed job ends the step: the runner moves on.
pub proof fn law_completed_advances(s: StepRun)
    requires
        waits(s),
        step_wf(s),
    ensures
        after_finished(s, FinalStatusView::Completed) matches Some(t) && !waits(t) && t.retries
            == s.retries,
{
}

} // verus!
