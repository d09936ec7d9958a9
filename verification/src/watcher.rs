//! When waiting for a job can stop.
use vstd::prelude::*;
use crate::types::JobState;

verus! {

/// Whether a job is in a state it will not leave: it has finished.
pub fn is_terminal(job_state: &JobState) -> (r: bool)
    ensures
        r == (job_state is Finished),
{
    match job_state {
        JobState::Finished(_) => true,
        _ => false,
    }
}

} // verus!
