use ai_scheduler::pipeline::{
    DftCode, MdEngine, ModelBackend, ObcMethod, Reaction, RunError, StepAction, StepRun,
};
use ai_scheduler::types::{
    FinalJobStatus, FinishedData, JobId, JobScript, JobState, PendingData,
};
use ai_scheduler::watcher::is_terminal;

#[test]
fn completed_job_advances() {
    let mut run = StepRun::start(2);
    assert_eq!(run.next_action(), StepAction::Wait);
    assert_eq!(run.on_finished(&FinalJobStatus::Completed), Ok(Reaction::Complete));
    assert_eq!(run.next_action(), StepAction::Advance);
}

#[test]
fn timeouts_resubmit_until_retries_run_out() {
    let mut run = StepRun::start(2);
    let mut resubmits = 0;
    while run.next_action() == StepAction::Wait {
        assert_eq!(run.on_finished(&FinalJobStatus::Timeout), Ok(Reaction::Resubmit));
        resubmits += 1;
    }
    assert_eq!(resubmits, 2);
    assert_eq!(run.retries, 2);
}

#[test]
fn zero_retries_never_waits() {
    let run = StepRun::start(0);
    assert_eq!(run.next_action(), StepAction::Advance);
}

#[test]
fn failures_stop_the_pipeline() {
    for (status, err) in [
        (FinalJobStatus::OutOfMemory, RunError::OutOfMemory),
        (FinalJobStatus::Cancelled, RunError::Cancelled),
        (FinalJobStatus::Failed, RunError::Failed),
        (
            FinalJobStatus::Other("NODE_FAIL".to_owned()),
            RunError::UnknownStatus("NODE_FAIL".to_owned()),
        ),
    ] {
        let mut run = StepRun::start(3);
        assert_eq!(run.on_finished(&status), Err(err));
        assert_eq!(run, StepRun::start(3));
    }
    assert_eq!(RunError::OutOfMemory.message(), "Out of memory");
    assert_eq!(RunError::Cancelled.message(), "Job cancelled");
    assert_eq!(RunError::Failed.message(), "Job failed");
    assert_eq!(
        RunError::UnknownStatus("X".to_owned()).message(),
        "Unknown status: X"
    );
}

#[test]
fn step_names() {
    assert_eq!(MdEngine::Lammps.as_str(), "lammps");
    assert_eq!(DftCode::Vasp.as_str(), "vasp");
    assert_eq!(ModelBackend::Upet.as_str(), "UPET");
    assert_eq!(ModelBackend::N2p2.as_str(), "n2p2");
    assert_eq!(
        ObcMethod::Rrmsfd.as_str(),
        "RRMSFD (relative root mean squared force deviation)"
    );
}

#[test]
fn only_finished_jobs_are_terminal() {
    let id = JobId::new("1".to_owned()).unwrap();
    let finished = JobState::Finished(FinishedData {
        jobscript: JobScript::new("job.sh".to_owned()),
        job_id: id.clone(),
        start_time: String::new(),
        end_time: String::new(),
        runtime: String::new(),
        final_status: FinalJobStatus::Completed,
    });
    let pending = JobState::Pending(PendingData {
        jobscript: JobScript::new("job.sh".to_owned()),
        job_id: id,
        submit_time: String::new(),
    });
    assert!(is_terminal(&finished));
    assert!(!is_terminal(&pending));
    assert!(!is_terminal(&JobState::Other("x".to_owned())));
}
