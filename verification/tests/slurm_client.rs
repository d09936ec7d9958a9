use ai_scheduler::slurm::{
    get_queue_state, parse_finished_output, parse_pending_output, parse_running_output,
    state_query, submission_result, QueueState, SlurmError, StateQuery,
};
use ai_scheduler::types::{FinalJobStatus, JobId, JobIdError, JobState};

fn test_job_id() -> JobId {
    JobId::new("12345".to_owned()).unwrap()
}

#[test]
fn parses_pending_queue_state() {
    assert_eq!(QueueState::from("PENDING"), QueueState::Pending);
    assert_eq!(QueueState::from(" PENDING\n"), QueueState::Pending);
}

#[test]
fn parses_running_queue_state() {
    assert_eq!(QueueState::from("RUNNING"), QueueState::Running);
    assert_eq!(QueueState::from(" RUNNING\n"), QueueState::Running);
}

#[test]
fn empty_queue_state_means_finished() {
    assert_eq!(QueueState::from(""), QueueState::NotInQueue);
    assert_eq!(QueueState::from("\n"), QueueState::NotInQueue);
}

#[test]
fn unsupported_queue_state_is_other() {
    assert_eq!(
        QueueState::from("CONFIGURING"),
        QueueState::Other("CONFIGURING".to_owned())
    );
}

#[test]
fn test_job_id_helper_is_valid() {
    assert_eq!(test_job_id().as_str(), "12345");
}

#[test]
fn queue_state_other_is_trimmed() {
    assert_eq!(
        QueueState::from("\tCOMPLETING  \n"),
        QueueState::Other("COMPLETING".to_owned())
    );
}

#[test]
fn queue_state_default_is_unknown() {
    assert_eq!(QueueState::default(), QueueState::Unknown);
}

#[test]
fn job_id_from_parsable_output_with_cluster() {
    let id = JobId::new(" 4242;cluster_a\n".to_owned()).unwrap();
    assert_eq!(id.as_str(), "4242");
}

#[test]
fn job_id_accepts_plus_sign() {
    assert_eq!(JobId::new("+7".to_owned()).unwrap().as_str(), "+7");
}

#[test]
fn job_id_empty_is_rejected() {
    assert_eq!(JobId::new("  \n".to_owned()), Err(JobIdError::Empty));
    assert_eq!(JobId::new(";cluster".to_owned()), Err(JobIdError::Empty));
}

#[test]
fn job_id_non_number_is_rejected() {
    assert_eq!(JobId::new("12a".to_owned()), Err(JobIdError::InvalidFormat));
    assert_eq!(
        JobId::new("18446744073709551616".to_owned()),
        Err(JobIdError::InvalidFormat)
    );
    assert_eq!(
        JobId::new("18446744073709551615".to_owned()).unwrap().as_str(),
        "18446744073709551615"
    );
}

#[test]
fn job_id_error_messages() {
    assert_eq!(JobIdError::Empty.message(), "job id is empty");
    assert_eq!(
        JobIdError::InvalidFormat.message(),
        "Parse error: job id invalid format"
    );
}

#[test]
fn submission_reads_job_id() {
    let id = submission_result(true, "987\n".to_owned(), String::new()).unwrap();
    assert_eq!(id.as_str(), "987");
}

#[test]
fn submission_failure_keeps_stderr() {
    let r = submission_result(false, "987".to_owned(), "no partition".to_owned());
    assert_eq!(r, Err(SlurmError::SubmitFailed("no partition".to_owned())));
    assert_eq!(
        r.unwrap_err().message(),
        "Failed to submit jobscript with err: no partition"
    );
}

#[test]
fn submission_with_bad_id() {
    let r = submission_result(true, "Submitted batch job".to_owned(), String::new());
    assert_eq!(r, Err(SlurmError::InvalidJobId(JobIdError::InvalidFormat)));
}

#[test]
fn queue_state_from_query_outcome() {
    assert_eq!(get_queue_state(true, "  \n"), Ok(QueueState::NotInQueue));
    assert_eq!(get_queue_state(false, ""), Err(SlurmError::QueueQueryFailed));
    assert_eq!(get_queue_state(false, "PENDING"), Err(SlurmError::QueueQueryFailed));
    assert_eq!(get_queue_state(true, "RUNNING\n"), Ok(QueueState::Running));
    assert_eq!(
        get_queue_state(true, "SUSPENDED"),
        Ok(QueueState::Other("SUSPENDED".to_owned()))
    );
}

#[test]
fn state_query_per_queue_state() {
    assert_eq!(state_query(&QueueState::Pending), Ok(StateQuery::Pending));
    assert_eq!(state_query(&QueueState::Running), Ok(StateQuery::Running));
    assert_eq!(state_query(&QueueState::NotInQueue), Ok(StateQuery::Finished));
    assert_eq!(
        state_query(&QueueState::Other("X".to_owned())),
        Err(SlurmError::UnsupportedQueueState("X".to_owned()))
    );
    assert_eq!(
        state_query(&QueueState::Unknown),
        Err(SlurmError::QueueStateNotPolled)
    );
    assert_eq!(
        SlurmError::UnsupportedQueueState("X".to_owned()).message(),
        "unsupported queue state X"
    );
}

#[test]
fn pending_output_is_parsed() {
    let id = test_job_id();
    let state = parse_pending_output(&id, true, "2024-05-01T10:00:00|/work/md_array.sh\n").unwrap();
    match state {
        JobState::Pending(d) => {
            assert_eq!(d.submit_time, "2024-05-01T10:00:00");
            assert_eq!(d.jobscript.as_path(), "/work/md_array.sh");
            assert_eq!(d.job_id, id);
        }
        other => panic!("unexpected state {:?}", other),
    }
}

#[test]
fn pending_output_errors() {
    let id = test_job_id();
    assert_eq!(
        parse_pending_output(&id, false, "a|b"),
        Err(SlurmError::PendingQueryFailed)
    );
    assert_eq!(
        parse_pending_output(&id, true, "no separator"),
        Err(SlurmError::PendingUnparsable)
    );
}

#[test]
fn running_output_is_parsed() {
    let id = test_job_id();
    let state =
        parse_running_output(&id, true, "2024-05-01T10:00:00|/work/job.sh|node01,node02|1:02:03\n")
            .unwrap();
    match state {
        JobState::Running(d) => {
            assert_eq!(d.jobscript.as_path(), "/work/job.sh");
            assert_eq!(d.nodes, vec!["node01".to_owned(), "node02".to_owned()]);
            assert_eq!(d.uptime, "1:02:03");
            assert_eq!(d.job_id, id);
        }
        other => panic!("unexpected state {:?}", other),
    }
}

#[test]
fn running_output_field_count() {
    let id = test_job_id();
    let r = parse_running_output(&id, true, "a|b|c");
    assert_eq!(r, Err(SlurmError::RunningFieldCount(3)));
    assert_eq!(r.unwrap_err().message(), "Expected fields: 4, got 3");
    assert_eq!(
        parse_running_output(&id, false, "a|b|c|d"),
        Err(SlurmError::RunningQueryFailed)
    );
}

#[test]
fn finished_output_is_parsed() {
    let id = test_job_id();
    let out = "2024-05-01T10:00:00|2024-05-01T11:00:00|01:00:00|COMPLETED|sbatch --parsable /work/vasp_array.sh\n";
    match parse_finished_output(&id, true, out).unwrap() {
        JobState::Finished(d) => {
            assert_eq!(d.start_time, "2024-05-01T10:00:00");
            assert_eq!(d.end_time, "2024-05-01T11:00:00");
            assert_eq!(d.runtime, "01:00:00");
            assert_eq!(d.final_status, FinalJobStatus::Completed);
            assert_eq!(d.jobscript.as_path(), "/work/vasp_array.sh");
        }
        other => panic!("unexpected state {:?}", other),
    }
}

#[test]
fn finished_status_words() {
    let id = test_job_id();
    let status_of = |state: &str| match parse_finished_output(
        &id,
        true,
        &format!("s|e|r|{}|sbatch job.sh", state),
    )
    .unwrap()
    {
        JobState::Finished(d) => d.final_status,
        other => panic!("unexpected state {:?}", other),
    };
    assert_eq!(status_of("CANCELLED by 1000"), FinalJobStatus::Cancelled);
    assert_eq!(status_of("TIMEOUT"), FinalJobStatus::Timeout);
    assert_eq!(status_of("OUT_OF_MEMORY"), FinalJobStatus::OutOfMemory);
    assert_eq!(status_of("FAILED"), FinalJobStatus::Failed);
    assert_eq!(status_of("NODE_FAIL"), FinalJobStatus::Other("NODE_FAIL".to_owned()));
    assert_eq!(status_of("completed"), FinalJobStatus::Other("completed".to_owned()));
}

#[test]
fn finished_submit_line_keeps_extra_separators() {
    let id = test_job_id();
    match parse_finished_output(&id, true, "s|e|r|FAILED|sbatch --comment=a|b job.sh").unwrap() {
        JobState::Finished(d) => assert_eq!(d.jobscript.as_path(), "job.sh"),
        other => panic!("unexpected state {:?}", other),
    }
}

#[test]
fn finished_output_errors() {
    let id = test_job_id();
    assert_eq!(
        parse_finished_output(&id, false, "s|e|r|FAILED|x"),
        Err(SlurmError::FinishedQueryFailed)
    );
    assert_eq!(
        parse_finished_output(&id, true, "s|e|r|FAILED"),
        Err(SlurmError::FinishedFieldCount(4))
    );
    assert_eq!(
        parse_finished_output(&id, true, "s|e|r|  |x"),
        Err(SlurmError::MissingFinalStatus)
    );
    assert_eq!(
        parse_finished_output(&id, true, "s|e|r|FAILED| "),
        Err(SlurmError::MissingJobScript)
    );
}

#[test]
fn final_status_parse_never_fails() {
    assert_eq!(FinalJobStatus::parse_state("TIMEOUT"), FinalJobStatus::Timeout);
    assert_eq!(
        FinalJobStatus::parse_state("PREEMPTED"),
        FinalJobStatus::Other("PREEMPTED".to_owned())
    );
}
