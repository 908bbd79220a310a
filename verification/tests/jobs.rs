use insights_core::jobs::{AggregationJob, AggregationJobManager, JobError, JobStatus};

#[test]
fn start_creates_and_runs() {
    let mut manager = AggregationJobManager::new(3);
    assert_eq!(manager.start("hourly-1", "hourly_corridor"), Ok(()));
    let job = manager.job("hourly-1").unwrap();
    assert_eq!(job.job_id, "hourly-1");
    assert_eq!(job.job_type, "hourly_corridor");
    assert_eq!(job.status, JobStatus::Running);
    assert_eq!(job.retry_count, 0);
    assert_eq!(job.last_processed_hour, None);
    assert_eq!(job.error_message, None);
    assert_eq!(
        manager.start("hourly-1", "hourly_corridor"),
        Err(JobError::InvalidTransition { from: JobStatus::Running })
    );
}

#[test]
fn complete_advances_the_watermark_but_never_rewinds_it() {
    let mut manager = AggregationJobManager::new(3);
    manager.start("j", "t").unwrap();
    assert_eq!(manager.complete("j", 100), Ok(()));
    assert_eq!(manager.last_processed_hour("j"), Ok(Some(100)));
    assert_eq!(manager.job("j").unwrap().status, JobStatus::Completed);
    assert_eq!(
        manager.complete("j", 200),
        Err(JobError::InvalidTransition { from: JobStatus::Completed })
    );
    assert_eq!(
        manager.start("j", "t"),
        Err(JobError::InvalidTransition { from: JobStatus::Completed })
    );

    let job = AggregationJob::new("k", "t").start(1).unwrap();
    let job = job.complete(50).unwrap();
    assert_eq!(job.last_processed_hour, Some(50));
    let mut again = job.duplicate();
    again.status = JobStatus::Running;
    let again = again.complete(40).unwrap();
    assert_eq!(again.last_processed_hour, Some(50));
    let mut more = again.duplicate();
    more.status = JobStatus::Running;
    assert_eq!(more.complete(51).unwrap().last_processed_hour, Some(51));
}

#[test]
fn fail_counts_and_keeps_the_watermark_and_retries_are_limited() {
    let mut manager = AggregationJobManager::new(2);
    manager.start("j", "t").unwrap();
    assert_eq!(manager.fail("j", "disk full"), Ok(()));
    let job = manager.job("j").unwrap();
    assert_eq!(job.status, JobStatus::Failed);
    assert_eq!(job.retry_count, 1);
    assert_eq!(job.error_message, Some("disk full".to_string()));
    assert_eq!(job.last_processed_hour, None);
    assert_eq!(manager.get_job_retry_count("j"), Ok(1));

    assert_eq!(manager.start("j", "t"), Ok(()));
    assert_eq!(manager.job("j").unwrap().retry_count, 1);
    assert_eq!(manager.fail("j", "again"), Ok(()));
    assert_eq!(manager.get_job_retry_count("j"), Ok(2));
    assert_eq!(manager.start("j", "t"), Err(JobError::RetriesExhausted { retry_count: 2 }));
    assert_eq!(manager.job("j").unwrap().status, JobStatus::Failed);
    assert_eq!(
        manager.fail("j", "x"),
        Err(JobError::InvalidTransition { from: JobStatus::Failed })
    );
}

#[test]
fn a_rerun_that_completes_clears_the_error() {
    let mut manager = AggregationJobManager::new(5);
    manager.start("j", "t").unwrap();
    manager.fail("j", "boom").unwrap();
    manager.start("j", "t").unwrap();
    manager.complete("j", 7).unwrap();
    let job = manager.job("j").unwrap();
    assert_eq!(job.status, JobStatus::Completed);
    assert_eq!(job.error_message, None);
    assert_eq!(job.retry_count, 1);
    assert_eq!(job.last_processed_hour, Some(7));
}

#[test]
fn unknown_jobs_are_reported() {
    let mut manager = AggregationJobManager::new(1);
    assert_eq!(manager.complete("nope", 1), Err(JobError::UnknownJob));
    assert_eq!(manager.fail("nope", "e"), Err(JobError::UnknownJob));
    assert_eq!(manager.get_job_retry_count("nope"), Err(JobError::UnknownJob));
    assert_eq!(manager.last_processed_hour("nope"), Err(JobError::UnknownJob));
    assert!(manager.job("nope").is_none());
}

#[test]
fn create_is_a_no_op_for_an_existing_job() {
    let mut manager = AggregationJobManager::new(1);
    manager.create_aggregation_job("j", "first");
    assert_eq!(manager.job("j").unwrap().status, JobStatus::Pending);
    manager.start("j", "ignored").unwrap();
    manager.create_aggregation_job("j", "second");
    let job = manager.job("j").unwrap();
    assert_eq!(job.status, JobStatus::Running);
    assert_eq!(job.job_type, "first");
}

#[test]
fn retry_count_saturates() {
    let mut job = AggregationJob::new("j", "t");
    job.status = JobStatus::Running;
    job.retry_count = u32::MAX;
    assert_eq!(job.fail("e").unwrap().retry_count, u32::MAX);
}

#[test]
fn job_status_names() {
    assert_eq!(JobStatus::Pending.as_str(), "pending");
    assert_eq!(JobStatus::Running.as_str(), "running");
    assert_eq!(JobStatus::Completed.as_str(), "completed");
    assert_eq!(JobStatus::Failed.as_str(), "failed");
}
