//! The life cycle of aggregation jobs: pending, running, then completed or
//! failed; a failed job may run again until its retries are used up.

use crate::table::TextMap;
use crate::text::text_of;
use vstd::prelude::*;

verus! {

/// Where a job stands.
#[derive(Debug, Clone, Copy, PartialEq, Eq, Structural)]
pub enum JobStatus {
    Pending,
    Running,
    Completed,
    Failed,
}

/// Why an operation on a job was refused.
#[derive(Debug, Clone, Copy, PartialEq, Eq, Structural)]
pub enum JobError {
    /// No job has this id.
    UnknownJob,
    /// The job is in a state from which the operation is not allowed.
    InvalidTransition { from: JobStatus },
    /// The job failed as often as it may be retried.
    RetriesExhausted { retry_count: u32 },
}

/// One aggregation job. Hours are counted from the epoch.
#[derive(Debug, Clone)]
pub struct AggregationJob {
    pub job_id: String,
    pub job_type: String,
    pub status: JobStatus,
    pub retry_count: u32,
    pub last_processed_hour: Option<u64>,
    pub error_message: Option<String>,
}

/// A job as a plain value.
pub struct JobView {
    pub job_id: Seq<char>,
    pub job_type: Seq<char>,
    pub status: JobStatus,
    pub retry_count: u32,
    pub last_processed_hour: Option<u64>,
    pub error_message: Option<Seq<char>>,
}

impl View for AggregationJob {
    type V = JobView;

    open spec fn view(&self) -> JobView {
        JobView {
            job_id: self.job_id@,
            job_type: self.job_type@,
            status: self.status,
            retry_count: self.retry_count,
            last_processed_hour: self.last_processed_hour,
            error_message: text_of(self.error_message),
        }
    }
}

/// A job that was just created.
pub open spec fn created(job_id: Seq<char>, job_type: Seq<char>) -> JobView {
    JobView {
        job_id,
        job_type,
        status: JobStatus::Pending,
        retry_count: 0,
        last_processed_hour: None,
        error_message: None,
    }
}

/// The job after it was started: a pending job runs, and a failed job runs
/// again while it has retries left.
pub open spec fn started(job: JobView, max_retries: u32) -> Result<JobView, JobError> {
    match job.status {
        JobStatus::Pending => Ok(JobView { status: JobStatus::Running, ..job }),
        JobStatus::Failed => if job.retry_count < max_retries {
            Ok(JobView { status: JobStatus::Running, ..job })
        } else {
            Err(JobError::RetriesExhausted { retry_count: job.retry_count })
        },
        other => Err(JobError::InvalidTransition { from: other }),
    }
}

/// The later of a watermark and an hour.
pub open spec fn advanced(watermark: Option<u64>, hour: u64) -> Option<u64> {
    match watermark {
        Some(current) if current > hour => Some(current),
        _ => Some(hour),
    }
}

/// The job after it completed up to `last_hour`: the watermark advances to
/// that hour unless it is already beyond it.
pub open spec fn completed(job: JobView, last_hour: u64) -> Result<JobView, JobError> {
    match job.status {
        JobStatus::Running => Ok(
            JobView {
                status: JobStatus::Completed,
                last_processed_hour: advanced(job.last_processed_hour, last_hour),
                error_message: None,
                ..job
            },
        ),
        other => Err(JobError::InvalidTransition { from: other }),
    }
}

/// The job after it failed: the error is recorded and the retry count goes
/// up by one, as far as its type allows; the watermark stays.
pub open spec fn failed(job: JobView, error: Seq<char>) -> Result<JobView, JobError> {
    match job.status {
        JobStatus::Running => Ok(
            JobView {
                status: JobStatus::Failed,
                retry_count: if job.retry_count < u32::MAX {
                    (job.retry_count + 1) as u32
                } else {
                    job.retry_count
                },
                error_message: Some(error),
                ..job
            },
        ),
        other => Err(JobError::InvalidTransition { from: other }),
    }
}

/// The steps that the life cycle allows.
pub open spec fn allowed(from: JobStatus, to: JobStatus) -> bool {
    ||| from == JobStatus::Pending && to == JobStatus::Running
    ||| from == JobStatus::Running && to == JobStatus::Completed
    ||| from == JobStatus::Running && to == JobStatus::Failed
    ||| from == JobStatus::Failed && to == JobStatus::Running
}

/// Whether a watermark is at or before another.
pub open spec fn not_after(earlier: Option<u64>, later: Option<u64>) -> bool {
    match (earlier, later) {
        (None, _) => true,
        (Some(a), Some(b)) => a <= b,
        (Some(_), None) => false,
    }
}

/// Every operation that succeeds takes an allowed step, never rewinds the
/// watermark and never lowers the retry count. Only a completion moves the
/// watermark, and only a failure raises the retry count.
pub proof fn lemma_life_cycle(job: JobView, max_retries: u32, hour: u64, error: Seq<char>)
    ensures
        started(job, max_retries) is Ok ==> {
            let after = started(job, max_retries)->Ok_0;
            &&& allowed(job.status, after.status)
            &&& after.last_processed_hour == job.last_processed_hour
            &&& after.retry_count == job.retry_count
        },
        completed(job, hour) is Ok ==> {
            let after = completed(job, hour)->Ok_0;
            &&& allowed(job.status, after.status)
            &&& not_after(job.last_processed_hour, after.last_processed_hour)
            &&& not_after(Some(hour), after.last_processed_hour)
            &&& after.retry_count == job.retry_count
        },
        failed(job, error) is Ok ==> {
            let after = failed(job, error)->Ok_0;
            &&& allowed(job.status, after.status)
            &&& after.last_processed_hour == job.last_processed_hour
            &&& after.retry_count >= job.retry_count
        },
{
}

impl JobStatus {
    /// The name under which the status is stored.
    pub fn as_str(&self) -> (name: &'static str)
        ensures
            name@ == match *self {
                JobStatus::Pending => "pending"@,
                JobStatus::Running => "running"@,
                JobStatus::Completed => "completed"@,
                JobStatus::Failed => "failed"@,
            },
    {
        match self {
            JobStatus::Pending => "pending",
            JobStatus::Running => "running",
            JobStatus::Completed => "completed",
            JobStatus::Failed => "failed",
        }
    }
}

impl AggregationJob {
    /// A new job, pending.
    pub fn new(job_id: &str, job_type: &str) -> (job: Self)
        ensures
            job@ == created(job_id@, job_type@),
    {
        AggregationJob {
            job_id: job_id.to_owned(),
            job_type: job_type.to_owned(),
            status: JobStatus::Pending,
            retry_count: 0,
            last_processed_hour: None,
            error_message: None,
        }
    }

    /// A copy of the job.
    pub fn duplicate(&self) -> (copy: Self)
        ensures
            copy@ == self@,
    {
        AggregationJob {
            job_id: self.job_id.clone(),
            job_type: self.job_type.clone(),
            status: self.status,
            retry_count: self.retry_count,
            last_processed_hour: self.last_processed_hour,
            error_message: match &self.error_message {
                Some(message) => Some(message.clone()),
                None => None,
            },
        }
    }

    /// Starts the job, or starts it again after a failure.
    pub fn start(self, max_retries: u32) -> (after: Result<Self, JobError>)
        ensures
            match started(self@, max_retries) {
                Ok(view) => after is Ok && after->Ok_0@ == view,
                Err(error) => after == Err::<Self, JobError>(error),
            },
    {
        match self.status {
            JobStatus::Pending => Ok(AggregationJob { status: JobStatus::Running, ..self }),
            JobStatus::Failed => {
                if self.retry_count < max_retries {
                    Ok(AggregationJob { status: JobStatus::Running, ..self })
                } else {
                    Err(JobError::RetriesExhausted { retry_count: self.retry_count })
                }
            },
            other => Err(JobError::InvalidTransition { from: other }),
        }
    }

    /// Completes the running job up to `last_hour`.
    pub fn complete(self, last_hour: u64) -> (after: Result<Self, JobError>)
        ensures
            match completed(self@, last_hour) {
                Ok(view) => after is Ok && after->Ok_0@ == view,
                Err(error) => after == Err::<Self, JobError>(error),
            },
    {
        match self.status {
            JobStatus::Running => {
                let watermark = match self.last_processed_hour {
                    Some(current) => if current > last_hour {
                        current
                    } else {
                        last_hour
                    },
                    None => last_hour,
                };
                Ok(
                    AggregationJob {
                        status: JobStatus::Completed,
                        last_processed_hour: Some(watermark),
                        error_message: None,
                        ..self
                    },
                )
            },
            other => Err(JobError::InvalidTransition { from: other }),
        }
    }

    /// Marks the running job as failed with the given error.
    pub fn fail(self, error: &str) -> (after: Result<Self, JobError>)
        ensures
            match failed(self@, error@) {
                Ok(view) => after is Ok && after->Ok_0@ == view,
                Err(error) => after == Err::<Self, JobError>(error),
            },
    {
        match self.status {
            JobStatus::Running => {
                let retry_count = if self.retry_count < u32::MAX {
                    self.retry_count + 1
                } else {
                    self.retry_count
                };
                Ok(
                    AggregationJob {
                        status: JobStatus::Failed,
                        retry_count,
                        error_message: Some(error.to_owned()),
                        ..self
                    },
                )
            },
            other => Err(JobError::InvalidTransition { from: other }),
        }
    }
}

/// The jobs by id, and the number of times a failed job may run again.
pub struct AggregationJobManager {
    jobs: TextMap<AggregationJob>,
    max_retries: u32,
}

impl View for AggregationJobManager {
    type V = Map<Seq<char>, JobView>;

    closed spec fn view(&self) -> Map<Seq<char>, JobView> {
        Map::new(|id: Seq<char>| self.jobs@.contains_key(id), |id: Seq<char>| self.jobs@[id]@)
    }
}

/// The jobs after an operation on the job `id` whose result is `result`:
/// the job is replaced if the operation succeeded, and nothing changes if
/// it was refused.
pub open spec fn applied(
    jobs: Map<Seq<char>, JobView>,
    id: Seq<char>,
    result: Result<JobView, JobError>,
) -> Map<Seq<char>, JobView> {
    match result {
        Ok(job) => jobs.insert(id, job),
        Err(_) => jobs,
    }
}

/// The result of an operation as its caller sees it.
pub open spec fn verdict(result: Result<JobView, JobError>) -> Result<(), JobError> {
    match result {
        Ok(_) => Ok(()),
        Err(error) => Err(error),
    }
}

impl AggregationJobManager {
    /// Whether the manager is well formed.
    pub closed spec fn wf(&self) -> bool {
        self.jobs.wf()
    }

    /// The number of times a failed job may run again.
    pub closed spec fn retry_limit(&self) -> u32 {
        self.max_retries
    }

    /// A manager without jobs.
    pub fn new(max_retries: u32) -> (manager: Self)
        ensures
            manager.wf(),
            manager.retry_limit() == max_retries,
            manager@ == Map::<Seq<char>, JobView>::empty(),
    {
        let manager = AggregationJobManager { jobs: TextMap::new(), max_retries };
        assert(manager@ =~= Map::<Seq<char>, JobView>::empty());
        manager
    }

    /// Creates a pending job unless a job with this id exists.
    pub fn create_aggregation_job(&mut self, job_id: &str, job_type: &str)
        requires
            old(self).wf(),
        ensures
            final(self).wf(),
            final(self).retry_limit() == old(self).retry_limit(),
            final(self)@ == if old(self)@.contains_key(job_id@) {
                old(self)@
            } else {
                old(self)@.insert(job_id@, created(job_id@, job_type@))
            },
    {
        if !self.jobs.contains_key(job_id) {
            self.jobs.insert(job_id.to_owned(), AggregationJob::new(job_id, job_type));
            assert(self@ =~= old(self)@.insert(job_id@, created(job_id@, job_type@)));
        } else {
            assert(self@ =~= old(self)@);
        }
    }

    /// Starts the job: it is created if it does not exist, and runs if the
    /// life cycle allows it.
    pub fn start(&mut self, job_id: &str, job_type: &str) -> (outcome: Result<(), JobError>)
        requires
            old(self).wf(),
        ensures
            final(self).wf(),
            final(self).retry_limit() == old(self).retry_limit(),
            ({
                let job = if old(self)@.contains_key(job_id@) {
                    old(self)@[job_id@]
                } else {
                    created(job_id@, job_type@)
                };
                let result = started(job, old(self).retry_limit());
                &&& outcome == verdict(result)
                &&& final(self)@ == applied(old(self)@, job_id@, result)
            }),
    {
        let job = match self.jobs.get(job_id) {
            Some(job) => job.duplicate(),
            None => AggregationJob::new(job_id, job_type),
        };
        match job.start(self.max_retries) {
            Ok(after) => {
                self.jobs.insert(job_id.to_owned(), after);
                assert(self@ =~= old(self)@.insert(job_id@, after@));
                Ok(())
            },
            Err(error) => {
                assert(self@ =~= old(self)@);
                Err(error)
            },
        }
    }

    /// Completes the running job and advances its watermark to `last_hour`
    /// unless the watermark is already beyond that hour.
    pub fn complete(&mut self, job_id: &str, last_hour: u64) -> (outcome: Result<(), JobError>)
        requires
            old(self).wf(),
        ensures
            final(self).wf(),
            final(self).retry_limit() == old(self).retry_limit(),
            if old(self)@.contains_key(job_id@) {
                let result = completed(old(self)@[job_id@], last_hour);
                &&& outcome == verdict(result)
                &&& final(self)@ == applied(old(self)@, job_id@, result)
            } else {
                &&& outcome == Err::<(), JobError>(JobError::UnknownJob)
                &&& final(self)@ == old(self)@
            },
    {
        let job = match self.jobs.get(job_id) {
            Some(job) => job.duplicate(),
            None => {
                return Err(JobError::UnknownJob);
            },
        };
        match job.complete(last_hour) {
            Ok(after) => {
                self.jobs.insert(job_id.to_owned(), after);
                assert(self@ =~= old(self)@.insert(job_id@, after@));
                Ok(())
            },
            Err(error) => {
                assert(self@ =~= old(self)@);
                Err(error)
            },
        }
    }

    /// Marks the running job as failed: records the error and counts the
    /// failure; the watermark stays where it is.
    pub fn fail(&mut self, job_id: &str, error: &str) -> (outcome: Result<(), JobError>)
        requires
            old(self).wf(),
        ensures
            final(self).wf(),
            final(self).retry_limit() == old(self).retry_limit(),
            if old(self)@.contains_key(job_id@) {
                let result = failed(old(self)@[job_id@], error@);
                &&& outcome == verdict(result)
                &&& final(self)@ == applied(old(self)@, job_id@, result)
            } else {
                &&& outcome == Err::<(), JobError>(JobError::UnknownJob)
                &&& final(self)@ == old(self)@
            },
    {
        let job = match self.jobs.get(job_id) {
            Some(job) => job.duplicate(),
            None => {
                return Err(JobError::UnknownJob);
            },
        };
        match job.fail(error) {
            Ok(after) => {
                self.jobs.insert(job_id.to_owned(), after);
                assert(self@ =~= old(self)@.insert(job_id@, after@));
                Ok(())
            },
            Err(error) => {
                assert(self@ =~= old(self)@);
                Err(error)
            },
        }
    }

    /// A copy of the job with this id, if there is one.
    pub fn job(&self, job_id: &str) -> (found: Option<AggregationJob>)
        requires
            self.wf(),
        ensures
            match found {
                Some(job) => self@.contains_key(job_id@) && job@ == self@[job_id@],
                None => !self@.contains_key(job_id@),
            },
    {
        match self.jobs.get(job_id) {
            Some(job) => Some(job.duplicate()),
            None => None,
        }
    }

    /// How often the job has failed so far.
    pub fn get_job_retry_count(&self, job_id: &str) -> (count: Result<u32, JobError>)
        requires
            self.wf(),
        ensures
            count == if self@.contains_key(job_id@) {
                Ok::<u32, JobError>(self@[job_id@].retry_count)
            } else {
                Err::<u32, JobError>(JobError::UnknownJob)
            },
    {
        match self.jobs.get(job_id) {
            Some(job) => Ok(job.retry_count),
            None => Err(JobError::UnknownJob),
        }
    }

    /// The watermark of the job: the last hour up to which it completed,
    /// from which a failed job resumes; nothing if it never completed.
    pub fn last_processed_hour(&self, job_id: &str) -> (hour: Result<Option<u64>, JobError>)
        requires
            self.wf(),
        ensures
            hour == if self@.contains_key(job_id@) {
                Ok::<Option<u64>, JobError>(self@[job_id@].last_processed_hour)
            } else {
                Err::<Option<u64>, JobError>(JobError::UnknownJob)
            },
    {
        match self.jobs.get(job_id) {
            Some(job) => Ok(job.last_processed_hour),
            None => Err(JobError::UnknownJob),
        }
    }
}

} // verus!
