//! The per-job status model: what a single unit of work reports while it
//! runs and once it reaches its terminal state.
//!
//! A job's live record (`JobData`) is written only by the worker that runs
//! the job; the registry and any callers merely hold references to it. The
//! record starts out `Pending` and is moved exactly once to a terminal
//! status, filling in captured output exactly when the underlying tool
//! actually ran.

use vstd::prelude::*;

verus! {

/// The request payload for one job: the molecule description and the extra
/// command-line arguments handed to the external tool. The registry treats
/// it as opaque, already-validated data.
#[derive(Clone, Debug)]
pub struct AcedrgArgs {
    pub smiles: String,
    pub commandline_args: Vec<String>,
}

/// Captured standard output and standard error text of a run of the
/// external tool.
#[derive(Clone, Debug)]
pub struct JobOutput {
    pub stdout: String,
    pub stderr: String,
}

/// The category of a system-level failure, kept as a plain value so that
/// contracts can speak about it.
#[derive(Clone, Copy, Debug, PartialEq, Eq, Structural)]
pub enum IoErrorKind {
    NotFound,
    PermissionDenied,
    Interrupted,
    Other,
}

/// Why a job failed.
#[derive(Clone, Copy, Debug, PartialEq, Eq, Structural)]
pub enum JobFailureReason {
    /// The worker exceeded its allotted execution time.
    TimedOut,
    /// A system-level error occurred launching or talking to the worker.
    IOError(IoErrorKind),
    /// The external tool ran but reported a failure of its own.
    AcedrgError,
}

/// Where a job currently stands.
#[derive(Clone, Copy, Debug, PartialEq, Eq, Structural)]
pub enum JobStatus {
    Pending,
    Finished,
    Failed(JobFailureReason),
}

/// The terminal report a worker delivers for its job, exactly once.
#[derive(Clone, Debug)]
pub enum WorkerOutcome {
    /// The tool ran to completion; its captured output.
    Success(JobOutput),
    /// The tool ran but exited with a failure; its captured diagnostics.
    AcedrgFailure(JobOutput),
    /// The tool exceeded its allotted execution time.
    TimedOut,
    /// The tool could not be launched or communicated with.
    IoFailure(IoErrorKind),
}

/// The live record of one job: its current status and, once available, the
/// captured output.
#[derive(Clone, Debug)]
pub struct JobData {
    pub status: JobStatus,
    /// Filled exactly when the tool meaningfully ran: on `Finished` and on
    /// `Failed(AcedrgError)`; absent while `Pending` and on
    /// `Failed(TimedOut)` and `Failed(IOError(_))`.
    pub job_output: Option<JobOutput>,
}

impl JobData {
    /// The statuses on which captured output must be present.
    pub open spec fn output_expected(self) -> bool {
        self.status == JobStatus::Finished
            || self.status == JobStatus::Failed(JobFailureReason::AcedrgError)
    }

    /// Status/output pairing: output is present if and only if the tool
    /// meaningfully ran.
    pub open spec fn wf(self) -> bool {
        self.job_output is Some <==> self.output_expected()
    }

    /// Whether the job has reached a terminal status.
    pub open spec fn is_terminal(self) -> bool {
        self.status != JobStatus::Pending
    }

    /// A freshly accepted job: pending, with no output yet.
    pub fn new_pending() -> (d: JobData)
        ensures
            d.status == JobStatus::Pending,
            d.job_output is None,
            d.wf(),
            !d.is_terminal(),
    {
        JobData { status: JobStatus::Pending, job_output: None }
    }

    /// Whether the record is still pending; the worker may deliver its
    /// outcome only while this holds.
    pub fn is_pending(&self) -> (p: bool)
        ensures
            p == !self.is_terminal(),
    {
        matches!(self.status, JobStatus::Pending)
    }

    /// Record the worker's terminal outcome. This is the single transition a
    /// job record ever makes: from `Pending` to one terminal status, with
    /// output present exactly when the tool meaningfully ran.
    pub fn apply_outcome(&mut self, outcome: WorkerOutcome)
        requires
            !old(self).is_terminal(),
        ensures
            final(self).wf(),
            final(self).is_terminal(),
            (outcome matches WorkerOutcome::Success(out) ==> final(self).status
                == JobStatus::Finished && final(self).job_output == Some(out)),
            (outcome matches WorkerOutcome::AcedrgFailure(out) ==> final(self).status
                == JobStatus::Failed(JobFailureReason::AcedrgError) && final(self).job_output
                == Some(out)),
            (outcome matches WorkerOutcome::TimedOut ==> final(self).status
                == JobStatus::Failed(JobFailureReason::TimedOut) && final(self).job_output
                is None),
            (outcome matches WorkerOutcome::IoFailure(k) ==> final(self).status
                == JobStatus::Failed(JobFailureReason::IOError(k)) && final(self).job_output
                is None),
    {
        match outcome {
            WorkerOutcome::Success(out) => {
                self.status = JobStatus::Finished;
                self.job_output = Some(out);
            },
            WorkerOutcome::AcedrgFailure(out) => {
                self.status = JobStatus::Failed(JobFailureReason::AcedrgError);
                self.job_output = Some(out);
            },
            WorkerOutcome::TimedOut => {
                self.status = JobStatus::Failed(JobFailureReason::TimedOut);
                self.job_output = None;
            },
            WorkerOutcome::IoFailure(kind) => {
                self.status = JobStatus::Failed(JobFailureReason::IOError(kind));
                self.job_output = None;
            },
        }
    }
}

} // verus!
