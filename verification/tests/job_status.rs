use job_registry::job::IoErrorKind;
use job_registry::job::JobData;
use job_registry::job::JobFailureReason;
use job_registry::job::JobOutput;
use job_registry::job::JobStatus;
use job_registry::job::WorkerOutcome;

#[test]
fn fresh_job_is_pending_without_output() {
    let d = JobData::new_pending();
    assert_eq!(d.status, JobStatus::Pending);
    assert!(d.job_output.is_none());
    assert!(d.is_pending());
}

#[test]
fn timed_out_job_has_no_output() {
    let mut d = JobData::new_pending();
    d.apply_outcome(WorkerOutcome::TimedOut);
    assert_eq!(d.status, JobStatus::Failed(JobFailureReason::TimedOut));
    assert!(d.job_output.is_none());
    assert!(!d.is_pending());
}

#[test]
fn tool_failure_keeps_captured_diagnostics() {
    let mut d = JobData::new_pending();
    d.apply_outcome(WorkerOutcome::AcedrgFailure(JobOutput {
        stdout: String::new(),
        stderr: String::from("boom"),
    }));
    assert_eq!(d.status, JobStatus::Failed(JobFailureReason::AcedrgError));
    let out = d.job_output.expect("diagnostics are kept");
    assert_eq!(out.stderr, "boom");
}

#[test]
fn successful_job_keeps_captured_output() {
    let mut d = JobData::new_pending();
    d.apply_outcome(WorkerOutcome::Success(JobOutput {
        stdout: String::from("ok"),
        stderr: String::new(),
    }));
    assert_eq!(d.status, JobStatus::Finished);
    let out = d.job_output.expect("output is kept");
    assert_eq!(out.stdout, "ok");
}

#[test]
fn io_failure_records_its_category_without_output() {
    let mut d = JobData::new_pending();
    d.apply_outcome(WorkerOutcome::IoFailure(IoErrorKind::PermissionDenied));
    assert_eq!(
        d.status,
        JobStatus::Failed(JobFailureReason::IOError(IoErrorKind::PermissionDenied))
    );
    assert!(d.job_output.is_none());
}
