use job_registry::job::IoErrorKind;
use job_registry::registry::CreationError;
use job_registry::registry::JobId;
use job_registry::registry::JobManager;
use job_registry::registry::QueryJob;

#[test]
fn create_then_query_returns_same_handle() {
    let mut mgr: JobManager<u32> = JobManager::with_retention(100);
    let id = mgr.begin_new_job().expect("fresh identifier");
    let created = mgr.finish_new_job(id, Ok(7u32), 0);
    assert_eq!(created, Ok(id));
    assert_eq!(mgr.query(QueryJob(id)), Some(&7u32));
    assert!(mgr.contains_job(id));
}

#[test]
fn empty_registry_always_issues_an_identifier() {
    // With no stored key to collide with, allocation cannot exhaust its
    // retry budget: an identifier is owed.
    let mgr: JobManager<u32> = JobManager::with_retention(100);
    assert!(mgr.begin_new_job().is_ok());
}

#[test]
fn created_ids_are_pairwise_distinct() {
    let mut mgr: JobManager<usize> = JobManager::with_retention(100);
    let mut ids: Vec<JobId> = Vec::new();
    for n in 0..8usize {
        let id = mgr.begin_new_job().expect("fresh identifier");
        mgr.finish_new_job(id, Ok(n), 0).expect("launch recorded");
        ids.push(id);
    }
    for i in 0..ids.len() {
        for j in 0..ids.len() {
            if i != j {
                assert_ne!(ids[i], ids[j]);
            }
        }
    }
}

#[test]
fn entry_present_before_retention_absent_after() {
    let mut mgr: JobManager<u32> = JobManager::with_retention(10);
    let id = mgr.begin_new_job().expect("fresh identifier");
    mgr.finish_new_job(id, Ok(1u32), 5).expect("launch recorded");
    mgr.expire_due(14);
    assert_eq!(mgr.query(QueryJob(id)), Some(&1u32));
    mgr.expire_due(15);
    assert_eq!(mgr.query(QueryJob(id)), None);
}

#[test]
fn default_retention_window_is_fifteen_minutes() {
    let mut mgr: JobManager<u32> = JobManager::new();
    let id = mgr.begin_new_job().expect("fresh identifier");
    mgr.finish_new_job(id, Ok(2u32), 0).expect("launch recorded");
    mgr.expire_due(899);
    assert!(mgr.contains_job(id));
    mgr.expire_due(900);
    assert!(!mgr.contains_job(id));
}

#[test]
fn query_on_never_issued_id_is_not_found() {
    let mut mgr: JobManager<u32> = JobManager::with_retention(100);
    let stranger = JobId { raw: 42 };
    assert_eq!(mgr.query(QueryJob(stranger)), None);
    let id = mgr.begin_new_job().expect("fresh identifier");
    mgr.finish_new_job(id, Ok(9u32), 0).expect("launch recorded");
    if id != stranger {
        assert_eq!(mgr.query(QueryJob(stranger)), None);
    }
    mgr.remove_job(id);
    assert_eq!(mgr.query(QueryJob(stranger)), None);
}

#[test]
fn launch_failure_leaves_registry_unchanged() {
    let mut mgr: JobManager<u32> = JobManager::with_retention(100);
    let id = mgr.begin_new_job().expect("fresh identifier");
    let created = mgr.finish_new_job(id, Err(IoErrorKind::NotFound), 0);
    assert_eq!(
        created,
        Err(CreationError::LaunchFailed(IoErrorKind::NotFound))
    );
    assert_eq!(mgr.query(QueryJob(id)), None);
    // No removal was scheduled either: a later sweep finds nothing to do.
    mgr.expire_due(u64::MAX - 1);
    assert_eq!(mgr.query(QueryJob(id)), None);
}

#[test]
fn removal_is_idempotent() {
    let mut mgr: JobManager<u32> = JobManager::with_retention(100);
    let id = mgr.begin_new_job().expect("fresh identifier");
    mgr.finish_new_job(id, Ok(3u32), 0).expect("launch recorded");
    mgr.remove_job(id);
    assert_eq!(mgr.query(QueryJob(id)), None);
    // A duplicate timer fire: no error, no observable change.
    mgr.remove_job(id);
    assert_eq!(mgr.query(QueryJob(id)), None);
    // Removing an identifier that was never issued is a no-op too.
    mgr.remove_job(JobId { raw: 7 });
}

#[test]
fn expiry_keeps_later_entries() {
    let mut mgr: JobManager<u32> = JobManager::with_retention(10);
    let early = mgr.begin_new_job().expect("fresh identifier");
    mgr.finish_new_job(early, Ok(1u32), 0).expect("launch recorded");
    let late = mgr.begin_new_job().expect("fresh identifier");
    mgr.finish_new_job(late, Ok(2u32), 6).expect("launch recorded");
    mgr.expire_due(12);
    assert_eq!(mgr.query(QueryJob(early)), None);
    assert_eq!(mgr.query(QueryJob(late)), Some(&2u32));
}
