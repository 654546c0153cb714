//! The job registry: a single authoritative store mapping identifiers to
//! job handles.
//!
//! The registry arbitrates creation (identifier allocation plus worker
//! launch), lookup, and expiry. It is generic over the handle type `H` it
//! stores, because handles are owned and mutated by the worker alone; the
//! registry only inserts, looks up, and removes them. Every entry carries
//! the instant at which its scheduled removal falls due, one removal per
//! successful insertion.

use vstd::prelude::*;
use crate::job::IoErrorKind;

verus! {

/// A 128-bit job identifier, drawn from a version-4 UUID. Unpredictable and
/// collision-resistant; immutable once assigned; the sole map key.
#[derive(Clone, Copy, Debug, PartialEq, Eq, Structural)]
pub struct JobId {
    pub raw: u128,
}

/// A request to start a new job, carrying the payload for the worker.
pub struct NewJob(pub crate::job::AcedrgArgs);

/// A request to look a job up by its identifier.
pub struct QueryJob(pub JobId);

/// Why a creation attempt failed. This is the only error the registry
/// itself ever reports.
#[derive(Clone, Copy, Debug, PartialEq, Eq, Structural)]
pub enum CreationError {
    /// The worker could not be launched; carries the underlying cause.
    LaunchFailed(IoErrorKind),
    /// An implausible run of identifier collisions exhausted the retry
    /// budget.
    IdAllocationFailed,
}

/// How many fresh identifiers are drawn before giving up on an implausible
/// run of collisions.
pub const MAX_ID_ATTEMPTS: u64 = 16;

/// The retention window in seconds used by `JobManager::new`: how long
/// after creation an entry stays before its scheduled removal. Kept longer
/// than the worker's own execution timeout so that a still-running job is
/// never evicted.
pub const DEFAULT_RETENTION_SECS: u64 = 900;

/// Relies on `uuid::Uuid::new_v4` and `uuid::Uuid::as_u128`: a freshly
/// drawn random version-4 UUID, returned as its 128-bit value. The draw is
/// random, so nothing is promised of the result.
#[verifier::external_body]
fn random_raw_id() -> (r: u128) {
    uuid::Uuid::new_v4().as_u128()
}

struct JobEntry<H> {
    id: JobId,
    handle: H,
    expires_at: u64,
}

/// The mathematical content of a run of entries: identifier to
/// (handle, removal instant).
spec fn entry_map<H>(s: Seq<JobEntry<H>>) -> Map<u128, (H, u64)>
    decreases s.len(),
{
    if s.len() == 0 {
        Map::empty()
    } else {
        entry_map(s.drop_last()).insert(
            s.last().id.raw,
            (s.last().handle, s.last().expires_at),
        )
    }
}

spec fn ids_distinct<H>(s: Seq<JobEntry<H>>) -> bool {
    forall|i: int, j: int| 0 <= i < j < s.len() ==> s[i].id.raw != s[j].id.raw
}

/// The identifiers in `m` whose scheduled removal has not yet fallen due at
/// `now`: exactly the entries a lookup may still find.
pub open spec fn live_ids<H>(m: Map<u128, (H, u64)>, now: u64) -> Set<u128> {
    Set::new(|k: u128| m.dom().contains(k) && m[k].1 > now)
}

proof fn lemma_entry_map_index<H>(s: Seq<JobEntry<H>>, i: int)
    requires
        0 <= i < s.len(),
    ensures
        entry_map(s).dom().contains(s[i].id.raw),
        ids_distinct(s) ==> entry_map(s)[s[i].id.raw] == (s[i].handle, s[i].expires_at),
    decreases s.len(),
{
    if i < s.len() - 1 {
        lemma_entry_map_index(s.drop_last(), i);
    }
}

proof fn lemma_entry_map_absent<H>(s: Seq<JobEntry<H>>, k: u128)
    requires
        forall|i: int| 0 <= i < s.len() ==> s[i].id.raw != k,
    ensures
        !entry_map(s).dom().contains(k),
    decreases s.len(),
{
    if s.len() > 0 {
        lemma_entry_map_absent(s.drop_last(), k);
    }
}

proof fn lemma_entry_map_remove<H>(s: Seq<JobEntry<H>>, i: int)
    requires
        ids_distinct(s),
        0 <= i < s.len(),
    ensures
        entry_map(s.remove(i)) == entry_map(s).remove(s[i].id.raw),
    decreases s.len(),
{
    let k = s[i].id.raw;
    if i == s.len() - 1 {
        assert(s.remove(i) =~= s.drop_last());
        assert forall|j: int| 0 <= j < s.drop_last().len() implies s.drop_last()[j].id.raw
            != k by {}
        lemma_entry_map_absent(s.drop_last(), k);
        assert(entry_map(s.drop_last()) =~= entry_map(s).remove(k));
    } else {
        assert(s.remove(i).drop_last() =~= s.drop_last().remove(i));
        lemma_entry_map_remove(s.drop_last(), i);
        assert(s.remove(i).last() == s.last());
        assert(entry_map(s.remove(i)) == entry_map(s.drop_last().remove(i)).insert(
            s.last().id.raw,
            (s.last().handle, s.last().expires_at),
        ));
        assert(entry_map(s.drop_last()).remove(k).insert(
            s.last().id.raw,
            (s.last().handle, s.last().expires_at),
        ) =~= entry_map(s).remove(k));
    }
}

/// The single authoritative store mapping job identifiers to handles.
///
/// `H` is the handle type: the worker's live record reference. The registry
/// never reads or mutates a handle's contents; it only owns presence in the
/// map.
pub struct JobManager<H> {
    entries: Vec<JobEntry<H>>,
    retention_secs: u64,
}

impl<H> JobManager<H> {
    /// The registry's mathematical content: identifier to
    /// (handle, removal instant).
    pub closed spec fn table(&self) -> Map<u128, (H, u64)> {
        entry_map(self.entries@)
    }

    /// The fixed retention window, in seconds.
    pub closed spec fn retention_window(&self) -> u64 {
        self.retention_secs
    }

    /// Keys are unique at all times.
    pub closed spec fn wf(&self) -> bool {
        ids_distinct(self.entries@)
    }

    /// A fresh registry with the recommended retention window.
    pub fn new() -> (m: Self)
        ensures
            m.wf(),
            m.table() == Map::<u128, (H, u64)>::empty(),
            m.retention_window() == DEFAULT_RETENTION_SECS,
    {
        Self::with_retention(DEFAULT_RETENTION_SECS)
    }

    /// A fresh registry whose entries are retained for `retention_secs`
    /// after creation. The window must exceed the worker's own maximum
    /// execution timeout; that is the environment's duty.
    pub fn with_retention(retention_secs: u64) -> (m: Self)
        ensures
            m.wf(),
            m.table() == Map::<u128, (H, u64)>::empty(),
            m.retention_window() == retention_secs,
    {
        JobManager { entries: Vec::new(), retention_secs }
    }

    fn find(&self, id: JobId) -> (r: Option<usize>)
        requires
            self.wf(),
        ensures
            match r {
                Some(i) => i < self.entries@.len() && self.entries@[i as int].id.raw == id.raw
                    && self.table().dom().contains(id.raw) && self.table()[id.raw] == (
                self.entries@[i as int].handle,
                self.entries@[i as int].expires_at,
                ),
                None => !self.table().dom().contains(id.raw),
            },
    {
        let mut i: usize = 0;
        while i < self.entries.len()
            invariant
                self.wf(),
                i <= self.entries@.len(),
                forall|j: int| 0 <= j < i ==> self.entries@[j].id.raw != id.raw,
            decreases self.entries@.len() - i,
        {
            if self.entries[i].id.raw == id.raw {
                proof {
                    lemma_entry_map_index(self.entries@, i as int);
                }
                return Some(i);
            }
            i += 1;
        }
        proof {
            lemma_entry_map_absent(self.entries@, id.raw);
        }
        None
    }

    /// Whether an entry for `id` is currently present.
    pub fn contains_job(&self, id: JobId) -> (present: bool)
        requires
            self.wf(),
        ensures
            present == self.table().dom().contains(id.raw),
    {
        self.find(id).is_some()
    }

    /// Pure lookup. Returns a reference to the very handle that was stored
    /// for the identifier, or nothing when the identifier is absent —
    /// absence is a normal outcome, never an error.
    pub fn query(&self, msg: QueryJob) -> (r: Option<&H>)
        requires
            self.wf(),
        ensures
            match r {
                Some(h) => self.table().dom().contains(msg.0.raw) && *h == self.table()[msg.0.raw].0,
                None => !self.table().dom().contains(msg.0.raw),
            },
    {
        match self.find(msg.0) {
            Some(i) => Some(&self.entries[i].handle),
            None => None,
        }
    }

    /// First half of creation: allocate a fresh identifier for the request.
    ///
    /// A random identifier is drawn and, on the astronomically unlikely
    /// collision with a present key, redrawn, up to `MAX_ID_ATTEMPTS`
    /// times; an exhausted budget is reported rather than looping
    /// unboundedly. Whether an attempt succeeds rests on the random draws,
    /// so success in general cannot be promised; what is promised is that
    /// an issued identifier is fresh, and that the budget can only be
    /// exhausted by collisions — where no stored key could collide, in
    /// particular on an empty registry, an identifier is always issued.
    pub fn begin_new_job(&self) -> (r: Result<JobId, CreationError>)
        requires
            self.wf(),
        ensures
            (r matches Ok(id) ==> !self.table().dom().contains(id.raw)),
            (r matches Err(e) ==> e == CreationError::IdAllocationFailed),
            r is Err ==> exists|k: u128| self.table().dom().contains(k),
    {
        let mut attempts: u64 = 0;
        while attempts < MAX_ID_ATTEMPTS
            invariant
                self.wf(),
                attempts > 0 ==> exists|k: u128| self.table().dom().contains(k),
            decreases MAX_ID_ATTEMPTS - attempts,
        {
            let candidate = JobId { raw: random_raw_id() };
            if !self.contains_job(candidate) {
                return Ok(candidate);
            }
            attempts = attempts + 1;
        }
        Err(CreationError::IdAllocationFailed)
    }

    /// Second half of creation: record the worker's launch outcome.
    ///
    /// On a successful launch the handle is stored under the identifier and
    /// the entry's removal is scheduled for `now` plus the retention
    /// window — exactly one scheduled removal per insertion. On a launch
    /// failure the registry is left exactly as it was: no entry, no
    /// scheduled removal; the failure is returned with its cause.
    pub fn finish_new_job(&mut self, id: JobId, launch: Result<H, IoErrorKind>, now: u64) -> (r:
        Result<JobId, CreationError>)
        requires
            old(self).wf(),
            launch is Ok ==> !old(self).table().dom().contains(id.raw),
            launch is Ok ==> now + old(self).retention_window() <= u64::MAX,
        ensures
            final(self).wf(),
            final(self).retention_window() == old(self).retention_window(),
            (launch matches Ok(h) ==> final(self).table() == old(self).table().insert(
                id.raw,
                (h, (now + old(self).retention_window()) as u64),
            ) && r == Ok::<JobId, CreationError>(id)),
            (launch matches Err(k) ==> final(self).table() == old(self).table() && r == Err::<
                JobId,
                CreationError,
            >(CreationError::LaunchFailed(k))),
    {
        match launch {
            Ok(handle) => {
                let expires_at = now + self.retention_secs;
                let ghost s0 = self.entries@;
                self.entries.push(JobEntry { id, handle, expires_at });
                proof {
                    assert(self.entries@.drop_last() =~= s0);
                    assert forall|i: int, j: int|
                        0 <= i < j < self.entries@.len() implies self.entries@[i].id.raw
                        != self.entries@[j].id.raw by {
                        if j == self.entries@.len() - 1 {
                            lemma_entry_map_index(s0, i);
                        }
                    }
                }
                Ok(id)
            },
            Err(kind) => Err(CreationError::LaunchFailed(kind)),
        }
    }

    /// Remove the entry for `id`, if present. Triggered by the scheduled
    /// expiry; idempotent, and a no-op on an absent key, so a duplicate
    /// timer fire changes nothing. It only severs lookup: the worker and
    /// its handle live on independently.
    pub fn remove_job(&mut self, id: JobId)
        requires
            old(self).wf(),
        ensures
            final(self).wf(),
            final(self).retention_window() == old(self).retention_window(),
            final(self).table() == old(self).table().remove(id.raw),
    {
        let ghost s0 = self.entries@;
        match self.find(id) {
            Some(i) => {
                self.entries.remove(i);
                proof {
                    lemma_entry_map_remove(s0, i as int);
                    assert forall|p: int, q: int|
                        0 <= p < q < self.entries@.len() implies self.entries@[p].id.raw
                        != self.entries@[q].id.raw by {
                        assert(self.entries@[p] == s0.remove(i as int)[p]);
                        assert(self.entries@[q] == s0.remove(i as int)[q]);
                    }
                }
            },
            None => {
                proof {
                    assert(old(self).table() =~= old(self).table().remove(id.raw));
                }
            },
        }
    }

    /// Fire every scheduled removal that has fallen due by `now`: exactly
    /// the entries whose removal instant is at or before `now` disappear,
    /// and every other entry is kept untouched, whether or not its job has
    /// finished.
    pub fn expire_due(&mut self, now: u64)
        requires
            old(self).wf(),
        ensures
            final(self).wf(),
            final(self).retention_window() == old(self).retention_window(),
            final(self).table() == old(self).table().restrict(
                live_ids(old(self).table(), now),
            ),
    {
        let ghost s0 = self.entries@;
        let ghost live = live_ids(entry_map(s0), now);
        let ghost target = entry_map(s0).restrict(live);
        let mut kept: Vec<JobEntry<H>> = Vec::new();
        proof {
            assert(self.entries@ =~= s0.take(self.entries@.len() as int));
            assert(target =~= entry_map(kept@).union_prefer_right(
                entry_map(self.entries@).restrict(live),
            ));
        }
        while self.entries.len() > 0
            invariant
                ids_distinct(s0),
                s0 == old(self).entries@,
                live == live_ids(entry_map(s0), now),
                target == entry_map(s0).restrict(live),
                self.retention_secs == old(self).retention_secs,
                self.entries@.len() <= s0.len(),
                self.entries@ == s0.take(self.entries@.len() as int),
                ids_distinct(kept@),
                forall|p: int, q: int|
                    0 <= p < kept@.len() && 0 <= q < self.entries@.len()
                        ==> kept@[p].id.raw != self.entries@[q].id.raw,
                target == entry_map(kept@).union_prefer_right(
                    entry_map(self.entries@).restrict(live),
                ),
            decreases self.entries@.len(),
        {
            let ghost rem_pre = self.entries@;
            let e = self.entries.pop().unwrap();
            proof {
                assert(self.entries@ =~= s0.take(self.entries@.len() as int));
                assert(rem_pre.drop_last() =~= self.entries@);
                assert(e == s0[rem_pre.len() - 1]);
                lemma_entry_map_index(s0, rem_pre.len() - 1);
                assert(entry_map(s0)[e.id.raw] == (e.handle, e.expires_at));
                assert forall|i: int| 0 <= i < self.entries@.len()
                    implies self.entries@[i].id.raw != e.id.raw by {}
                lemma_entry_map_absent(self.entries@, e.id.raw);
                lemma_entry_map_absent(kept@, e.id.raw);
                assert(entry_map(rem_pre) == entry_map(self.entries@).insert(
                    e.id.raw,
                    (e.handle, e.expires_at),
                ));
            }
            if e.expires_at > now {
                let ghost kept_pre = kept@;
                let ghost eid = e.id.raw;
                let ghost eval = (e.handle, e.expires_at);
                kept.push(e);
                proof {
                    assert(kept@.drop_last() =~= kept_pre);
                    assert(entry_map(kept@) == entry_map(kept_pre).insert(eid, eval));
                    assert(live.contains(eid));
                    assert(entry_map(rem_pre).restrict(live) =~= entry_map(
                        self.entries@,
                    ).restrict(live).insert(eid, eval));
                    assert(entry_map(kept_pre).union_prefer_right(
                        entry_map(self.entries@).restrict(live).insert(eid, eval),
                    ) =~= entry_map(kept@).union_prefer_right(
                        entry_map(self.entries@).restrict(live),
                    ));
                    assert forall|p: int, q: int|
                        0 <= p < kept@.len() && 0 <= q < self.entries@.len()
                            implies kept@[p].id.raw != self.entries@[q].id.raw by {}
                }
            } else {
                proof {
                    assert(!live.contains(e.id.raw));
                    assert(entry_map(rem_pre).restrict(live) =~= entry_map(
                        self.entries@,
                    ).restrict(live));
                }
            }
        }
        proof {
            assert(entry_map(self.entries@).restrict(live) =~= Map::<u128, (H, u64)>::empty());
            assert(target =~= entry_map(kept@));
        }
        self.entries = kept;
    }
}

} // verus!
