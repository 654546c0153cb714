//! Registry-wide laws, stated over the registry's mathematical model and
//! proved once and for all.
//!
//! Each method of `JobManager` states its own contract over the view
//! `JobManager::table`. The lemmas here chain those contracts together
//! into the guarantees a caller of the whole lifecycle relies on:
//! issued identifiers never collide, a created entry is found until its
//! removal falls due and not after, an identifier never issued is never
//! found, and firing a removal twice is the same as firing it once.

use vstd::prelude::*;
use crate::registry::live_ids;

verus! {

/// Uniqueness: over any run of successful creations — each inserting an
/// identifier that was fresh at its turn, as `finish_new_job` ensures —
/// the issued identifiers are pairwise distinct.
///
/// `states[i]` is the table before the `i`-th creation; `ids[i]` and
/// `vals[i]` are the identifier it issued and the entry it stored.
pub proof fn lemma_created_ids_pairwise_distinct<H>(
    states: Seq<Map<u128, (H, u64)>>,
    ids: Seq<u128>,
    vals: Seq<(H, u64)>,
)
    requires
        states.len() == ids.len() + 1,
        vals.len() == ids.len(),
        forall|i: int| 0 <= i < ids.len() ==> !(#[trigger] states[i]).dom().contains(ids[i]),
        forall|i: int|
            0 <= i < ids.len() ==> states[i + 1] == (#[trigger] states[i]).insert(
                ids[i],
                vals[i],
            ),
    ensures
        forall|i: int, j: int| 0 <= i < j < ids.len() ==> ids[i] != ids[j],
{
    assert forall|i: int, j: int| 0 <= i < j < ids.len() implies ids[i] != ids[j] by {
        lemma_issued_id_persists(states, ids, vals, i, j);
    }
}

/// An identifier issued at step `i` is still present in the table at every
/// later step `j`, because each creation only inserts.
proof fn lemma_issued_id_persists<H>(
    states: Seq<Map<u128, (H, u64)>>,
    ids: Seq<u128>,
    vals: Seq<(H, u64)>,
    i: int,
    j: int,
)
    requires
        states.len() == ids.len() + 1,
        vals.len() == ids.len(),
        forall|k: int|
            0 <= k < ids.len() ==> states[k + 1] == (#[trigger] states[k]).insert(
                ids[k],
                vals[k],
            ),
        0 <= i < j <= ids.len(),
    ensures
        states[j].dom().contains(ids[i]),
    decreases j - i,
{
    if j == i + 1 {
        assert(states[j] == states[i].insert(ids[i], vals[i]));
    } else {
        lemma_issued_id_persists(states, ids, vals, i, j - 1);
        assert(states[j] == states[j - 1].insert(ids[j - 1], vals[j - 1]));
    }
}

/// Lookup consistency, first half: immediately after a creation stores
/// `(h, exp)` under `id`, the table maps `id` to exactly that entry — by
/// `query`'s contract a lookup then returns that very handle.
pub proof fn lemma_query_after_create<H>(m: Map<u128, (H, u64)>, id: u128, h: H, exp: u64)
    ensures
        m.insert(id, (h, exp)).dom().contains(id),
        m.insert(id, (h, exp))[id] == (h, exp),
{
}

/// Lookup consistency until expiry, and expiry itself: while an entry's
/// removal instant lies ahead, an expiry sweep keeps the entry with the
/// very same handle; from the removal instant on, a sweep drops it.
pub proof fn lemma_lookup_until_expiry<H>(
    m: Map<u128, (H, u64)>,
    id: u128,
    h: H,
    exp: u64,
    early: u64,
    late: u64,
)
    requires
        m.dom().contains(id),
        m[id] == (h, exp),
        early < exp,
        late >= exp,
    ensures
        m.restrict(live_ids(m, early)).dom().contains(id),
        m.restrict(live_ids(m, early))[id] == (h, exp),
        !m.restrict(live_ids(m, late)).dom().contains(id),
{
}

/// Not-found stability: an identifier absent from the table stays absent
/// under every transition the registry makes — a creation that issued a
/// different identifier, any removal, any expiry sweep — so a lookup for
/// an identifier that was never issued always returns nothing, by
/// `query`'s contract.
pub proof fn lemma_not_found_stable<H>(
    m: Map<u128, (H, u64)>,
    id: u128,
    other: u128,
    v: (H, u64),
    now: u64,
)
    requires
        !m.dom().contains(id),
    ensures
        !Map::<u128, (H, u64)>::empty().dom().contains(id),
        other != id ==> !m.insert(other, v).dom().contains(id),
        !m.remove(other).dom().contains(id),
        !m.restrict(live_ids(m, now)).dom().contains(id),
{
}

/// Idempotent removal: removing the same identifier twice leaves exactly
/// the state one removal leaves, and removing an absent identifier leaves
/// the table as it was — a duplicate timer fire changes nothing.
pub proof fn lemma_removal_idempotent<H>(m: Map<u128, (H, u64)>, id: u128)
    ensures
        m.remove(id).remove(id) == m.remove(id),
        !m.dom().contains(id) ==> m.remove(id) == m,
{
    assert(m.remove(id).remove(id) =~= m.remove(id));
    if !m.dom().contains(id) {
        assert(m.remove(id) =~= m);
    }
}

} // verus!
