//! What holds of reporting across several calls, stated over the store's view.
use vstd::prelude::*;
use crate::store::{
    first_record, incremented, ref_in_use, retrieval, upsert_error, upsert_ref, upserted,
    valid_records, RecordView,
};

verus! {

/// The records after sightings of one identity that settle in order, the
/// k-th carrying the candidate notification `candidates[k]`. A sighting of a
/// known identity only raises its counter (`begin_report` and
/// `settle_first_sighting` both leave the records `upserted`), so this covers
/// sequential reports and concurrent first sightings alike.
pub open spec fn sightings(
    m: Map<Seq<u8>, RecordView>,
    id: Seq<u8>,
    text: Seq<char>,
    candidates: Seq<u64>,
) -> Map<Seq<u8>, RecordView>
    decreases candidates.len(),
{
    if candidates.len() == 0 {
        m
    } else {
        upserted(sightings(m, id, text, candidates.drop_last()), id, text, candidates.last())
    }
}

proof fn lemma_sightings(
    m: Map<Seq<u8>, RecordView>,
    id: Seq<u8>,
    text: Seq<char>,
    candidates: Seq<u64>,
    k: int,
)
    requires
        !m.contains_key(id),
        !ref_in_use(m, candidates[0]),
        1 <= k <= candidates.len() <= u64::MAX,
    ensures
        sightings(m, id, text, candidates.take(k)) == m.insert(
            id,
            RecordView {
                diagnostic_text: text,
                notification_ref: candidates[0],
                occurrence_count: k as u64,
            },
        ),
        forall|j: int| 0 <= j < k ==> upsert_error(
            #[trigger] sightings(m, id, text, candidates.take(j)),
            id,
            candidates[j],
        ) is None,
    decreases k,
{
    let c = candidates.take(k);
    assert(c.drop_last() == candidates.take(k - 1));
    if k == 1 {
        assert(candidates.take(0).len() == 0);
        assert(sightings(m, id, text, candidates.take(0)) == m);
        assert(c.last() == candidates[0]);
        assert(sightings(m, id, text, c) =~= m.insert(id, first_record(text, candidates[0])));
    } else {
        lemma_sightings(m, id, text, candidates, k - 1);
        assert(c.last() == candidates[k - 1]);
        assert(sightings(m, id, text, c) =~= m.insert(
            id,
            RecordView {
                diagnostic_text: text,
                notification_ref: candidates[0],
                occurrence_count: k as u64,
            },
        ));
    }
}

/// A first sighting of an unseen failure adds exactly one record, with
/// counter one, pointing at the one notification it created; no other record
/// changes.
pub proof fn first_sighting_creates_one_record(
    m: Map<Seq<u8>, RecordView>,
    id: Seq<u8>,
    text: Seq<char>,
    candidate: u64,
)
    requires
        valid_records(m),
        !m.contains_key(id),
        !ref_in_use(m, candidate),
    ensures
        upsert_error(m, id, candidate) is None,
        upsert_ref(m, id, candidate) == candidate,
        upserted(m, id, text, candidate).dom() == m.dom().insert(id),
        upserted(m, id, text, candidate)[id] == first_record(text, candidate),
        forall|other: Seq<u8>| #[trigger] m.contains_key(other) ==> upserted(m, id, text, candidate)[other] == m[other],
        valid_records(upserted(m, id, text, candidate)),
{
    let m2 = upserted(m, id, text, candidate);
    assert(m2.dom() =~= m.dom().insert(id));
    assert forall|a: Seq<u8>, b: Seq<u8>|
        #[trigger] m2.contains_key(a) && #[trigger] m2.contains_key(b) && a != b
        implies m2[a].notification_ref != m2[b].notification_ref by {
        if a == id {
            assert(m.contains_key(b));
        } else if b == id {
            assert(m.contains_key(a));
        }
    }
}

/// Reporting the same failure n times in sequence leaves one record with
/// counter n that keeps pointing at the first notification throughout; every
/// report after the first raises the counter of that record.
pub proof fn repeat_sightings_count(
    m: Map<Seq<u8>, RecordView>,
    id: Seq<u8>,
    text: Seq<char>,
    candidates: Seq<u64>,
)
    requires
        valid_records(m),
        !m.contains_key(id),
        !ref_in_use(m, candidates[0]),
        1 <= candidates.len() <= u64::MAX,
    ensures
        sightings(m, id, text, candidates).dom() == m.dom().insert(id),
        sightings(m, id, text, candidates)[id].occurrence_count == candidates.len(),
        sightings(m, id, text, candidates)[id].diagnostic_text == text,
        forall|k: int| 1 <= k <= candidates.len() ==> (#[trigger] sightings(m, id, text, candidates.take(k)))[id].notification_ref == candidates[0]
            && sightings(m, id, text, candidates.take(k))[id].occurrence_count == k,
        forall|k: int| 1 <= k < candidates.len() ==> #[trigger] sightings(m, id, text, candidates.take(k)) .contains_key(id)
            && upsert_error(sightings(m, id, text, candidates.take(k)), id, candidates[k]) is None,
{
    let n = candidates.len() as int;
    lemma_sightings(m, id, text, candidates, n);
    assert(candidates.take(n) == candidates);
    assert(sightings(m, id, text, candidates).dom() =~= m.dom().insert(id));
    assert forall|k: int| 1 <= k <= candidates.len() implies (#[trigger] sightings(m, id, text, candidates.take(k)))[id].notification_ref == candidates[0]
        && sightings(m, id, text, candidates.take(k))[id].occurrence_count == k by {
        lemma_sightings(m, id, text, candidates, k);
    }
    assert forall|k: int| 1 <= k < candidates.len() implies #[trigger] sightings(m, id, text, candidates.take(k)).contains_key(id)
        && upsert_error(sightings(m, id, text, candidates.take(k)), id, candidates[k]) is None by {
        lemma_sightings(m, id, text, candidates, k);
    }
}

/// When M callers all find a failure unseen and each creates a notification,
/// then settle in some order: one record remains, with counter M, pointing at
/// the first settler's notification; each of the other M - 1 callers is told
/// to delete its own notification, exactly once.
pub proof fn concurrent_first_sightings(
    m: Map<Seq<u8>, RecordView>,
    id: Seq<u8>,
    text: Seq<char>,
    candidates: Seq<u64>,
)
    requires
        valid_records(m),
        !m.contains_key(id),
        1 <= candidates.len() <= u64::MAX,
        forall|k: int| 0 <= k < candidates.len() ==> !ref_in_use(m, #[trigger] candidates[k]),
        forall|a: int, b: int| 0 <= a < b < candidates.len() ==> candidates[a] != candidates[b],
    ensures
        sightings(m, id, text, candidates).dom() == m.dom().insert(id),
        sightings(m, id, text, candidates)[id] == (RecordView {
            diagnostic_text: text,
            notification_ref: candidates[0],
            occurrence_count: candidates.len() as u64,
        }),
        forall|k: int| 0 <= k < candidates.len() ==> upsert_error(
            #[trigger] sightings(m, id, text, candidates.take(k)),
            id,
            candidates[k],
        ) is None,
        upsert_ref(sightings(m, id, text, candidates.take(0)), id, candidates[0]) == candidates[0],
        forall|k: int| 1 <= k < candidates.len() ==> upsert_ref(
            #[trigger] sightings(m, id, text, candidates.take(k)),
            id,
            candidates[k],
        ) == candidates[0] && candidates[0] != candidates[k],
{
    let n = candidates.len() as int;
    assert(!ref_in_use(m, candidates[0]));
    lemma_sightings(m, id, text, candidates, n);
    assert(candidates.take(n) == candidates);
    assert(sightings(m, id, text, candidates).dom() =~= m.dom().insert(id));
    assert(candidates.take(0).len() == 0);
    assert forall|k: int| 1 <= k < candidates.len() implies upsert_ref(
        #[trigger] sightings(m, id, text, candidates.take(k)),
        id,
        candidates[k],
    ) == candidates[0] && candidates[0] != candidates[k] by {
        lemma_sightings(m, id, text, candidates, k);
    }
}

/// Reporting one failure never changes the record or the notification of
/// another.
pub proof fn identities_independent(
    m: Map<Seq<u8>, RecordView>,
    id: Seq<u8>,
    other: Seq<u8>,
    text: Seq<char>,
    candidate: u64,
)
    requires
        valid_records(m),
        id != other,
        upsert_error(m, id, candidate) is None,
    ensures
        upserted(m, id, text, candidate).contains_key(other) == m.contains_key(other),
        incremented(m, id).contains_key(other) == m.contains_key(other),
        m.contains_key(other) ==> upserted(m, id, text, candidate)[other] == m[other]
            && incremented(m, id)[other] == m[other]
            && retrieval(upserted(m, id, text, candidate), m[other].notification_ref) == Some(m[other].diagnostic_text),
{
    let m2 = upserted(m, id, text, candidate);
    if m.contains_key(other) {
        let r = m[other].notification_ref;
        assert(m2.contains_key(other) && m2[other].notification_ref == r);
        let c = choose|c: Seq<u8>| #[trigger] m2.contains_key(c) && m2[c].notification_ref == r;
        if c != other {
            if c == id {
                if !m.contains_key(id) {
                    assert(ref_in_use(m, candidate));
                }
            } else {
                assert(m.contains_key(c));
            }
        }
    }
}

/// The notification created by a first sighting leads back to the exact
/// diagnostic text; a notification that no record points at leads nowhere.
pub proof fn retrieval_round_trip(
    m: Map<Seq<u8>, RecordView>,
    id: Seq<u8>,
    text: Seq<char>,
    candidate: u64,
    unknown: u64,
)
    requires
        valid_records(m),
        !m.contains_key(id),
        !ref_in_use(m, candidate),
    ensures
        retrieval(upserted(m, id, text, candidate), candidate) == Some(text),
        !ref_in_use(m, unknown) && unknown != candidate ==> retrieval(upserted(m, id, text, candidate), unknown) is None,
{
    let m2 = upserted(m, id, text, candidate);
    assert(m2.contains_key(id) && m2[id].notification_ref == candidate);
    let c = choose|c: Seq<u8>| #[trigger] m2.contains_key(c) && m2[c].notification_ref == candidate;
    if c != id {
        assert(m.contains_key(c));
    }
    if !ref_in_use(m, unknown) && unknown != candidate {
        if ref_in_use(m2, unknown) {
            let d = choose|d: Seq<u8>| #[trigger] m2.contains_key(d) && m2[d].notification_ref == unknown;
            if d != id {
                assert(m.contains_key(d));
            }
        }
    }
}

} // verus!
