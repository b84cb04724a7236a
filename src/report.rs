//! The decisions of reporting one failure. Reporting runs in two phases
//! around the notification sink: `begin_report` probes the store; on a first
//! sighting the caller creates a notification and hands its reference to
//! `settle_first_sighting`, which records it or names it as a duplicate to
//! delete.
use vstd::prelude::*;
use crate::identity::{identity_of, sha256_of, IDENTITY_LEN};
use crate::store::{
    counter_full, incremented, upsert_error, upsert_ref, upserted, RecordStore, StoreError,
};
use vstd::string::StringSliceAdditionalSpecFns;

verus! {

/// What the caller does next after probing the store.
#[derive(Debug, PartialEq, Eq)]
pub enum FirstStep {
    /// The failure is known and its counter was raised: edit the notification
    /// `notification_ref` to show `occurrences`.
    Repeat { notification_ref: u64, occurrences: u64 },
    /// No record exists yet: create a notification, then settle it.
    FirstSighting { identity: Vec<u8> },
}

/// Probes the store for the identity of `diagnostic_text`, counting one more
/// sighting if it is known.
pub fn begin_report(store: &mut RecordStore, diagnostic_text: &str) -> (r: Result<FirstStep, StoreError>)
    requires
        old(store).wf(),
    ensures
        final(store).wf(),
        ({
            let id = sha256_of(diagnostic_text.spec_bytes());
            let m = old(store)@;
            &&& !m.contains_key(id) ==> final(store)@ == m && (r matches Ok(
                FirstStep::FirstSighting { identity },
            ) && identity@ == id && identity@.len() == IDENTITY_LEN)
            &&& counter_full(m, id) ==> final(store)@ == m && r == Err::<FirstStep, StoreError>(
                StoreError::CounterOverflow,
            )
            &&& m.contains_key(id) && !counter_full(m, id) ==> final(store)@ == incremented(m, id)
                && r == Ok::<FirstStep, StoreError>(
                FirstStep::Repeat {
                    notification_ref: m[id].notification_ref,
                    occurrences: (m[id].occurrence_count + 1) as u64,
                },
            )
        }),
{
    let identity = identity_of(diagnostic_text);
    match store.try_increment(identity.as_slice()) {
        Err(e) => Err(e),
        Ok(None) => Ok(FirstStep::FirstSighting { identity }),
        Ok(Some((notification_ref, occurrences))) => Ok(
            FirstStep::Repeat { notification_ref, occurrences },
        ),
    }
}

/// Records the notification `candidate_ref` that was created for a first
/// sighting. Returns `None` when it is the canonical notification of the
/// failure, or `Some(candidate_ref)` when another caller's notification won
/// and this one is a duplicate to delete.
pub fn settle_first_sighting(
    store: &mut RecordStore,
    identity: &[u8],
    diagnostic_text: &str,
    candidate_ref: u64,
) -> (r: Result<Option<u64>, StoreError>)
    requires
        old(store).wf(),
    ensures
        final(store).wf(),
        ({
            let m = old(store)@;
            let id = identity@;
            &&& upsert_error(m, id, candidate_ref) matches Some(e) ==> final(store)@ == m && r
                == Err::<Option<u64>, StoreError>(e)
            &&& upsert_error(m, id, candidate_ref) is None ==> final(store)@ == upserted(
                m,
                id,
                diagnostic_text@,
                candidate_ref,
            ) && (upsert_ref(m, id, candidate_ref) == candidate_ref ==> r == Ok::<
                Option<u64>,
                StoreError,
            >(None)) && (upsert_ref(m, id, candidate_ref) != candidate_ref ==> r == Ok::<
                Option<u64>,
                StoreError,
            >(Some(candidate_ref)))
        }),
{
    match store.insert_or_increment(identity, diagnostic_text, candidate_ref) {
        Err(e) => Err(e),
        Ok(authoritative_ref) => {
            if authoritative_ref != candidate_ref {
                Ok(Some(candidate_ref))
            } else {
                Ok(None)
            }
        },
    }
}

} // verus!
