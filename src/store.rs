//! The record store: one record per identity, holding the diagnostic text,
//! the reference of the live notification and an occurrence counter.
use vstd::prelude::*;
use vstd::string::StringExecFns;

verus! {

/// What a record holds, as seen by contracts.
pub struct RecordView {
    pub diagnostic_text: Seq<char>,
    pub notification_ref: u64,
    pub occurrence_count: u64,
}

/// One distinct failure.
pub struct FailureRecord {
    pub identity: Vec<u8>,
    pub diagnostic_text: String,
    pub notification_ref: u64,
    pub occurrence_count: u64,
}

impl View for FailureRecord {
    type V = RecordView;

    open spec fn view(&self) -> RecordView {
        RecordView {
            diagnostic_text: self.diagnostic_text@,
            notification_ref: self.notification_ref,
            occurrence_count: self.occurrence_count,
        }
    }
}

/// Why the store refused an operation; the store is left unchanged.
#[derive(Clone, Copy, Debug, PartialEq, Eq, Structural)]
pub enum StoreError {
    /// The record's counter is at its largest value.
    CounterOverflow,
    /// Another record already points at the candidate notification.
    ReferenceInUse,
}

/// The record that a first sighting creates.
pub open spec fn first_record(text: Seq<char>, notification_ref: u64) -> RecordView {
    RecordView { diagnostic_text: text, notification_ref, occurrence_count: 1 }
}

/// The records after one more sighting of a known identity.
pub open spec fn incremented(m: Map<Seq<u8>, RecordView>, id: Seq<u8>) -> Map<Seq<u8>, RecordView> {
    m.insert(id, RecordView { occurrence_count: (m[id].occurrence_count + 1) as u64, ..m[id] })
}

/// Whether some record points at the notification `r`.
pub open spec fn ref_in_use(m: Map<Seq<u8>, RecordView>, r: u64) -> bool {
    exists|id: Seq<u8>| #[trigger] m.contains_key(id) && m[id].notification_ref == r
}

/// Whether the counter of a known identity can take one more sighting.
pub open spec fn counter_full(m: Map<Seq<u8>, RecordView>, id: Seq<u8>) -> bool {
    m.contains_key(id) && m[id].occurrence_count == u64::MAX
}

/// The records after an insert-or-increment of `id`.
pub open spec fn upserted(
    m: Map<Seq<u8>, RecordView>,
    id: Seq<u8>,
    text: Seq<char>,
    candidate: u64,
) -> Map<Seq<u8>, RecordView> {
    if m.contains_key(id) {
        incremented(m, id)
    } else {
        m.insert(id, first_record(text, candidate))
    }
}

/// The authoritative notification after an insert-or-increment of `id`.
pub open spec fn upsert_ref(m: Map<Seq<u8>, RecordView>, id: Seq<u8>, candidate: u64) -> u64 {
    if m.contains_key(id) {
        m[id].notification_ref
    } else {
        candidate
    }
}

/// Why an insert-or-increment of `id` with `candidate` is refused, if it is.
pub open spec fn upsert_error(m: Map<Seq<u8>, RecordView>, id: Seq<u8>, candidate: u64) -> Option<
    StoreError,
> {
    if counter_full(m, id) {
        Some(StoreError::CounterOverflow)
    } else if !m.contains_key(id) && ref_in_use(m, candidate) {
        Some(StoreError::ReferenceInUse)
    } else {
        None
    }
}

/// The stored text of the record that points at notification `r`, if any.
pub open spec fn retrieval(m: Map<Seq<u8>, RecordView>, r: u64) -> Option<Seq<char>> {
    if ref_in_use(m, r) {
        let id = choose|id: Seq<u8>| #[trigger] m.contains_key(id) && m[id].notification_ref == r;
        Some(m[id].diagnostic_text)
    } else {
        None
    }
}

/// The invariant of the records: no two point at the same notification, and
/// every counter counts at least the first sighting.
pub open spec fn valid_records(m: Map<Seq<u8>, RecordView>) -> bool {
    &&& forall|a: Seq<u8>, b: Seq<u8>|
        #[trigger] m.contains_key(a) && #[trigger] m.contains_key(b) && a != b
            ==> m[a].notification_ref != m[b].notification_ref
    &&& forall|a: Seq<u8>| #[trigger] m.contains_key(a) ==> m[a].occurrence_count >= 1
}

/// The map from identity to record that a sequence of records stands for.
pub open spec fn map_of(s: Seq<FailureRecord>) -> Map<Seq<u8>, RecordView>
    decreases s.len(),
{
    if s.len() == 0 {
        Map::empty()
    } else {
        map_of(s.drop_last()).insert(s.last().identity@, s.last()@)
    }
}

/// No two records of the sequence share an identity.
pub open spec fn unique_identities(s: Seq<FailureRecord>) -> bool {
    forall|i: int, j: int|
        0 <= i < s.len() && 0 <= j < s.len() && i != j ==> #[trigger] s[i].identity@
            != #[trigger] s[j].identity@
}

proof fn lemma_map_of_domain(s: Seq<FailureRecord>, id: Seq<u8>)
    ensures
        map_of(s).contains_key(id) <==> exists|i: int| 0 <= i < s.len() && #[trigger] s[i].identity@ == id,
    decreases s.len(),
{
    if s.len() > 0 {
        lemma_map_of_domain(s.drop_last(), id);
        if map_of(s.drop_last()).contains_key(id) {
            let i = choose|i: int| 0 <= i < s.drop_last().len() && #[trigger] s.drop_last()[i].identity@ == id;
            assert(s[i].identity@ == id);
        }
        if exists|i: int| 0 <= i < s.len() && #[trigger] s[i].identity@ == id {
            let i = choose|i: int| 0 <= i < s.len() && #[trigger] s[i].identity@ == id;
            if i < s.len() - 1 {
                assert(s.drop_last()[i].identity@ == id);
            }
        }
    }
}

proof fn lemma_map_of_value(s: Seq<FailureRecord>, i: int)
    requires
        unique_identities(s),
        0 <= i < s.len(),
    ensures
        map_of(s).contains_key(s[i].identity@),
        map_of(s)[s[i].identity@] == s[i]@,
    decreases s.len(),
{
    if i < s.len() - 1 {
        let t = s.drop_last();
        assert(t[i] == s[i]);
        assert(unique_identities(t)) by {
            assert forall|a: int, b: int| 0 <= a < t.len() && 0 <= b < t.len() && a != b implies
                #[trigger] t[a].identity@ != #[trigger] t[b].identity@ by {
                assert(t[a] == s[a] && t[b] == s[b]);
            }
        }
        lemma_map_of_value(t, i);
        assert(s[i].identity@ != s[s.len() - 1].identity@);
    }
}

proof fn lemma_map_of_update(s: Seq<FailureRecord>, i: int, r: FailureRecord)
    requires
        unique_identities(s),
        0 <= i < s.len(),
        r.identity@ == s[i].identity@,
    ensures
        map_of(s.update(i, r)) == map_of(s).insert(r.identity@, r@),
    decreases s.len(),
{
    let u = s.update(i, r);
    if i == s.len() - 1 {
        assert(u.drop_last() == s.drop_last());
    } else {
        let t = s.drop_last();
        assert(unique_identities(t)) by {
            assert forall|a: int, b: int| 0 <= a < t.len() && 0 <= b < t.len() && a != b implies
                #[trigger] t[a].identity@ != #[trigger] t[b].identity@ by {
                assert(t[a] == s[a] && t[b] == s[b]);
            }
        }
        lemma_map_of_update(t, i, r);
        assert(u.drop_last() == t.update(i, r));
        assert(s[i].identity@ != s[s.len() - 1].identity@);
        assert(map_of(u) =~= map_of(s).insert(r.identity@, r@));
    }
}

/// All records of the failures seen so far.
pub struct RecordStore {
    records: Vec<FailureRecord>,
}

impl View for RecordStore {
    type V = Map<Seq<u8>, RecordView>;

    closed spec fn view(&self) -> Map<Seq<u8>, RecordView> {
        map_of(self.records@)
    }
}

/// Whether two byte sequences are equal.
fn same_bytes(a: &Vec<u8>, b: &[u8]) -> (r: bool)
    ensures
        r == (a@ == b@),
{
    if a.len() != b.len() {
        return false;
    }
    let mut i: usize = 0;
    while i < a.len()
        invariant
            a@.len() == b@.len(),
            0 <= i <= a@.len(),
            forall|k: int| 0 <= k < i ==> a@[k] == b@[k],
        decreases a@.len() - i,
    {
        if a[i] != b[i] {
            return false;
        }
        i = i + 1;
    }
    assert(a@ =~= b@);
    true
}

proof fn lemma_ref_in_use(s: Seq<FailureRecord>, r: u64)
    requires
        unique_identities(s),
    ensures
        ref_in_use(map_of(s), r) <==> exists|i: int| 0 <= i < s.len() && #[trigger] s[i].notification_ref == r,
{
    let m = map_of(s);
    if ref_in_use(m, r) {
        let id = choose|id: Seq<u8>| #[trigger] m.contains_key(id) && m[id].notification_ref == r;
        lemma_map_of_domain(s, id);
        let i = choose|i: int| 0 <= i < s.len() && #[trigger] s[i].identity@ == id;
        lemma_map_of_value(s, i);
        assert(s[i].notification_ref == r);
    }
    if exists|i: int| 0 <= i < s.len() && #[trigger] s[i].notification_ref == r {
        let i = choose|i: int| 0 <= i < s.len() && #[trigger] s[i].notification_ref == r;
        lemma_map_of_value(s, i);
        assert(m.contains_key(s[i].identity@) && m[s[i].identity@].notification_ref == r);
    }
}

impl RecordStore {
    /// The internal invariant: identities and notification references are
    /// unique, and every counter is at least one.
    pub closed spec fn wf(&self) -> bool {
        let s = self.records@;
        &&& unique_identities(s)
        &&& forall|i: int, j: int|
            0 <= i < s.len() && 0 <= j < s.len() && i != j ==> #[trigger] s[i].notification_ref
                != #[trigger] s[j].notification_ref
        &&& forall|i: int| 0 <= i < s.len() ==> #[trigger] s[i].occurrence_count >= 1
    }

    proof fn lemma_valid(&self)
        requires
            self.wf(),
        ensures
            valid_records(self@),
    {
        let s = self.records@;
        let m = self@;
        assert forall|a: Seq<u8>, b: Seq<u8>|
            #[trigger] m.contains_key(a) && #[trigger] m.contains_key(b) && a != b
            implies m[a].notification_ref != m[b].notification_ref by {
            lemma_map_of_domain(s, a);
            lemma_map_of_domain(s, b);
            let i = choose|i: int| 0 <= i < s.len() && #[trigger] s[i].identity@ == a;
            let j = choose|j: int| 0 <= j < s.len() && #[trigger] s[j].identity@ == b;
            lemma_map_of_value(s, i);
            lemma_map_of_value(s, j);
        }
        assert forall|a: Seq<u8>| #[trigger] m.contains_key(a) implies m[a].occurrence_count >= 1 by {
            lemma_map_of_domain(s, a);
            let i = choose|i: int| 0 <= i < s.len() && #[trigger] s[i].identity@ == a;
            lemma_map_of_value(s, i);
        }
    }

    /// An empty store.
    pub fn new() -> (r: RecordStore)
        ensures
            r.wf(),
            valid_records(r@),
            r@ == Map::<Seq<u8>, RecordView>::empty(),
    {
        RecordStore { records: Vec::new() }
    }

    /// The number of records.
    pub fn len(&self) -> (r: usize)
        requires
            self.wf(),
        ensures
            r == self@.len(),
    {
        proof {
            self.lemma_len(self.records@);
        }
        self.records.len()
    }

    proof fn lemma_len(&self, s: Seq<FailureRecord>)
        requires
            unique_identities(s),
        ensures
            map_of(s).dom().finite(),
            map_of(s).len() == s.len(),
        decreases s.len(),
    {
        if s.len() > 0 {
            let t = s.drop_last();
            assert(unique_identities(t)) by {
                assert forall|a: int, b: int| 0 <= a < t.len() && 0 <= b < t.len() && a != b implies
                    #[trigger] t[a].identity@ != #[trigger] t[b].identity@ by {
                    assert(t[a] == s[a] && t[b] == s[b]);
                }
            }
            self.lemma_len(t);
            lemma_map_of_domain(t, s.last().identity@);
            if map_of(t).contains_key(s.last().identity@) {
                let i = choose|i: int| 0 <= i < t.len() && #[trigger] t[i].identity@ == s.last().identity@;
                assert(s[i].identity@ == s[s.len() - 1].identity@);
            }
            assert(map_of(s).dom() == map_of(t).dom().insert(s.last().identity@));
        }
    }

    /// Atomically counts one more sighting of `identity` if a record for it
    /// exists, returning its notification reference and new count; creates
    /// nothing when it does not exist.
    pub fn try_increment(&mut self, identity: &[u8]) -> (r: Result<Option<(u64, u64)>, StoreError>)
        requires
            old(self).wf(),
        ensures
            final(self).wf(),
            valid_records(final(self)@),
            !old(self)@.contains_key(identity@) ==> r == Ok::<Option<(u64, u64)>, StoreError>(None)
                && final(self)@ == old(self)@,
            counter_full(old(self)@, identity@) ==> r == Err::<Option<(u64, u64)>, StoreError>(StoreError::CounterOverflow)
                && final(self)@ == old(self)@,
            old(self)@.contains_key(identity@) && !counter_full(old(self)@, identity@) ==> r == Ok::<Option<(u64, u64)>, StoreError>(
                Some((old(self)@[identity@].notification_ref, (old(self)@[identity@].occurrence_count + 1) as u64)),
            ) && final(self)@ == incremented(old(self)@, identity@),
    {
        proof {
            self.lemma_valid();
            lemma_map_of_domain(self.records@, identity@);
        }
        match self.find_identity(identity) {
            None => Ok(None),
            Some(i) => {
                proof {
                    lemma_map_of_value(self.records@, i as int);
                }
                let count = self.records[i].occurrence_count;
                if count == u64::MAX {
                    return Err(StoreError::CounterOverflow);
                }
                let ghost s0 = self.records@;
                let notification_ref = self.records[i].notification_ref;
                let mut record = self.records.remove(i);
                record.occurrence_count = count + 1;
                self.records.insert(i, record);
                proof {
                    assert(self.records@ =~= s0.update(i as int, record));
                    lemma_map_of_update(s0, i as int, record);
                    assert(map_of(self.records@) =~= incremented(map_of(s0), identity@));
                    self.lemma_valid();
                }
                Ok(Some((notification_ref, count + 1)))
            },
        }
    }

    /// Atomically inserts a new record for `identity` with counter one and the
    /// candidate notification reference; if the identity is already known,
    /// counts one more sighting instead. Returns the authoritative reference:
    /// the candidate when it was inserted, the stored one otherwise.
    pub fn insert_or_increment(&mut self, identity: &[u8], diagnostic_text: &str, candidate_ref: u64) -> (r: Result<u64, StoreError>)
        requires
            old(self).wf(),
        ensures
            final(self).wf(),
            valid_records(final(self)@),
            upsert_error(old(self)@, identity@, candidate_ref) is Some ==> r == Err::<u64, StoreError>(
                upsert_error(old(self)@, identity@, candidate_ref)->0,
            ) && final(self)@ == old(self)@,
            upsert_error(old(self)@, identity@, candidate_ref) is None ==> r == Ok::<u64, StoreError>(
                upsert_ref(old(self)@, identity@, candidate_ref),
            ) && final(self)@ == upserted(old(self)@, identity@, diagnostic_text@, candidate_ref),
    {
        proof {
            self.lemma_valid();
            lemma_map_of_domain(self.records@, identity@);
            lemma_ref_in_use(self.records@, candidate_ref);
        }
        match self.find_identity(identity) {
            Some(i) => {
                proof {
                    lemma_map_of_value(self.records@, i as int);
                }
                let count = self.records[i].occurrence_count;
                if count == u64::MAX {
                    return Err(StoreError::CounterOverflow);
                }
                let ghost s0 = self.records@;
                let existing_ref = self.records[i].notification_ref;
                let mut record = self.records.remove(i);
                record.occurrence_count = count + 1;
                self.records.insert(i, record);
                proof {
                    assert(self.records@ =~= s0.update(i as int, record));
                    lemma_map_of_update(s0, i as int, record);
                    assert(map_of(self.records@) =~= incremented(map_of(s0), identity@));
                    self.lemma_valid();
                }
                Ok(existing_ref)
            },
            None => {
                if self.find_ref(candidate_ref).is_some() {
                    return Err(StoreError::ReferenceInUse);
                }
                let ghost s0 = self.records@;
                let record = FailureRecord {
                    identity: vstd::slice::slice_to_vec(identity),
                    diagnostic_text: String::from_str(diagnostic_text),
                    notification_ref: candidate_ref,
                    occurrence_count: 1,
                };
                self.records.push(record);
                proof {
                    assert(self.records@ == s0.push(record));
                    assert(self.records@.drop_last() == s0);
                    assert(map_of(self.records@) == map_of(s0).insert(identity@, first_record(diagnostic_text@, candidate_ref)));
                    self.lemma_valid();
                }
                Ok(candidate_ref)
            },
        }
    }

    /// The diagnostic text of the record that points at notification
    /// `notification_ref`, or `None` when no record does.
    pub fn find_traceback(&self, notification_ref: u64) -> (r: Option<String>)
        requires
            self.wf(),
        ensures
            r matches Some(t) ==> retrieval(self@, notification_ref) == Some(t@),
            r is None ==> retrieval(self@, notification_ref) is None,
    {
        proof {
            self.lemma_valid();
            lemma_ref_in_use(self.records@, notification_ref);
        }
        match self.find_ref(notification_ref) {
            None => None,
            Some(i) => {
                proof {
                    let m = self@;
                    lemma_map_of_value(self.records@, i as int);
                    let id = choose|id: Seq<u8>| #[trigger] m.contains_key(id) && m[id].notification_ref == notification_ref;
                    assert(id == self.records@[i as int].identity@);
                }
                Some(self.records[i].diagnostic_text.clone())
            },
        }
    }

    /// The record of `identity`, if one exists.
    pub fn get(&self, identity: &[u8]) -> (r: Option<&FailureRecord>)
        requires
            self.wf(),
        ensures
            r matches Some(rec) ==> self@.contains_key(identity@) && self@[identity@] == rec@ && rec.identity@ == identity@,
            r is None ==> !self@.contains_key(identity@),
    {
        proof {
            lemma_map_of_domain(self.records@, identity@);
        }
        match self.find_identity(identity) {
            None => None,
            Some(i) => {
                proof {
                    lemma_map_of_value(self.records@, i as int);
                }
                Some(&self.records[i])
            },
        }
    }

    fn find_identity(&self, identity: &[u8]) -> (r: Option<usize>)
        requires
            self.wf(),
        ensures
            match r {
                Some(i) => i < self.records@.len() && self.records@[i as int].identity@ == identity@,
                None => forall|i: int| 0 <= i < self.records@.len() ==> #[trigger] self.records@[i].identity@ != identity@,
            },
    {
        let mut i: usize = 0;
        while i < self.records.len()
            invariant
                0 <= i <= self.records@.len(),
                forall|k: int| 0 <= k < i ==> #[trigger] self.records@[k].identity@ != identity@,
            decreases self.records@.len() - i,
        {
            if same_bytes(&self.records[i].identity, identity) {
                return Some(i);
            }
            i = i + 1;
        }
        None
    }

    fn find_ref(&self, notification_ref: u64) -> (r: Option<usize>)
        requires
            self.wf(),
        ensures
            match r {
                Some(i) => i < self.records@.len() && self.records@[i as int].notification_ref == notification_ref,
                None => forall|i: int| 0 <= i < self.records@.len() ==> #[trigger] self.records@[i].notification_ref != notification_ref,
            },
    {
        let mut i: usize = 0;
        while i < self.records.len()
            invariant
                0 <= i <= self.records@.len(),
                forall|k: int| 0 <= k < i ==> #[trigger] self.records@[k].notification_ref != notification_ref,
            decreases self.records@.len() - i,
        {
            if self.records[i].notification_ref == notification_ref {
                return Some(i);
            }
            i = i + 1;
        }
        None
    }
}


} // verus!
