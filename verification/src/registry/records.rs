//! The records of a registry.
//!
//! An [`ArtifactRegistry`] holds what is recorded of every artifact, in the order of
//! registration. A database keeps the records from one run to the next: whoever owns
//! it hands them over when a registry is opened, writes each change, and tells what
//! came of writing it. A change that could not be written is not made.
//!
//! A file is recorded once, however often it is registered
//! ([`registering_again_gives_the_first_record`], [`a_path_has_one_record`]).

use vstd::prelude::*;
use vstd::string::*;

use crate::registry::artifact::{
    drift, Artifact, ArtifactFingerprint, ArtifactId, ArtifactIntegrity, ArtifactState, Integrity,
    ModelArtifact, Rendered,
};
use crate::registry::store::{
    a_digest_reads_back, a_row_reads_back_as_its_artifact, artifact_in, artifact_to_row, check,
    fits, integrity_columns, require, row_of, row_to_artifact, with_integrity, ArtifactRow,
    MetadataRow, Registration, RegistryError, RegistryFault, Row, SECOND,
};
use crate::text::same_text;

verus! {

/// What is recorded of one artifact: its row and its metadata entries.
#[derive(Debug, Clone, PartialEq, Eq)]
pub struct Record {
    pub row: ArtifactRow,
    pub metadata: Vec<MetadataRow>,
}

/// What a [`Record`] says.
#[verifier::ext_equal]
pub struct Stored {
    pub row: Row,
    pub metadata: Seq<(Seq<char>, Rendered)>,
}

impl Record {
    pub open spec fn view(&self) -> Stored {
        Stored { row: self.row@, metadata: entries_of(self.metadata@) }
    }
}

pub open spec fn entries_of(rows: Seq<MetadataRow>) -> Seq<(Seq<char>, Rendered)> {
    rows.map_values(|r: MetadataRow| r@)
}

/// What a list of records says.
pub open spec fn stored(records: Seq<Record>) -> Seq<Stored> {
    records.map_values(|r: Record| r@)
}

/// The record of a path, if there is one.
pub open spec fn record_at(records: Seq<Stored>, path: Seq<char>) -> Option<Stored>
    decreases records.len(),
{
    if records.len() == 0 {
        None
    } else if records[0].row.canonical_path == path {
        Some(records[0])
    } else {
        record_at(records.drop_first(), path)
    }
}

/// The record of an identifier, if there is one.
pub open spec fn record_with(records: Seq<Stored>, id: Seq<char>) -> Option<Stored>
    decreases records.len(),
{
    if records.len() == 0 {
        None
    } else if records[0].row.id == id {
        Some(records[0])
    } else {
        record_with(records.drop_first(), id)
    }
}

/// What a [`Registration`] says.
pub enum Registering {
    New(Artifact),
    Known(Artifact),
}

pub open spec fn registration_view(registration: Registration) -> Registering {
    match registration {
        Registration::Registered(artifact) => Registering::New(artifact@),
        Registration::AlreadyRegistered(artifact) => Registering::Known(artifact@),
    }
}

/// What registering a canonical path gives where it has a record: a path that is
/// known keeps its record and its identifier.
pub open spec fn known_at(records: Seq<Stored>, path: Seq<char>) -> Option<Registering> {
    match record_at(records, path) {
        Some(record) => Some(Registering::Known(artifact_in(record.row))),
        None => None,
    }
}

/// What registering the file at a canonical path gives, and the records after it.
/// `candidate` is the artifact its header would be recorded as, with its metadata
/// entries, and is recorded only where the path has no record.
pub open spec fn registering(
    records: Seq<Stored>,
    candidate: Artifact,
    metadata: Seq<(Seq<char>, Rendered)>,
) -> (Registering, Seq<Stored>) {
    match known_at(records, candidate.path) {
        Some(known) => (known, records),
        None => (
            Registering::New(candidate),
            records.push(Stored { row: row_of(candidate), metadata }),
        ),
    }
}

/// The records after what is known of an artifact's contents was recorded.
pub open spec fn with_known_contents(
    records: Seq<Stored>,
    id: Seq<char>,
    integrity: Integrity,
) -> Seq<Stored> {
    records.map_values(
        |s: Stored|
            if s.row.id == id {
                Stored { row: with_integrity(s.row, integrity), ..s }
            } else {
                s
            },
    )
}

/// The records without those of an identifier.
pub open spec fn without(records: Seq<Stored>, id: Seq<char>) -> Seq<Stored>
    decreases records.len(),
{
    if records.len() == 0 {
        Seq::empty()
    } else {
        let front = without(records.drop_last(), id);
        if records.last().row.id == id {
            front
        } else {
            front.push(records.last())
        }
    }
}

/// How many of the first rows were registered after a time, in seconds.
pub open spec fn later_rows(rows: Seq<Row>, time: i64) -> int
    decreases rows.len(),
{
    if rows.len() == 0 || rows[0].registered_at <= time {
        0
    } else {
        1 + later_rows(rows.drop_first(), time)
    }
}

/// The rows of a registry, the most recently registered first. Of those of one
/// second the later record stands first.
pub open spec fn listed(records: Seq<Stored>) -> Seq<Row>
    decreases records.len(),
{
    if records.len() == 0 {
        Seq::empty()
    } else {
        let earlier = listed(records.drop_last());
        let row = records.last().row;
        earlier.insert(later_rows(earlier, row.registered_at), row)
    }
}

/// What is found under a path has it, and what is found under an identifier that.
proof fn found_under_its_key(records: Seq<Stored>, key: Seq<char>)
    ensures
        record_at(records, key) matches Some(record) ==> record.row.canonical_path == key
            && records.contains(record),
        record_with(records, key) matches Some(record) ==> record.row.id == key && records.contains(
            record,
        ),
    decreases records.len(),
{
    if records.len() > 0 {
        let rest = records.drop_first();
        found_under_its_key(rest, key);
        assert(records.contains(records[0]));
        assert forall|r: Stored| rest.contains(r) implies #[trigger] records.contains(r) by {
            let i = choose|i: int| 0 <= i < rest.len() && rest[i] == r;
            assert(records[i + 1] == r);
        }
    }
}

/// A record of known artifacts.
///
/// Registration records where a file is. It never copies, moves or changes it.
#[derive(Debug)]
pub struct ArtifactRegistry {
    records: Vec<Record>,
}

impl View for ArtifactRegistry {
    type V = Seq<Stored>;

    closed spec fn view(&self) -> Seq<Stored> {
        stored(self.records@)
    }
}

impl ArtifactRegistry {
    /// A registry that exists only for the life of this process.
    pub fn open_in_memory() -> (result: Result<Self, RegistryError>)
        ensures
            result matches Ok(registry) && registry@ == Seq::<Stored>::empty(),
    {
        let registry = ArtifactRegistry { records: Vec::new() };
        assert(registry@ =~= Seq::empty());
        Ok(registry)
    }

    /// Opens a registry with the records that were kept, in the order of registration,
    /// or why they could not be had.
    pub fn open(kept: Result<Vec<Record>, String>) -> (result: Result<Self, RegistryError>)
        ensures
            match kept {
                Ok(records) => result matches Ok(registry) && registry@ == stored(records@),
                Err(reason) => result matches Err(e) && e@ == RegistryFault::Storage(reason@),
            },
    {
        match kept {
            Ok(records) => Ok(ArtifactRegistry { records }),
            Err(reason) => Err(RegistryError::Storage(reason)),
        }
    }

    /// Where the record of a path is, or how many there are.
    fn position_at(&self, path: &str) -> (at: usize)
        ensures
            at <= self.records@.len(),
            match record_at(self@, path@) {
                Some(record) => at < self.records@.len() && self.records@[at as int]@ == record,
                None => at == self.records@.len(),
            },
    {
        let mut i: usize = 0;
        assert(self@.skip(0) =~= self@);
        while i < self.records.len()
            invariant
                i <= self.records@.len(),
                record_at(self@, path@) == record_at(self@.skip(i as int), path@),
            decreases self.records@.len() - i,
        {
            proof {
                assert(self@.skip(i as int)[0] == self.records@[i as int]@);
                assert(self@.skip(i as int).drop_first() =~= self@.skip(i + 1));
            }
            if same_text(self.records[i].row.canonical_path.as_str(), path) {
                return i;
            }
            i = i + 1;
        }
        i
    }

    /// Where the record of an identifier is, or how many there are.
    fn position_with(&self, id: &str) -> (at: usize)
        ensures
            at <= self.records@.len(),
            match record_with(self@, id@) {
                Some(record) => at < self.records@.len() && self.records@[at as int]@ == record,
                None => at == self.records@.len(),
            },
    {
        let mut i: usize = 0;
        assert(self@.skip(0) =~= self@);
        while i < self.records.len()
            invariant
                i <= self.records@.len(),
                record_with(self@, id@) == record_with(self@.skip(i as int), id@),
            decreases self.records@.len() - i,
        {
            proof {
                assert(self@.skip(i as int)[0] == self.records@[i as int]@);
                assert(self@.skip(i as int).drop_first() =~= self@.skip(i + 1));
            }
            if same_text(self.records[i].row.id.as_str(), id) {
                return i;
            }
            i = i + 1;
        }
        i
    }

    /// The artifact of an identifier, if there is one.
    pub fn get(&self, id: &ArtifactId) -> (artifact: Option<ModelArtifact>)
        ensures
            match (artifact, record_with(self@, id@)) {
                (Some(artifact), Some(record)) => artifact@ == artifact_in(record.row),
                (None, None) => true,
                _ => false,
            },
            artifact matches Some(artifact) ==> artifact.id@ == id@,
    {
        proof {
            found_under_its_key(self@, id@);
        }
        let at: usize = self.position_with(id.as_str());
        if at < self.records.len() {
            Some(row_to_artifact(self.records[at].row.copy()))
        } else {
            None
        }
    }

    /// The artifact at a canonical path, if it has a record.
    pub fn find_by_path(&self, canonical: &str) -> (artifact: Option<ModelArtifact>)
        ensures
            match (artifact, record_at(self@, canonical@)) {
                (Some(artifact), Some(record)) => artifact@ == artifact_in(record.row),
                (None, None) => true,
                _ => false,
            },
            artifact matches Some(artifact) ==> artifact.path@ == canonical@,
    {
        proof {
            found_under_its_key(self@, canonical@);
        }
        let at: usize = self.position_at(canonical);
        if at < self.records.len() {
            Some(row_to_artifact(self.records[at].row.copy()))
        } else {
            None
        }
    }

    /// Every artifact, the most recently registered first.
    pub fn list(&self) -> (artifacts: Vec<ModelArtifact>)
        ensures
            artifacts@.map_values(|a: ModelArtifact| a@) == listed(self@).map_values(
                |r: Row| artifact_in(r),
            ),
    {
        let mut order: Vec<usize> = Vec::new();
        let mut i: usize = 0;
        assert(self@.take(0) =~= Seq::empty());
        while i < self.records.len()
            invariant
                i <= self.records@.len(),
                self.stand_in(order@, listed(self@.take(i as int))),
            decreases self.records@.len() - i,
        {
            let time: i64 = self.records[i].row.registered_at;
            let ghost earlier = listed(self@.take(i as int));
            let at: usize = self.place_of(order.as_slice(), time, Ghost(earlier));
            let ghost before = order@;
            order.insert(at, i);
            proof {
                let next = self@.take(i + 1);
                assert(next.drop_last() =~= self@.take(i as int));
                assert(next.last() == self.records@[i as int]@);
                let after = earlier.insert(at as int, next.last().row);
                assert forall|j: int| 0 <= j < order@.len() implies #[trigger] order@[j]
                    < self.records@.len() && self.records@[order@[j] as int].row@ == after[j] by {
                    if j < at {
                        assert(order@[j] == before[j]);
                    } else if j > at {
                        assert(order@[j] == before[j - 1]);
                    }
                }
            }
            i = i + 1;
        }
        assert(self@.take(i as int) =~= self@);
        let mut artifacts: Vec<ModelArtifact> = Vec::new();
        let mut k: usize = 0;
        while k < order.len()
            invariant
                k <= order@.len(),
                self.stand_in(order@, listed(self@)),
                artifacts@.len() == k,
                forall|j: int|
                    0 <= j < k ==> (#[trigger] artifacts@[j])@ == artifact_in(listed(self@)[j]),
            decreases order@.len() - k,
        {
            let at: usize = order[k];
            artifacts.push(row_to_artifact(self.records[at].row.copy()));
            k = k + 1;
        }
        assert(artifacts@.map_values(|a: ModelArtifact| a@) =~= listed(self@).map_values(
            |r: Row| artifact_in(r),
        ));
        artifacts
    }

    /// Whether positions name the records of rows.
    spec fn stand_in(&self, order: Seq<usize>, rows: Seq<Row>) -> bool {
        &&& order.len() == rows.len()
        &&& forall|j: int|
            0 <= j < order.len() ==> #[trigger] order[j] < self.records@.len()
                && self.records@[order[j] as int].row@ == rows[j]
    }

    /// How many of the records named first were registered after a time.
    fn place_of(&self, order: &[usize], time: i64, Ghost(rows): Ghost<Seq<Row>>) -> (at: usize)
        requires
            self.stand_in(order@, rows),
        ensures
            at == later_rows(rows, time),
            at <= order@.len(),
    {
        let mut i: usize = 0;
        assert(rows.skip(0) =~= rows);
        while i < order.len()
            invariant
                i <= order@.len(),
                self.stand_in(order@, rows),
                later_rows(rows, time) == i + later_rows(rows.skip(i as int), time),
            decreases order@.len() - i,
        {
            proof {
                assert(rows.skip(i as int)[0] == rows[i as int]);
                assert(rows.skip(i as int).drop_first() =~= rows.skip(i + 1));
            }
            if self.records[order[i]].row.registered_at <= time {
                return i;
            }
            i = i + 1;
        }
        i
    }

    /// All metadata recorded for an artifact, including keys the runtime itself does
    /// not interpret. There is none for an identifier that is not known.
    pub fn metadata(&self, id: &ArtifactId) -> (entries: Vec<MetadataRow>)
        ensures
            entries_of(entries@) == match record_with(self@, id@) {
                Some(record) => record.metadata,
                None => Seq::empty(),
            },
    {
        let at: usize = self.position_with(id.as_str());
        let mut entries: Vec<MetadataRow> = Vec::new();
        if at >= self.records.len() {
            assert(entries_of(entries@) =~= Seq::empty());
            return entries;
        }
        let kept = &self.records[at].metadata;
        let mut i: usize = 0;
        while i < kept.len()
            invariant
                i <= kept@.len(),
                entries@.len() == i,
                forall|j: int| 0 <= j < i ==> (#[trigger] entries@[j])@ == kept@[j]@,
            decreases kept@.len() - i,
        {
            entries.push(kept[i].copy());
            i = i + 1;
        }
        assert(entries_of(entries@) =~= entries_of(kept@));
        entries
    }

    /// Whether a registered artifact still matches what was recorded, given what its
    /// file looks like now, if there is one. A file that changed is reported, never
    /// adopted.
    pub fn check(&self, id: &ArtifactId, current: Option<ArtifactFingerprint>) -> (result: Result<
        ArtifactState,
        RegistryError,
    >)
        ensures
            match record_with(self@, id@) {
                Some(record) => result matches Ok(state) && state@ == drift(
                    artifact_in(record.row).fingerprint,
                    current,
                ),
                None => result matches Err(error) && error@ == (RegistryFault::UnknownArtifact {
                    id: id@,
                }),
            },
    {
        check(id, self.get(id), current)
    }

    /// Records what reading an artifact in full told of its contents, or why it could
    /// not be read, once that was written.
    pub fn verify(
        &mut self,
        id: &ArtifactId,
        read: Result<ArtifactIntegrity, String>,
        written: Result<(), String>,
    ) -> (result: Result<ArtifactIntegrity, RegistryError>)
        ensures
            match (record_with(old(self)@, id@), read, written) {
                (None, _, _) => result matches Err(e) && e@ == (RegistryFault::UnknownArtifact {
                    id: id@,
                }) && final(self)@ == old(self)@,
                (_, Err(reason), _) => result matches Err(e) && e@ == RegistryFault::Io(reason@)
                    && final(self)@ == old(self)@,
                (_, _, Err(reason)) => result matches Err(e) && e@ == RegistryFault::Storage(
                    reason@,
                ) && final(self)@ == old(self)@,
                (Some(_), Ok(integrity), Ok(())) => result == Ok::<
                    ArtifactIntegrity,
                    RegistryError,
                >(integrity) && final(self)@ == with_known_contents(
                    old(self)@,
                    id@,
                    integrity@,
                ),
            },
    {
        match require(id, self.get(id)) {
            Err(error) => {
                return Err(error);
            },
            Ok(_) => {},
        }
        let integrity = match read {
            Ok(integrity) => integrity,
            Err(reason) => {
                return Err(RegistryError::Io(reason));
            },
        };
        if let Err(reason) = written {
            return Err(RegistryError::Storage(reason));
        }
        let mut i: usize = 0;
        let ghost before = self@;
        let ghost expected = with_known_contents(before, id@, integrity@);
        while i < self.records.len()
            invariant
                i <= self.records@.len(),
                before.len() == self.records@.len(),
                expected == with_known_contents(before, id@, integrity@),
                forall|j: int| 0 <= j < i ==> (#[trigger] self.records@[j])@ == expected[j],
                forall|j: int|
                    i <= j < self.records@.len() ==> (#[trigger] self.records@[j])@ == before[j],
            decreases self.records@.len() - i,
        {
            if same_text(self.records[i].row.id.as_str(), id.as_str()) {
                let (state, algorithm, digest) = integrity_columns(&integrity);
                let ghost record = self.records@[i as int];
                self.records[i].row.integrity_state = state.to_owned();
                self.records[i].row.digest_algorithm = match algorithm {
                    Some(name) => Some(name.to_owned()),
                    None => None,
                };
                self.records[i].row.digest = digest;
                assert(self.records@[i as int]@ =~= Stored {
                    row: with_integrity(record@.row, integrity@),
                    ..record@
                });
            }
            i = i + 1;
        }
        assert(self@ =~= expected);
        Ok(integrity)
    }

    /// Removes the record of an artifact, once that was written, and tells whether
    /// there was one. The file is untouched.
    pub fn forget(&mut self, id: &ArtifactId, written: Result<(), String>) -> (result: Result<
        bool,
        RegistryError,
    >)
        ensures
            match written {
                Err(reason) => result matches Err(e) && e@ == RegistryFault::Storage(reason@)
                    && final(self)@ == old(self)@,
                Ok(()) => result == Ok::<bool, RegistryError>(
                    record_with(old(self)@, id@) is Some,
                ) && final(self)@ == without(old(self)@, id@),
            },
    {
        if let Err(reason) = written {
            return Err(RegistryError::Storage(reason));
        }
        let known: bool = self.position_with(id.as_str()) < self.records.len();
        let ghost before = self@;
        let ghost mut seen: int = 0;
        let mut i: usize = 0;
        proof {
            assert(before.take(0) =~= Seq::empty());
            assert(self@.take(0) =~= Seq::empty());
        }
        while i < self.records.len()
            invariant
                i <= self.records@.len(),
                0 <= seen <= before.len(),
                before.len() - seen == self.records@.len() - i,
                self@.take(i as int) == without(before.take(seen), id@),
                forall|j: int|
                    i <= j < self.records@.len() ==> (#[trigger] self.records@[j])@ == before[seen
                        + j - i],
            decreases self.records@.len() - i,
        {
            let ghost records = self.records@;
            let ghost record = records[i as int]@;
            let ghost front = self@.take(i as int);
            proof {
                assert(record == before[seen]);
                assert(before.take(seen + 1).drop_last() =~= before.take(seen));
                assert(before.take(seen + 1).last() == record);
            }
            if same_text(self.records[i].row.id.as_str(), id.as_str()) {
                let _ = self.records.remove(i);
                proof {
                    assert(self@.take(i as int) =~= front);
                    assert forall|j: int| i <= j < self.records@.len() implies (
                    #[trigger] self.records@[j])@ == before[seen + 1 + j - i] by {
                        assert(self.records@[j] == records[j + 1]);
                    }
                }
            } else {
                i = i + 1;
                assert(self@.take(i as int) =~= front.push(record));
            }
            proof {
                seen = seen + 1;
            }
        }
        proof {
            assert(before.take(seen) =~= before);
            assert(self@.take(i as int) =~= self@);
        }
        Ok(known)
    }

    /// Records an artifact with its metadata, unless its path has a record by now, and
    /// tells what came of the registration.
    pub fn insert(&mut self, artifact: ModelArtifact, metadata: Vec<MetadataRow>) -> (registration:
        Registration)
        ensures
            (registration_view(registration), final(self)@) == registering(
                old(self)@,
                artifact@,
                entries_of(metadata@),
            ),
    {
        match self.find_by_path(artifact.path.as_str()) {
            Some(known) => Registration::AlreadyRegistered(known),
            None => {
                let ghost before = self.records@;
                let record = Record { row: artifact_to_row(&artifact), metadata };
                let ghost recorded = record@;
                self.records.push(record);
                assert(self@ =~= stored(before).push(recorded));
                Registration::Registered(artifact)
            },
        }
    }
}

// ---------------------------------------------------------------------------
// Laws.

/// What can happen to the records of a registry.
pub enum RegistryStep {
    /// A file is registered.
    Register(Artifact, Seq<(Seq<char>, Rendered)>),
    /// The contents of an artifact become known.
    Verify { id: Seq<char>, integrity: Integrity },
    /// An artifact is forgotten.
    Forget { id: Seq<char> },
}

/// The records after a step.
pub open spec fn records_after(records: Seq<Stored>, step: RegistryStep) -> Seq<Stored> {
    match step {
        RegistryStep::Register(candidate, metadata) => registering(
            records,
            candidate,
            metadata,
        ).1,
        RegistryStep::Verify { id, integrity } => with_known_contents(records, id, integrity),
        RegistryStep::Forget { id } => without(records, id),
    }
}

/// The records after many steps.
pub open spec fn records_after_all(records: Seq<Stored>, steps: Seq<RegistryStep>) -> Seq<Stored>
    decreases steps.len(),
{
    if steps.len() == 0 {
        records
    } else {
        records_after(records_after_all(records, steps.drop_last()), steps.last())
    }
}

/// Whether no step forgets an artifact.
pub open spec fn never_forgotten(id: Seq<char>, steps: Seq<RegistryStep>) -> bool {
    forall|i: int|
        0 <= i < steps.len() ==> (#[trigger] steps[i] matches RegistryStep::Forget { id: gone }
            ==> gone != id)
}

/// Whether one record says what another does, the contents aside.
pub open spec fn same_but_contents(a: Stored, b: Stored) -> bool {
    &&& a.metadata == b.metadata
    &&& a.row == (Row {
        integrity_state: a.row.integrity_state,
        digest_algorithm: a.row.digest_algorithm,
        digest: a.row.digest,
        ..b.row
    })
}

proof fn record_at_front(records: Seq<Stored>, more: Seq<Stored>, path: Seq<char>)
    ensures
        record_at(records + more, path) == match record_at(records, path) {
            Some(record) => Some(record),
            None => record_at(more, path),
        },
    decreases records.len(),
{
    if records.len() == 0 {
        assert(records + more =~= more);
    } else {
        assert((records + more).drop_first() =~= records.drop_first() + more);
        record_at_front(records.drop_first(), more, path);
    }
}

proof fn record_at_after_verify(
    records: Seq<Stored>,
    id: Seq<char>,
    integrity: Integrity,
    path: Seq<char>,
)
    ensures
        match (
            record_at(records, path),
            record_at(with_known_contents(records, id, integrity), path),
        ) {
            (Some(before), Some(after)) => same_but_contents(after, before),
            (None, None) => true,
            _ => false,
        },
    decreases records.len(),
{
    let after = with_known_contents(records, id, integrity);
    if records.len() > 0 {
        assert(after.drop_first() =~= with_known_contents(records.drop_first(), id, integrity));
        record_at_after_verify(records.drop_first(), id, integrity, path);
    }
}

proof fn record_at_after_forget(records: Seq<Stored>, id: Seq<char>, path: Seq<char>)
    ensures
        record_at(records, path) matches Some(record) && record.row.id != id ==> record_at(
            without(records, id),
            path,
        ) == record_at(records, path),
        record_at(records, path) is None ==> record_at(without(records, id), path) is None,
    decreases records.len(),
{
    if records.len() > 0 {
        let front = records.drop_last();
        let last = records.last();
        assert(records =~= front + seq![last]);
        record_at_front(front, seq![last], path);
        record_at_after_forget(front, id, path);
        assert(without(front, id).push(last) =~= without(front, id) + seq![last]);
        record_at_front(without(front, id), seq![last], path);
        assert(seq![last].drop_first() =~= Seq::empty());
        reveal_with_fuel(record_at, 2);
    }
}

/// A record stays what it was, its contents aside, until it is forgotten.
proof fn a_record_stays(records: Seq<Stored>, path: Seq<char>, steps: Seq<RegistryStep>)
    requires
        record_at(records, path) is Some,
        never_forgotten(record_at(records, path)->0.row.id, steps),
    ensures
        record_at(records_after_all(records, steps), path) matches Some(record)
            && same_but_contents(record, record_at(records, path)->0),
    decreases steps.len(),
{
    if steps.len() > 0 {
        let id = record_at(records, path)->0.row.id;
        let before = steps.drop_last();
        assert forall|i: int| 0 <= i < before.len() implies (#[trigger] before[i] matches
            RegistryStep::Forget { id: gone } ==> gone != id) by {
            assert(before[i] == steps[i]);
        }
        a_record_stays(records, path, before);
        let between = records_after_all(records, before);
        match steps.last() {
            RegistryStep::Register(candidate, metadata) => {
                let record = Stored { row: row_of(candidate), metadata };
                assert(between.push(record) =~= between + seq![record]);
                record_at_front(between, seq![record], path);
            },
            RegistryStep::Verify { id: checked, integrity } => {
                record_at_after_verify(between, checked, integrity, path);
            },
            RegistryStep::Forget { id: gone } => {
                assert(steps[steps.len() - 1] == steps.last());
                record_at_after_forget(between, gone, path);
            },
        }
    }
}

/// Registering is idempotent: a file that was registered and not forgotten since is
/// found again under its canonical path, with its identifier, its path and what was
/// first recorded of it, whatever its header would give now, and the records stay as
/// they are. The numbers of its metadata come back where they fit the columns.
pub proof fn registering_again_gives_the_first_record(
    records: Seq<Stored>,
    first: Artifact,
    metadata: Seq<(Seq<char>, Rendered)>,
    steps: Seq<RegistryStep>,
    again: Artifact,
    other: Seq<(Seq<char>, Rendered)>,
)
    requires
        record_at(records, first.path) is None,
        never_forgotten(first.id, steps),
        again.path == first.path,
    ensures
        ({
            let (new, recorded) = registering(records, first, metadata);
            let between = records_after_all(recorded, steps);
            let (found, after) = registering(between, again, other);
            &&& new == Registering::New(first)
            &&& known_at(between, first.path) == Some(found)
            &&& found matches Registering::Known(known) && {
                &&& known.id == first.id
                &&& known.path == first.path
                &&& known.metadata == artifact_in(row_of(first)).metadata
                &&& known.fingerprint == artifact_in(row_of(first)).fingerprint
                &&& known.registered_at == artifact_in(row_of(first)).registered_at
                &&& fits(first) ==> known.metadata == first.metadata && known.fingerprint
                    == first.fingerprint
            }
            &&& after == between
            &&& record_at(after, first.path)->0.metadata == metadata
        }),
{
    let (_, recorded) = registering(records, first, metadata);
    let record = Stored { row: row_of(first), metadata };
    assert(recorded =~= records + seq![record]);
    record_at_front(records, seq![record], first.path);
    a_record_stays(recorded, first.path, steps);
    if fits(first) {
        a_row_reads_back_as_its_artifact(first);
    }
}

proof fn record_with_front(records: Seq<Stored>, more: Seq<Stored>, id: Seq<char>)
    ensures
        record_with(records + more, id) == match record_with(records, id) {
            Some(record) => Some(record),
            None => record_with(more, id),
        },
    decreases records.len(),
{
    if records.len() == 0 {
        assert(records + more =~= more);
    } else {
        assert((records + more).drop_first() =~= records.drop_first() + more);
        record_with_front(records.drop_first(), more, id);
    }
}

/// What was registered is found under its path and under its identifier, with its
/// metadata. Where its numbers fit the columns it reads back as it was, registered at
/// a whole second and not yet verified.
pub proof fn what_is_registered_is_found(
    records: Seq<Stored>,
    artifact: Artifact,
    metadata: Seq<(Seq<char>, Rendered)>,
)
    requires
        record_at(records, artifact.path) is None,
        record_with(records, artifact.id) is None,
    ensures
        ({
            let after = registering(records, artifact, metadata).1;
            let record = Stored { row: row_of(artifact), metadata };
            &&& record_at(after, artifact.path) == Some(record)
            &&& record_with(after, artifact.id) == Some(record)
            &&& fits(artifact) ==> artifact_in(record.row) == (Artifact {
                integrity: Integrity::Unverified,
                registered_at: (artifact.registered_at - artifact.registered_at % SECOND) as i128,
                ..artifact
            })
        }),
{
    let record = Stored { row: row_of(artifact), metadata };
    assert(records.push(record) =~= records + seq![record]);
    record_at_front(records, seq![record], artifact.path);
    record_with_front(records, seq![record], artifact.id);
    if fits(artifact) {
        a_row_reads_back_as_its_artifact(artifact);
    }
}

/// Whether every path has one record.
pub open spec fn paths_are_distinct(records: Seq<Stored>) -> bool {
    forall|i: int, j: int|
        0 <= i < j < records.len() ==> (#[trigger] records[i]).row.canonical_path != (
        #[trigger] records[j]).row.canonical_path
}

proof fn no_record_at(records: Seq<Stored>, path: Seq<char>)
    requires
        record_at(records, path) is None,
    ensures
        forall|i: int|
            0 <= i < records.len() ==> (#[trigger] records[i]).row.canonical_path != path,
    decreases records.len(),
{
    if records.len() > 0 {
        let rest = records.drop_first();
        no_record_at(rest, path);
        assert forall|i: int| 0 <= i < records.len() implies (
        #[trigger] records[i]).row.canonical_path != path by {
            if i > 0 {
                assert(records[i] == rest[i - 1]);
            }
        }
    }
}

/// The records that are left stood among the records, in the same order.
proof fn without_is_a_part(records: Seq<Stored>, id: Seq<char>)
    requires
        paths_are_distinct(records),
    ensures
        paths_are_distinct(without(records, id)),
        forall|i: int|
            0 <= i < without(records, id).len() ==> records.contains(
                #[trigger] without(records, id)[i],
            ) && without(records, id)[i].row.id != id,
    decreases records.len(),
{
    if records.len() > 0 {
        let front = records.drop_last();
        assert forall|i: int, j: int| 0 <= i < j < front.len() implies (
        #[trigger] front[i]).row.canonical_path != (#[trigger] front[j]).row.canonical_path by {
            assert(records[i].row.canonical_path != records[j].row.canonical_path);
        }
        without_is_a_part(front, id);
        let left = without(front, id);
        let after = without(records, id);
        assert forall|i: int| 0 <= i < after.len() implies records.contains(#[trigger] after[i])
            && after[i].row.id != id by {
            if i < left.len() {
                assert(after[i] == left[i]);
                let at = choose|at: int| 0 <= at < front.len() && front[at] == left[i];
                assert(records[at] == left[i]);
            } else {
                assert(records[records.len() - 1] == after[i]);
            }
        }
        assert forall|i: int, j: int| 0 <= i < j < after.len() implies (
        #[trigger] after[i]).row.canonical_path != (#[trigger] after[j]).row.canonical_path by {
            if j < left.len() {
                assert(left[i].row.canonical_path != left[j].row.canonical_path);
            } else {
                let at = choose|at: int| 0 <= at < front.len() && front[at] == left[i];
                assert(records[at].row.canonical_path != records[records.len()
                    - 1].row.canonical_path);
            }
        }
    }
}

/// Whatever happens to a registry, a path never has two records.
pub proof fn a_path_has_one_record(records: Seq<Stored>, steps: Seq<RegistryStep>)
    requires
        paths_are_distinct(records),
    ensures
        paths_are_distinct(records_after_all(records, steps)),
    decreases steps.len(),
{
    if steps.len() > 0 {
        let before = steps.drop_last();
        a_path_has_one_record(records, before);
        let between = records_after_all(records, before);
        let after = records_after(between, steps.last());
        match steps.last() {
            RegistryStep::Register(candidate, _) => {
                if record_at(between, candidate.path) is None {
                    no_record_at(between, candidate.path);
                }
            },
            RegistryStep::Verify { id, integrity } => {
                assert forall|i: int, j: int| 0 <= i < j < after.len() implies (
                #[trigger] after[i]).row.canonical_path != (
                #[trigger] after[j]).row.canonical_path by {
                    assert(between[i].row.canonical_path != between[j].row.canonical_path);
                }
            },
            RegistryStep::Forget { id } => {
                without_is_a_part(between, id);
            },
        }
    }
}

proof fn no_record_with(records: Seq<Stored>, id: Seq<char>)
    requires
        forall|i: int| 0 <= i < records.len() ==> (#[trigger] records[i]).row.id != id,
    ensures
        record_with(records, id) is None,
    decreases records.len(),
{
    if records.len() > 0 {
        let rest = records.drop_first();
        assert forall|i: int| 0 <= i < rest.len() implies (#[trigger] rest[i]).row.id != id by {
            assert(rest[i] == records[i + 1]);
        }
        no_record_with(rest, id);
    }
}

/// What was forgotten is not known any more, and nothing else is forgotten.
pub proof fn what_is_forgotten_is_gone(records: Seq<Stored>, id: Seq<char>, path: Seq<char>)
    requires
        paths_are_distinct(records),
    ensures
        record_with(without(records, id), id) is None,
        record_at(records, path) matches Some(record) && record.row.id != id ==> record_at(
            without(records, id),
            path,
        ) == record_at(records, path),
{
    without_is_a_part(records, id);
    no_record_with(without(records, id), id);
    record_at_after_forget(records, id, path);
}

proof fn later_rows_bounds(rows: Seq<Row>, time: i64)
    ensures
        0 <= later_rows(rows, time) <= rows.len(),
        forall|i: int|
            0 <= i < later_rows(rows, time) ==> (#[trigger] rows[i]).registered_at > time,
        later_rows(rows, time) < rows.len() ==> rows[later_rows(rows, time)].registered_at
            <= time,
    decreases rows.len(),
{
    if rows.len() > 0 && rows[0].registered_at > time {
        let rest = rows.drop_first();
        later_rows_bounds(rest, time);
        assert forall|i: int| 0 <= i < later_rows(rows, time) implies (
        #[trigger] rows[i]).registered_at > time by {
            if i > 0 {
                assert(rows[i] == rest[i - 1]);
            }
        }
    }
}

/// A listing holds every record and nothing else, and what was registered later stands
/// first; a record that is no older than any other stands first of all, also among
/// those of its own second.
pub proof fn the_latest_is_listed_first(records: Seq<Stored>)
    ensures
        listed(records).len() == records.len(),
        forall|i: int, j: int|
            0 <= i < j < listed(records).len() ==> (#[trigger] listed(records)[i]).registered_at
                >= (#[trigger] listed(records)[j]).registered_at,
        listed(records).to_multiset() == records.map_values(|s: Stored| s.row).to_multiset(),
        records.len() > 0 && (forall|i: int|
            0 <= i < records.len() ==> (#[trigger] records[i]).row.registered_at
                <= records.last().row.registered_at) ==> listed(records)[0] == records.last().row,
    decreases records.len(),
{
    let rows = records.map_values(|s: Stored| s.row);
    if records.len() == 0 {
        assert(listed(records) =~= rows);
    } else {
        let front = records.drop_last();
        let row = records.last().row;
        let earlier = listed(front);
        the_latest_is_listed_first(front);
        later_rows_bounds(earlier, row.registered_at);
        let at = later_rows(earlier, row.registered_at);
        let after = listed(records);
        assert forall|i: int, j: int| 0 <= i < j < after.len() implies (
        #[trigger] after[i]).registered_at >= (#[trigger] after[j]).registered_at by {
            let p = if i < at { i } else { i - 1 };
            let q = if j < at { j } else { j - 1 };
            if i != at && j != at {
                assert(earlier[p].registered_at >= earlier[q].registered_at);
            } else if i == at {
                assert(after[j] == earlier[j - 1]);
                if at < j - 1 {
                    assert(earlier[at].registered_at >= earlier[j - 1].registered_at);
                }
            } else {
                assert(after[i] == earlier[i]);
            }
        }
        broadcast use vstd::seq_lib::group_to_multiset_ensures;

        let others = front.map_values(|s: Stored| s.row);
        assert(rows =~= others.push(row));
        if forall|i: int|
            0 <= i < records.len() ==> (#[trigger] records[i]).row.registered_at
                <= row.registered_at {
            if at > 0 {
                assert(earlier.contains(earlier[0]));
                assert(others.to_multiset().count(earlier[0]) > 0);
                assert(others.contains(earlier[0]));
                let i = choose|i: int| 0 <= i < others.len() && others[i] == earlier[0];
                assert(records[i].row == earlier[0]);
            }
        }
    }
}

/// A path is found at the first record that has it, and so is an identifier; nothing is
/// found where no record has it.
pub proof fn a_record_is_found_where_it_is(records: Seq<Stored>, key: Seq<char>, i: int)
    ensures
        0 <= i < records.len() && records[i].row.canonical_path == key && (forall|j: int|
            0 <= j < i ==> (#[trigger] records[j]).row.canonical_path != key) ==> record_at(
            records,
            key,
        ) == Some(records[i]),
        0 <= i < records.len() && records[i].row.id == key && (forall|j: int|
            0 <= j < i ==> (#[trigger] records[j]).row.id != key) ==> record_with(records, key)
            == Some(records[i]),
        (forall|j: int|
            0 <= j < records.len() ==> (#[trigger] records[j]).row.canonical_path != key)
            ==> record_at(records, key) is None,
        (forall|j: int| 0 <= j < records.len() ==> (#[trigger] records[j]).row.id != key)
            ==> record_with(records, key) is None,
    decreases records.len(),
{
    if records.len() > 0 {
        let rest = records.drop_first();
        a_record_is_found_where_it_is(rest, key, i - 1);
        assert forall|j: int| 0 <= j < rest.len() implies #[trigger] rest[j] == records[j + 1] by {
        }
        if 0 < i < records.len() {
            assert(rest[i - 1] == records[i]);
        }
        if forall|j: int| 0 <= j < i ==> (#[trigger] records[j]).row.canonical_path != key {
            assert(forall|j: int|
                0 <= j < i - 1 && j < rest.len() ==> (#[trigger] rest[j]).row.canonical_path
                    != key) by {
                assert forall|j: int| 0 <= j < i - 1 && j < rest.len() implies (
                #[trigger] rest[j]).row.canonical_path != key by {
                    assert(records[j + 1].row.canonical_path != key);
                }
            }
            if 0 < i < records.len() {
                assert(records[0].row.canonical_path != key);
            }
        }
        if forall|j: int| 0 <= j < i ==> (#[trigger] records[j]).row.id != key {
            assert forall|j: int| 0 <= j < i - 1 && j < rest.len() implies (
            #[trigger] rest[j]).row.id != key by {
                assert(records[j + 1].row.id != key);
            }
            if 0 < i < records.len() {
                assert(records[0].row.id != key);
            }
        }
        if forall|j: int|
            0 <= j < records.len() ==> (#[trigger] records[j]).row.canonical_path != key {
            assert(records[0].row.canonical_path != key);
            assert forall|j: int| 0 <= j < rest.len() implies (
            #[trigger] rest[j]).row.canonical_path != key by {
                assert(records[j + 1].row.canonical_path != key);
            }
        }
        if forall|j: int| 0 <= j < records.len() ==> (#[trigger] records[j]).row.id != key {
            assert(records[0].row.id != key);
            assert forall|j: int| 0 <= j < rest.len() implies (#[trigger] rest[j]).row.id
                != key by {
                assert(records[j + 1].row.id != key);
            }
        }
    }
}

/// Forgetting takes the records of an identifier away and leaves all others as they are,
/// in their order; learning the contents of an artifact changes its record alone, and of
/// that the contents alone.
pub proof fn other_records_are_left_alone(
    records: Seq<Stored>,
    id: Seq<char>,
    integrity: Integrity,
    i: int,
)
    ensures
        without(records, id) == records.filter(|s: Stored| s.row.id != id),
        with_known_contents(records, id, integrity).len() == records.len(),
        0 <= i < records.len() ==> {
            let after = with_known_contents(records, id, integrity)[i];
            &&& after.metadata == records[i].metadata
            &&& records[i].row.id != id ==> after == records[i]
            &&& records[i].row.id == id ==> artifact_in(after.row) == (Artifact {
                integrity,
                ..artifact_in(records[i].row)
            })
        },
    decreases records.len(),
{
    reveal(Seq::filter);
    if records.len() > 0 {
        other_records_are_left_alone(records.drop_last(), id, integrity, i);
    }
    if 0 <= i < records.len() {
        a_digest_reads_back(records[i].row, integrity);
    }
}

/// One more record is listed before all that were registered no later and behind all
/// that were registered later, and the order of those does not change.
pub proof fn one_more_record_is_put_in_its_place(records: Seq<Stored>, record: Stored)
    ensures
        exists|n: int|
            {
                &&& 0 <= n <= listed(records).len()
                &&& listed(records.push(record)) == #[trigger] listed(records).insert(n, record.row)
                &&& forall|i: int|
                    0 <= i < n ==> (#[trigger] listed(records)[i]).registered_at
                        > record.row.registered_at
                &&& forall|i: int|
                    n <= i < listed(records).len() ==> (#[trigger] listed(records)[i]).registered_at
                        <= record.row.registered_at
            },
{
    let all = listed(records);
    let time = record.row.registered_at;
    let n = later_rows(all, time);
    the_latest_is_listed_first(records);
    later_rows_bounds(all, time);
    assert(records.push(record).drop_last() =~= records);
    assert(listed(records.push(record)) == all.insert(n, record.row));
    assert forall|i: int| n <= i < all.len() implies (#[trigger] all[i]).registered_at <= time by {
        if n < i {
            assert(all[n].registered_at >= all[i].registered_at);
        }
    }
}

} // verus!
