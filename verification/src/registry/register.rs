//! Registering a file.
//!
//! The path is looked at and made canonical, a path that is known keeps its record,
//! and the header of an unknown file is read and decides whether it is a model
//! container. Each stage is a type that only the stage before it can give, so
//! nothing is inserted for a path that is already known or a file that was not
//! understood.

use vstd::prelude::*;
use vstd::string::*;

use crate::registry::artifact::{
    is_kept_as, metadata_of, rendering, Artifact, ArtifactFingerprint, ArtifactId, ModelArtifact,
    Rendered, ID_BYTES,
};
use crate::registry::gguf::{parse_read, parsed_read, tabulates, GgufHeader, Pair, Parsed};
use crate::registry::records::{
    entries_of, known_at, registering, registration_view, ArtifactRegistry,
};
use crate::registry::store::{
    artifact_to_row, metadata_rows, record, recorded_artifact, row_of, ArtifactRow, MetadataRow,
    Registration, RegistryError, RegistryFault,
};
use crate::text::{hex, opt_text};

verus! {

/// What a path leads to, with symbolic links followed.
#[derive(Debug, Clone, PartialEq, Eq)]
pub enum Looked {
    /// Nothing: there is no such path, or it is a link that leads nowhere.
    NotFound,
    /// It could not be looked at.
    Failed(String),
    /// A directory, or a link to one.
    Directory,
    /// A regular file, or a link to one.
    File,
    /// Anything else, such as a device, a pipe or a socket, or a link to it.
    Other,
}

/// A registration of a path that leads to a regular file.
#[derive(Debug)]
pub struct Admitted {
    path: String,
}

impl View for Admitted {
    type V = Seq<char>;

    closed spec fn view(&self) -> Seq<char> {
        self.path@
    }
}

/// Whether what a path leads to may be registered, as far as that shows.
pub fn admit_path(path: &str, looked: Looked) -> (result: Result<Admitted, RegistryError>)
    ensures
        match looked {
            Looked::NotFound => result matches Err(e) && e@ == (RegistryFault::NotFound {
                path: path@,
            }),
            Looked::Failed(reason) => result matches Err(e) && e@ == RegistryFault::Io(reason@),
            Looked::Directory => result matches Err(e) && e@ == (RegistryFault::NotAFile {
                path: path@,
                reason: "path is a directory"@,
            }),
            Looked::Other => result matches Err(e) && e@ == (RegistryFault::NotAFile {
                path: path@,
                reason: "path is not a regular file"@,
            }),
            Looked::File => result matches Ok(admitted) && admitted@ == path@,
        },
{
    match looked {
        Looked::NotFound => Err(RegistryError::NotFound { path: path.to_owned() }),
        Looked::Failed(reason) => Err(RegistryError::Io(reason)),
        Looked::Directory => Err(
            RegistryError::NotAFile {
                path: path.to_owned(),
                reason: "path is a directory".to_owned(),
            },
        ),
        Looked::Other => Err(
            RegistryError::NotAFile {
                path: path.to_owned(),
                reason: "path is not a regular file".to_owned(),
            },
        ),
        Looked::File => Ok(Admitted { path: path.to_owned() }),
    }
}

/// Why a path could not be made canonical.
#[derive(Debug, Clone, PartialEq, Eq)]
pub enum Unresolved {
    /// It leads nowhere any more.
    NotFound,
    /// Anything else.
    Failed(String),
}

/// A registration whose path was made canonical: symbolic links and aliases are
/// resolved, so one file registers once however it is reached.
pub struct Located {
    canonical: String,
}

impl View for Located {
    type V = Seq<char>;

    closed spec fn view(&self) -> Seq<char> {
        self.canonical@
    }
}

/// A registration of a path that no record has.
pub struct Unregistered {
    canonical: String,
}

impl View for Unregistered {
    type V = Seq<char>;

    closed spec fn view(&self) -> Seq<char> {
        self.canonical@
    }
}

/// What a canonical path turned out to be.
pub enum Lookup {
    Known(Registration),
    Unknown(Unregistered),
}

impl Located {
    /// Goes on with the canonical form of the path, or why there is none.
    pub fn new(admitted: Admitted, canonical: Result<String, Unresolved>) -> (result: Result<
        Self,
        RegistryError,
    >)
        ensures
            match canonical {
                Ok(path) => result matches Ok(located) && located@ == path@,
                Err(Unresolved::NotFound) => result matches Err(e) && e@
                    == (RegistryFault::NotFound { path: admitted@ }),
                Err(Unresolved::Failed(reason)) => result matches Err(e) && e@
                    == RegistryFault::Io(reason@),
            },
    {
        match canonical {
            Ok(canonical) => Ok(Located { canonical }),
            Err(Unresolved::NotFound) => Err(RegistryError::NotFound { path: admitted.path }),
            Err(Unresolved::Failed(reason)) => Err(RegistryError::Io(reason)),
        }
    }

    /// The path to look for among the records.
    pub fn path(&self) -> (path: &str)
        ensures
            path@ == self@,
    {
        self.canonical.as_str()
    }

    /// Goes on with the records of a registry: a path that is known keeps its record
    /// and its identifier.
    pub fn found(self, registry: &ArtifactRegistry) -> (lookup: Lookup)
        ensures
            match (lookup, known_at(registry@, self@)) {
                (Lookup::Known(known), Some(expected)) => registration_view(known) == expected,
                (Lookup::Unknown(next), None) => next@ == self@,
                _ => false,
            },
    {
        match registry.find_by_path(self.canonical.as_str()) {
            Some(artifact) => Lookup::Known(Registration::AlreadyRegistered(artifact)),
            None => Lookup::Unknown(Unregistered { canonical: self.canonical }),
        }
    }
}

/// What could be read of a file: its beginning, as far as a header could reach, and
/// why reading stopped if it failed there.
#[derive(Debug, PartialEq, Eq)]
pub struct FileRead {
    pub bytes: Vec<u8>,
    pub failure: Option<String>,
}

/// A registration of a file that is a model container.
pub struct Inspected {
    canonical: String,
    header: GgufHeader,
}

impl Inspected {
    pub closed spec fn path_view(&self) -> Seq<char> {
        self.canonical@
    }

    pub closed spec fn header_view(&self) -> GgufHeader {
        self.header
    }
}

/// Whether a header holds what was parsed.
pub open spec fn header_is(header: GgufHeader, p: Parsed) -> bool {
    &&& header.version == p.version
    &&& header.tensor_count == p.tensor_count
    &&& header.metadata_count == p.metadata_count
    &&& tabulates(header.pairs(), p.entries)
}

impl Unregistered {
    /// Goes on with what could be read of the file, or why it could not be opened.
    /// The contents decide whether it is a model container; its name is not
    /// consulted.
    pub fn read(self, file: Result<FileRead, String>) -> (result: Result<Inspected, RegistryError>)
        ensures
            match file {
                Err(reason) => result matches Err(e) && e@ == RegistryFault::Io(reason@),
                Ok(read) => match (result, parsed_read(read.bytes@, opt_text(read.failure))) {
                    (Ok(next), Ok(p)) => next.path_view() == self@ && header_is(
                        next.header_view(),
                        p,
                    ),
                    (Err(e), Err(fault)) => e@ == (RegistryFault::NotAnArtifact {
                        path: self@,
                        source: fault,
                    }),
                    _ => false,
                },
            },
    {
        match file {
            Err(reason) => Err(RegistryError::Io(reason)),
            Ok(read) => match parse_read(read.bytes.as_slice(), read.failure) {
                Ok(header) => Ok(Inspected { canonical: self.canonical, header }),
                Err(source) => Err(RegistryError::NotAnArtifact { path: self.canonical, source }),
            },
        }
    }
}

/// The metadata entries that are recorded for a header.
pub open spec fn recorded_entries(header: GgufHeader) -> Seq<(Seq<char>, Rendered)> {
    header.pairs().map_values(|p: Pair| (p.0, rendering(p.1)))
}

/// A registration that is ready to be inserted.
pub struct Pending {
    artifact: ModelArtifact,
    header: GgufHeader,
}

impl Pending {
    pub closed spec fn artifact_view(&self) -> ModelArtifact {
        self.artifact
    }

    pub closed spec fn header_view(&self) -> GgufHeader {
        self.header
    }
}

/// The artifact a header is recorded as.
pub open spec fn registered_as(
    id: Seq<char>,
    canonical: Seq<char>,
    header: GgufHeader,
    fingerprint: ArtifactFingerprint,
    now: i128,
) -> Artifact {
    recorded_artifact(
        id,
        canonical,
        metadata_of(
            header.version,
            header.tensor_count,
            header.metadata_count,
            header.pairs(),
        ),
        fingerprint,
        now,
    )
}

impl Inspected {
    /// Goes on with what was observed of the file, under an identifier.
    pub fn identified(
        self,
        id: ArtifactId,
        fingerprint: ArtifactFingerprint,
        now: i128,
    ) -> (pending: Pending)
        ensures
            pending.artifact_view()@ == registered_as(
                id@,
                self.path_view(),
                self.header_view(),
                fingerprint,
                now,
            ),
            pending.header_view() == self.header_view(),
            pending.artifact_view().id@ == id@,
            pending.artifact_view().path@ == self.path_view(),
            pending.artifact_view().fingerprint == fingerprint,
            pending.artifact_view().registered_at == now,
            pending.artifact_view().integrity is Unverified,
    {
        let artifact = record(id, self.canonical.as_str(), &self.header, fingerprint, now);
        Pending { artifact, header: self.header }
    }

    /// Goes on with what was observed of the file, or why it could not be, under a
    /// new identifier.
    pub fn observed(self, fingerprint: Result<ArtifactFingerprint, String>, now: i128) -> (result:
        Result<Pending, RegistryError>)
        ensures
            match fingerprint {
                Err(reason) => result matches Err(e) && e@ == RegistryFault::Io(reason@),
                Ok(fingerprint) => match result {
                    Ok(pending) => {
                        &&& pending.header_view() == self.header_view()
                        &&& pending.artifact_view()@ == registered_as(
                            pending.artifact_view()@.id,
                            self.path_view(),
                            self.header_view(),
                            fingerprint,
                            now,
                        )
                        &&& exists|entropy: Seq<u8>|
                            entropy.len() == ID_BYTES && pending.artifact_view()@.id
                                == #[trigger] hex(entropy)
                    },
                    Err(e) => exists|cause: Seq<char>|
                        e@ == RegistryFault::Io(
                            #[trigger] ("system randomness unavailable: "@ + cause),
                        ),
                },
            },
    {
        let reason = match fingerprint {
            Err(reason) => reason,
            Ok(fingerprint) => match ArtifactId::generate() {
                Ok(id) => {
                    return Ok(self.identified(id, fingerprint, now));
                },
                Err(reason) => reason,
            },
        };
        let mut header = self.header;
        header.dismantle();
        Err(RegistryError::Io(reason))
    }
}

impl Pending {
    /// The row to insert.
    pub fn row(&self) -> (row: ArtifactRow)
        ensures
            row@ == row_of(self.artifact_view()@),
            row.id@ == self.artifact_view().id@,
            row.canonical_path@ == self.artifact_view().path@,
    {
        artifact_to_row(&self.artifact)
    }

    /// The metadata entries to insert, including keys the runtime does not
    /// interpret.
    pub fn metadata(&self) -> (rows: Vec<MetadataRow>)
        ensures
            entries_of(rows@) == recorded_entries(self.header_view()),
            rows@.len() == self.header_view().metadata@.len(),
            forall|j: int|
                0 <= j < rows@.len() ==> (#[trigger] rows@[j]).key@
                    == self.header_view().metadata@[j].key@ && is_kept_as(
                    self.header_view().metadata@[j].value,
                    rows@[j].value,
                ),
    {
        metadata_rows(&self.header)
    }

    /// Ends with what came of writing the rows. Where they were written, the artifact
    /// is recorded, unless its path has a record by now.
    pub fn inserted(self, registry: &mut ArtifactRegistry, written: Result<(), String>) -> (result:
        Result<Registration, RegistryError>)
        ensures
            match written {
                Ok(()) => result matches Ok(registration) && (
                    registration_view(registration),
                    final(registry)@,
                ) == registering(
                    old(registry)@,
                    self.artifact_view()@,
                    recorded_entries(self.header_view()),
                ),
                Err(reason) => result matches Err(e) && e@ == RegistryFault::Storage(reason@)
                    && final(registry)@ == old(registry)@,
            },
    {
        let metadata = self.metadata();
        let mut header = self.header;
        header.dismantle();
        match written {
            Ok(()) => Ok(registry.insert(self.artifact, metadata)),
            Err(reason) => Err(RegistryError::Storage(reason)),
        }
    }
}

} // verus!
