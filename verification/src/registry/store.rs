//! What is recorded of an artifact, and what is read back.
//!
//! Records are kept in a database, whose integers are signed 64-bit. An
//! [`ArtifactRow`] holds the columns; a row that was written reads back as the
//! artifact it was made from ([`a_row_reads_back_as_its_artifact`]), so a file that
//! nobody touched is still unchanged when its record is next looked at
//! ([`an_untouched_file_stays_unchanged`]).

use vstd::prelude::*;
use vstd::string::*;

use crate::registry::artifact::{
    algorithm_name, algorithm_named, detect_drift, drift, format_name, format_named, is_kept_as,
    metadata_of,
    render_value, rendering, Artifact, ArtifactFingerprint, ArtifactFormat, ArtifactId,
    ArtifactIntegrity, ArtifactMetadata, ArtifactState, DigestAlgorithm, Integrity, Metadata,
    ModelArtifact, Rendered, RenderedValue,
};
use crate::registry::digest::{sha256, ContentDigest};
use crate::registry::gguf::{fault_message, Fault, GgufError, GgufHeader, Pair};
use crate::text::{opt_text, same_text};

verus! {

/// Nanoseconds in a second.
pub const SECOND: i128 = 1_000_000_000;

/// Why a registry operation failed.
#[derive(Debug)]
pub enum RegistryError {
    /// The path does not exist.
    NotFound { path: String },
    /// The path is not a regular file.
    NotAFile { path: String, reason: String },
    /// The file is not a container this runtime can read.
    NotAnArtifact { path: String, source: GgufError },
    /// The artifact is not registered.
    UnknownArtifact { id: ArtifactId },
    /// Storage failed.
    Storage(String),
    /// The filesystem failed.
    Io(String),
}

/// What a [`RegistryError`] says.
pub enum RegistryFault {
    NotFound { path: Seq<char> },
    NotAFile { path: Seq<char>, reason: Seq<char> },
    NotAnArtifact { path: Seq<char>, source: Fault },
    UnknownArtifact { id: Seq<char> },
    Storage(Seq<char>),
    Io(Seq<char>),
}

/// A fault in words.
pub open spec fn registry_fault_text(fault: RegistryFault) -> Seq<char> {
    match fault {
        RegistryFault::NotFound { path } => "no such file: "@ + path,
        RegistryFault::NotAFile { path, reason } => path + " is not a model file: "@ + reason,
        RegistryFault::NotAnArtifact { path, source } => path + " cannot be read: "@
            + fault_message(source),
        RegistryFault::UnknownArtifact { id } => "no artifact registered with id "@ + id,
        RegistryFault::Storage(reason) => "artifact registry storage failure: "@ + reason,
        RegistryFault::Io(reason) => "artifact registry filesystem failure: "@ + reason,
    }
}

impl RegistryError {
    pub open spec fn view(&self) -> RegistryFault {
        match self {
            RegistryError::NotFound { path } => RegistryFault::NotFound { path: path@ },
            RegistryError::NotAFile { path, reason } => RegistryFault::NotAFile {
                path: path@,
                reason: reason@,
            },
            RegistryError::NotAnArtifact { path, source } => RegistryFault::NotAnArtifact {
                path: path@,
                source: source@,
            },
            RegistryError::UnknownArtifact { id } => RegistryFault::UnknownArtifact { id: id@ },
            RegistryError::Storage(reason) => RegistryFault::Storage(reason@),
            RegistryError::Io(reason) => RegistryFault::Io(reason@),
        }
    }

    pub fn to_string(&self) -> (text: String)
        ensures
            text@ == registry_fault_text(self@),
    {
        match self {
            RegistryError::NotFound { path } => {
                let mut text = "no such file: ".to_owned();
                text.append(path.as_str());
                text
            },
            RegistryError::NotAFile { path, reason } => {
                let mut text = path.clone();
                text.append(" is not a model file: ");
                text.append(reason.as_str());
                text
            },
            RegistryError::NotAnArtifact { path, source } => {
                let mut text = path.clone();
                text.append(" cannot be read: ");
                text.append(source.to_string().as_str());
                text
            },
            RegistryError::UnknownArtifact { id } => {
                let mut text = "no artifact registered with id ".to_owned();
                text.append(id.as_str());
                text
            },
            RegistryError::Storage(reason) => {
                let mut text = "artifact registry storage failure: ".to_owned();
                text.append(reason.as_str());
                text
            },
            RegistryError::Io(reason) => {
                let mut text = "artifact registry filesystem failure: ".to_owned();
                text.append(reason.as_str());
                text
            },
        }
    }
}

/// The outcome of registering a path.
#[derive(Debug, Clone, PartialEq, Eq)]
pub enum Registration {
    /// The artifact was recorded for the first time.
    Registered(ModelArtifact),
    /// The path was already registered, and keeps its original identifier.
    AlreadyRegistered(ModelArtifact),
}

impl Registration {
    /// The artifact, however it was arrived at.
    pub fn artifact(&self) -> (artifact: &ModelArtifact)
        ensures
            *artifact == match self {
                Registration::Registered(a) => *a,
                Registration::AlreadyRegistered(a) => *a,
            },
    {
        match self {
            Registration::Registered(artifact) => artifact,
            Registration::AlreadyRegistered(artifact) => artifact,
        }
    }

    /// Whether this call created the record.
    pub fn is_new(&self) -> (new: bool)
        ensures
            new == (self is Registered),
    {
        matches!(self, Registration::Registered(_))
    }
}

/// The artifact that is recorded for a header. Registration reads only the header,
/// so nothing is claimed of the rest of the contents.
pub open spec fn recorded_artifact(
    id: Seq<char>,
    canonical: Seq<char>,
    metadata: Metadata,
    fingerprint: ArtifactFingerprint,
    now: i128,
) -> Artifact {
    Artifact {
        id,
        path: canonical,
        format: ArtifactFormat::Gguf,
        size_bytes: fingerprint.size_bytes,
        metadata,
        integrity: Integrity::Unverified,
        fingerprint,
        registered_at: now,
    }
}

/// The artifact to record for a header, under an identifier.
pub fn record(
    id: ArtifactId,
    canonical: &str,
    header: &GgufHeader,
    fingerprint: ArtifactFingerprint,
    now: i128,
) -> (artifact: ModelArtifact)
    ensures
        artifact.id@ == id@,
        artifact.path@ == canonical@,
        artifact.size_bytes == fingerprint.size_bytes,
        artifact.fingerprint == fingerprint,
        artifact.integrity is Unverified,
        artifact.registered_at == now,
        artifact.metadata.container_version == header.version,
        artifact.metadata.tensor_count == header.tensor_count,
        artifact.metadata.metadata_count == header.metadata_count,
        artifact@ == recorded_artifact(
            id@,
            canonical@,
            metadata_of(
                header.version,
                header.tensor_count,
                header.metadata_count,
                header.pairs(),
            ),
            fingerprint,
            now,
        ),
{
    ModelArtifact {
        id,
        path: canonical.to_owned(),
        format: ArtifactFormat::Gguf,
        size_bytes: fingerprint.size_bytes,
        metadata: ArtifactMetadata::from_header(header),
        integrity: ArtifactIntegrity::Unverified,
        fingerprint,
        registered_at: now,
    }
}

// ---------------------------------------------------------------------------
// Rows.

/// An unsigned number in a signed column. What does not fit is stored as the
/// largest number.
pub open spec fn signed_of(value: u64) -> i64 {
    if value > i64::MAX {
        i64::MAX
    } else {
        value as i64
    }
}

/// An unsigned number out of a signed column.
pub open spec fn unsigned_of(value: i64) -> u64 {
    if value < 0 {
        0
    } else {
        value as u64
    }
}

/// Converts an unsigned value at the storage boundary, saturating.
pub fn to_signed(value: u64) -> (stored: i64)
    ensures
        stored == signed_of(value),
{
    if value > i64::MAX as u64 {
        i64::MAX
    } else {
        value as i64
    }
}

/// Converts a stored value back.
pub fn from_signed(value: i64) -> (read: u64)
    ensures
        read == unsigned_of(value),
{
    if value < 0 {
        0
    } else {
        value as u64
    }
}

/// A time in whole seconds, as it is stored: never before the epoch.
pub open spec fn epoch_of(time: i128) -> i64 {
    if time < 0 {
        0
    } else if time / SECOND > i64::MAX {
        i64::MAX
    } else {
        (time / SECOND) as i64
    }
}

/// Stores a time in whole seconds.
pub fn to_epoch(time: i128) -> (stored: i64)
    ensures
        stored == epoch_of(time),
{
    if time < 0 {
        0
    } else {
        let seconds: i128 = time / SECOND;
        if seconds > i64::MAX as i128 {
            i64::MAX
        } else {
            seconds as i64
        }
    }
}

/// A time out of a stored number of seconds.
pub open spec fn time_of_epoch(seconds: i64) -> i128 {
    if seconds < 0 {
        0
    } else {
        (seconds * SECOND) as i128
    }
}

/// Reads a time stored in whole seconds.
pub fn from_epoch(seconds: i64) -> (time: i128)
    ensures
        time == time_of_epoch(seconds),
{
    if seconds < 0 {
        0
    } else {
        seconds as i128 * SECOND
    }
}

/// A time in nanoseconds, as it is stored.
pub open spec fn nanos_of(time: i128) -> i64 {
    if time < 0 {
        0
    } else if time > i64::MAX {
        i64::MAX
    } else {
        time as i64
    }
}

/// Stores a modification time without losing precision.
///
/// Whole seconds are not enough: a truncated value never equals the one read from
/// the file afterwards, and every artifact would report as changed at once.
pub fn to_epoch_nanos(time: i128) -> (stored: i64)
    ensures
        stored == nanos_of(time),
{
    if time < 0 {
        0
    } else if time > i64::MAX as i128 {
        i64::MAX
    } else {
        time as i64
    }
}

/// A time out of a stored number of nanoseconds.
pub open spec fn time_of_nanos(nanos: i64) -> i128 {
    if nanos < 0 {
        0
    } else {
        nanos as i128
    }
}

/// Reads a time stored in nanoseconds.
pub fn from_epoch_nanos(nanos: i64) -> (time: i128)
    ensures
        time == time_of_nanos(nanos),
{
    if nanos < 0 {
        0
    } else {
        nanos as i128
    }
}

/// The columns of one record, in order.
#[derive(Debug, Clone, PartialEq, Eq)]
pub struct ArtifactRow {
    pub id: String,
    pub canonical_path: String,
    pub format: String,
    pub size_bytes: i64,
    pub container_version: u32,
    pub tensor_count: i64,
    pub metadata_count: i64,
    pub architecture: Option<String>,
    pub name: Option<String>,
    pub file_type: Option<i64>,
    pub context_length: Option<i64>,
    pub embedding_length: Option<i64>,
    pub tokenizer_model: Option<String>,
    pub chat_template: Option<String>,
    pub registered_at: i64,
    pub mtime_at_registration: Option<i64>,
    pub integrity_state: String,
    pub digest_algorithm: Option<String>,
    pub digest: Option<Vec<u8>>,
}

/// What an [`ArtifactRow`] says.
pub struct Row {
    pub id: Seq<char>,
    pub canonical_path: Seq<char>,
    pub format: Seq<char>,
    pub size_bytes: i64,
    pub container_version: u32,
    pub tensor_count: i64,
    pub metadata_count: i64,
    pub architecture: Option<Seq<char>>,
    pub name: Option<Seq<char>>,
    pub file_type: Option<i64>,
    pub context_length: Option<i64>,
    pub embedding_length: Option<i64>,
    pub tokenizer_model: Option<Seq<char>>,
    pub chat_template: Option<Seq<char>>,
    pub registered_at: i64,
    pub mtime_at_registration: Option<i64>,
    pub integrity_state: Seq<char>,
    pub digest_algorithm: Option<Seq<char>>,
    pub digest: Option<Seq<u8>>,
}

impl ArtifactRow {
    pub open spec fn view(&self) -> Row {
        Row {
            id: self.id@,
            canonical_path: self.canonical_path@,
            format: self.format@,
            size_bytes: self.size_bytes,
            container_version: self.container_version,
            tensor_count: self.tensor_count,
            metadata_count: self.metadata_count,
            architecture: opt_text(self.architecture),
            name: opt_text(self.name),
            file_type: self.file_type,
            context_length: self.context_length,
            embedding_length: self.embedding_length,
            tokenizer_model: opt_text(self.tokenizer_model),
            chat_template: opt_text(self.chat_template),
            registered_at: self.registered_at,
            mtime_at_registration: self.mtime_at_registration,
            integrity_state: self.integrity_state@,
            digest_algorithm: opt_text(self.digest_algorithm),
            digest: match self.digest {
                Some(d) => Some(d@),
                None => None,
            },
        }
    }
}

pub open spec fn opt_signed(value: Option<u64>) -> Option<i64> {
    match value {
        Some(v) => Some(signed_of(v)),
        None => None,
    }
}

pub open spec fn opt_unsigned(value: Option<i64>) -> Option<u64> {
    match value {
        Some(v) => Some(unsigned_of(v)),
        None => None,
    }
}

/// The row of a newly registered artifact, which is unverified whatever it says of
/// itself.
pub open spec fn row_of(a: Artifact) -> Row {
    Row {
        id: a.id,
        canonical_path: a.path,
        format: format_name(a.format),
        size_bytes: signed_of(a.size_bytes),
        container_version: a.metadata.container_version,
        tensor_count: signed_of(a.metadata.tensor_count),
        metadata_count: signed_of(a.metadata.metadata_count),
        architecture: a.metadata.architecture,
        name: a.metadata.name,
        file_type: opt_signed(a.metadata.file_type),
        context_length: opt_signed(a.metadata.context_length),
        embedding_length: opt_signed(a.metadata.embedding_length),
        tokenizer_model: a.metadata.tokenizer_model,
        chat_template: a.metadata.chat_template,
        registered_at: epoch_of(a.registered_at),
        mtime_at_registration: match a.fingerprint.modified_at {
            Some(t) => Some(nanos_of(t)),
            None => None,
        },
        integrity_state: "unverified"@,
        digest_algorithm: None,
        digest: None,
    }
}

/// A row with what is known of its artifact's contents.
pub open spec fn with_integrity(row: Row, integrity: Integrity) -> Row {
    match integrity {
        Integrity::Unverified => Row {
            integrity_state: "unverified"@,
            digest_algorithm: None,
            digest: None,
            ..row
        },
        Integrity::Verified { algorithm, digest } => Row {
            integrity_state: "verified"@,
            digest_algorithm: Some(algorithm_name(algorithm)),
            digest: Some(digest),
            ..row
        },
    }
}

impl ArtifactRow {
    /// Another copy of the row.
    pub fn copy(&self) -> (row: ArtifactRow)
        ensures
            row@ == self@,
            row.id@ == self.id@,
            row.canonical_path@ == self.canonical_path@,
    {
        ArtifactRow {
            id: self.id.clone(),
            canonical_path: self.canonical_path.clone(),
            format: self.format.clone(),
            size_bytes: self.size_bytes,
            container_version: self.container_version,
            tensor_count: self.tensor_count,
            metadata_count: self.metadata_count,
            architecture: copied(&self.architecture),
            name: copied(&self.name),
            file_type: self.file_type,
            context_length: self.context_length,
            embedding_length: self.embedding_length,
            tokenizer_model: copied(&self.tokenizer_model),
            chat_template: copied(&self.chat_template),
            registered_at: self.registered_at,
            mtime_at_registration: self.mtime_at_registration,
            integrity_state: self.integrity_state.clone(),
            digest_algorithm: copied(&self.digest_algorithm),
            digest: match &self.digest {
                Some(digest) => Some(vstd::slice::slice_to_vec(digest.as_slice())),
                None => None,
            },
        }
    }
}

/// What a row says of the contents. An algorithm this build does not know is not a
/// verified state.
pub open spec fn integrity_in(row: Row) -> Integrity {
    if row.integrity_state == "verified"@ && row.digest_algorithm is Some && row.digest is Some
        && algorithm_named(row.digest_algorithm->0) is Some {
        Integrity::Verified {
            algorithm: algorithm_named(row.digest_algorithm->0)->0,
            digest: row.digest->0,
        }
    } else {
        Integrity::Unverified
    }
}

/// The artifact a row stands for.
pub open spec fn artifact_in(row: Row) -> Artifact {
    Artifact {
        id: row.id,
        path: row.canonical_path,
        format: match format_named(row.format) {
            Some(format) => format,
            None => ArtifactFormat::Gguf,
        },
        size_bytes: unsigned_of(row.size_bytes),
        metadata: Metadata {
            container_version: row.container_version,
            tensor_count: unsigned_of(row.tensor_count),
            metadata_count: unsigned_of(row.metadata_count),
            architecture: row.architecture,
            name: row.name,
            file_type: opt_unsigned(row.file_type),
            context_length: opt_unsigned(row.context_length),
            embedding_length: opt_unsigned(row.embedding_length),
            tokenizer_model: row.tokenizer_model,
            chat_template: row.chat_template,
        },
        integrity: integrity_in(row),
        fingerprint: ArtifactFingerprint {
            size_bytes: unsigned_of(row.size_bytes),
            modified_at: match row.mtime_at_registration {
                Some(nanos) => Some(time_of_nanos(nanos)),
                None => None,
            },
        },
        registered_at: time_of_epoch(row.registered_at),
    }
}

fn signed_option(value: Option<u64>) -> (stored: Option<i64>)
    ensures
        stored == opt_signed(value),
{
    match value {
        Some(v) => Some(to_signed(v)),
        None => None,
    }
}

fn unsigned_option(value: Option<i64>) -> (read: Option<u64>)
    ensures
        read == opt_unsigned(value),
{
    match value {
        Some(v) => Some(from_signed(v)),
        None => None,
    }
}

fn copied(text: &Option<String>) -> (copy: Option<String>)
    ensures
        opt_text(copy) == opt_text(*text),
{
    match text {
        Some(t) => Some(t.clone()),
        None => None,
    }
}

/// The row to insert for a newly registered artifact.
pub fn artifact_to_row(artifact: &ModelArtifact) -> (row: ArtifactRow)
    ensures
        row@ == row_of(artifact@),
        row.id@ == artifact.id@,
        row.canonical_path@ == artifact.path@,
        row.size_bytes == signed_of(artifact.size_bytes),
        row.container_version == artifact.metadata.container_version,
        row.tensor_count == signed_of(artifact.metadata.tensor_count),
        row.metadata_count == signed_of(artifact.metadata.metadata_count),
        opt_text(row.architecture) == opt_text(artifact.metadata.architecture),
        opt_text(row.name) == opt_text(artifact.metadata.name),
        row.file_type == opt_signed(artifact.metadata.file_type),
        row.context_length == opt_signed(artifact.metadata.context_length),
        row.embedding_length == opt_signed(artifact.metadata.embedding_length),
        opt_text(row.tokenizer_model) == opt_text(artifact.metadata.tokenizer_model),
        opt_text(row.chat_template) == opt_text(artifact.metadata.chat_template),
        row.registered_at == epoch_of(artifact.registered_at),
        row.integrity_state@ == "unverified"@,
        row.digest_algorithm is None,
        row.digest is None,
{
    let metadata = &artifact.metadata;
    ArtifactRow {
        id: artifact.id.to_string(),
        canonical_path: artifact.path.clone(),
        format: artifact.format.to_string(),
        size_bytes: to_signed(artifact.size_bytes),
        container_version: metadata.container_version,
        tensor_count: to_signed(metadata.tensor_count),
        metadata_count: to_signed(metadata.metadata_count),
        architecture: copied(&metadata.architecture),
        name: copied(&metadata.name),
        file_type: signed_option(metadata.file_type),
        context_length: signed_option(metadata.context_length),
        embedding_length: signed_option(metadata.embedding_length),
        tokenizer_model: copied(&metadata.tokenizer_model),
        chat_template: copied(&metadata.chat_template),
        registered_at: to_epoch(artifact.registered_at),
        mtime_at_registration: match artifact.fingerprint.modified_at {
            Some(time) => Some(to_epoch_nanos(time)),
            None => None,
        },
        integrity_state: "unverified".to_owned(),
        digest_algorithm: None,
        digest: None,
    }
}

/// The artifact a row stands for.
pub fn row_to_artifact(row: ArtifactRow) -> (artifact: ModelArtifact)
    ensures
        artifact@ == artifact_in(row@),
        artifact.id@ == row.id@,
        artifact.path@ == row.canonical_path@,
        artifact.size_bytes == unsigned_of(row.size_bytes),
        artifact.fingerprint.size_bytes == unsigned_of(row.size_bytes),
        artifact.metadata.container_version == row.container_version,
        artifact.metadata.tensor_count == unsigned_of(row.tensor_count),
        artifact.metadata.metadata_count == unsigned_of(row.metadata_count),
        opt_text(artifact.metadata.architecture) == opt_text(row.architecture),
        opt_text(artifact.metadata.name) == opt_text(row.name),
        artifact.metadata.file_type == opt_unsigned(row.file_type),
        artifact.metadata.context_length == opt_unsigned(row.context_length),
        artifact.metadata.embedding_length == opt_unsigned(row.embedding_length),
        opt_text(artifact.metadata.tokenizer_model) == opt_text(row.tokenizer_model),
        opt_text(artifact.metadata.chat_template) == opt_text(row.chat_template),
        artifact.registered_at == time_of_epoch(row.registered_at),
        artifact.integrity is Verified <==> row.integrity_state@ == "verified"@ && row.digest is Some
            && (row.digest_algorithm matches Some(name) && name@ == "sha256"@),
        artifact.integrity matches ArtifactIntegrity::Verified { digest, .. } ==> digest@
            == row.digest->0@,
{
    let verified: bool = same_text(row.integrity_state.as_str(), "verified");
    let integrity = match (verified, row.digest_algorithm, row.digest) {
        (true, Some(algorithm), Some(digest)) => match DigestAlgorithm::from_stored(
            algorithm.as_str(),
        ) {
            Some(algorithm) => ArtifactIntegrity::Verified { algorithm, digest },
            None => ArtifactIntegrity::Unverified,
        },
        _ => ArtifactIntegrity::Unverified,
    };
    let format = match ArtifactFormat::from_stored(row.format.as_str()) {
        Some(format) => format,
        None => ArtifactFormat::Gguf,
    };
    ModelArtifact {
        id: ArtifactId::from_stored(row.id.as_str()),
        path: row.canonical_path,
        format,
        size_bytes: from_signed(row.size_bytes),
        metadata: ArtifactMetadata {
            container_version: row.container_version,
            tensor_count: from_signed(row.tensor_count),
            metadata_count: from_signed(row.metadata_count),
            architecture: row.architecture,
            name: row.name,
            file_type: unsigned_option(row.file_type),
            context_length: unsigned_option(row.context_length),
            embedding_length: unsigned_option(row.embedding_length),
            tokenizer_model: row.tokenizer_model,
            chat_template: row.chat_template,
        },
        integrity,
        fingerprint: ArtifactFingerprint {
            size_bytes: from_signed(row.size_bytes),
            modified_at: match row.mtime_at_registration {
                Some(nanos) => Some(from_epoch_nanos(nanos)),
                None => None,
            },
        },
        registered_at: from_epoch(row.registered_at),
    }
}

/// One recorded metadata entry.
#[derive(Debug, Clone, PartialEq, Eq)]
pub struct MetadataRow {
    pub key: String,
    pub value: RenderedValue,
}

impl MetadataRow {
    pub open spec fn view(&self) -> (Seq<char>, Rendered) {
        (self.key@, self.value@)
    }

    /// Another copy of the entry.
    pub fn copy(&self) -> (row: MetadataRow)
        ensures
            row@ == self@,
    {
        MetadataRow {
            key: self.key.clone(),
            value: match &self.value {
                RenderedValue::Text(text) => RenderedValue::Text(text.clone()),
                RenderedValue::F32(bits) => RenderedValue::F32(*bits),
                RenderedValue::F64(bits) => RenderedValue::F64(*bits),
            },
        }
    }
}

/// Every entry of a header is recorded, including keys the runtime itself does not
/// interpret.
pub fn metadata_rows(header: &GgufHeader) -> (rows: Vec<MetadataRow>)
    ensures
        rows@.map_values(|r: MetadataRow| r@) == header.pairs().map_values(
            |p: Pair| (p.0, rendering(p.1)),
        ),
        rows@.len() == header.metadata@.len(),
        forall|j: int|
            0 <= j < rows@.len() ==> (#[trigger] rows@[j]).key@ == header.metadata@[j].key@
                && is_kept_as(header.metadata@[j].value, rows@[j].value),
{
    let mut rows: Vec<MetadataRow> = Vec::new();
    let mut i: usize = 0;
    while i < header.metadata.len()
        invariant
            i <= header.metadata@.len(),
            rows@.len() == i,
            forall|j: int|
                0 <= j < i ==> (#[trigger] rows@[j])@ == (
                    header.pairs()[j].0,
                    rendering(header.pairs()[j].1),
                ),
            forall|j: int|
                0 <= j < i ==> (#[trigger] rows@[j]).key@ == header.metadata@[j].key@
                    && is_kept_as(header.metadata@[j].value, rows@[j].value),
        decreases header.metadata@.len() - i,
    {
        let entry = &header.metadata[i];
        rows.push(MetadataRow { key: entry.key.clone(), value: render_value(&entry.value) });
        assert(header.pairs()[i as int] == entry@);
        i = i + 1;
    }
    assert(rows@.map_values(|r: MetadataRow| r@) =~= header.pairs().map_values(
        |p: Pair| (p.0, rendering(p.1)),
    ));
    rows
}

/// The record of an artifact, or that there is none.
pub fn require(id: &ArtifactId, found: Option<ModelArtifact>) -> (result: Result<
    ModelArtifact,
    RegistryError,
>)
    ensures
        match found {
            Some(artifact) => result == Ok::<ModelArtifact, RegistryError>(artifact),
            None => result matches Err(error) && error@ == (RegistryFault::UnknownArtifact {
                id: id@,
            }),
        },
{
    match found {
        Some(artifact) => Ok(artifact),
        None => Err(RegistryError::UnknownArtifact { id: ArtifactId::from_stored(id.as_str()) }),
    }
}

/// Whether a registered artifact still matches its record, given the record of its
/// identifier and what its file looks like now, if there is one.
pub fn check(
    id: &ArtifactId,
    found: Option<ModelArtifact>,
    current: Option<ArtifactFingerprint>,
) -> (result: Result<ArtifactState, RegistryError>)
    ensures
        match found {
            Some(artifact) => result matches Ok(state) && state@ == drift(
                artifact.fingerprint,
                current,
            ),
            None => result matches Err(error) && error@ == (RegistryFault::UnknownArtifact {
                id: id@,
            }),
        },
{
    match require(id, found) {
        Ok(artifact) => Ok(detect_drift(&artifact, current)),
        Err(error) => Err(error),
    }
}

/// What is known of an artifact whose contents were read in full.
pub fn verify(contents: ContentDigest) -> (integrity: ArtifactIntegrity)
    ensures
        integrity@ == (Integrity::Verified {
            algorithm: DigestAlgorithm::Sha256,
            digest: sha256(contents@),
        }),
{
    ArtifactIntegrity::Verified { algorithm: DigestAlgorithm::Sha256, digest: contents.finish() }
}

/// The columns that record an integrity: its state, its algorithm and its digest.
pub fn integrity_columns(integrity: &ArtifactIntegrity) -> (columns: (
    &'static str,
    Option<&'static str>,
    Option<Vec<u8>>,
))
    ensures
        match integrity@ {
            Integrity::Unverified => columns.0@ == "unverified"@ && columns.1 is None
                && columns.2 is None,
            Integrity::Verified { algorithm, digest } => {
                &&& columns.0@ == "verified"@
                &&& columns.1 is Some && columns.1->0@ == algorithm_name(algorithm)
                &&& columns.2 is Some && columns.2->0@ == digest
            },
        },
{
    match integrity {
        ArtifactIntegrity::Unverified => ("unverified", None, None),
        ArtifactIntegrity::Verified { algorithm, digest } => (
            "verified",
            Some(algorithm.as_str()),
            Some(vstd::slice::slice_to_vec(digest.as_slice())),
        ),
    }
}

// ---------------------------------------------------------------------------
// Laws.

/// Whether every number of an artifact fits a signed column.
pub open spec fn fits(a: Artifact) -> bool {
    &&& a.size_bytes <= i64::MAX
    &&& a.fingerprint.size_bytes == a.size_bytes
    &&& a.metadata.tensor_count <= i64::MAX
    &&& a.metadata.metadata_count <= i64::MAX
    &&& a.metadata.file_type matches Some(v) ==> v <= i64::MAX
    &&& a.metadata.context_length matches Some(v) ==> v <= i64::MAX
    &&& a.metadata.embedding_length matches Some(v) ==> v <= i64::MAX
    &&& a.fingerprint.modified_at matches Some(t) ==> 0 <= t <= i64::MAX
    &&& 0 <= a.registered_at <= i64::MAX * SECOND
}

/// Reading a row gives back the artifact it was written from, as unverified and with
/// its time of registration in whole seconds, where its numbers fit the columns.
pub proof fn a_row_reads_back_as_its_artifact(a: Artifact)
    requires
        fits(a),
    ensures
        artifact_in(row_of(a)) == (Artifact {
            integrity: Integrity::Unverified,
            registered_at: (a.registered_at - a.registered_at % SECOND) as i128,
            ..a
        }),
{
    reveal_strlit("unverified");
    reveal_strlit("verified");
    assert("unverified"@.len() != "verified"@.len());
    let seconds = a.registered_at / SECOND;
    assert(a.registered_at == seconds * SECOND + a.registered_at % SECOND);
    assert(seconds <= i64::MAX);
}

/// What is recorded of a file is what was observed of it: its identifier, where it is,
/// what its header says, its size and time, and when it was registered.
pub proof fn a_registration_records_what_was_observed(
    id: Seq<char>,
    canonical: Seq<char>,
    metadata: Metadata,
    fingerprint: ArtifactFingerprint,
    now: i128,
)
    ensures
        ({
            let a = recorded_artifact(id, canonical, metadata, fingerprint, now);
            &&& a.id == id
            &&& a.path == canonical
            &&& a.format == ArtifactFormat::Gguf
            &&& a.metadata == metadata
            &&& a.fingerprint == fingerprint
            &&& a.size_bytes == fingerprint.size_bytes
            &&& a.registered_at == now
        }),
{
}

/// Each column holds what it is named for, where that fits.
pub proof fn columns_hold_what_they_are_named_for(a: Artifact)
    requires
        fits(a),
    ensures
        ({
            let row = row_of(a);
            let m = a.metadata;
            &&& row.id == a.id
            &&& row.canonical_path == a.path
            &&& row.format == "gguf"@
            &&& row.size_bytes == a.size_bytes
            &&& row.container_version == m.container_version
            &&& row.tensor_count == m.tensor_count
            &&& row.metadata_count == m.metadata_count
            &&& row.architecture == m.architecture
            &&& row.name == m.name
            &&& row.file_type is Some <==> m.file_type is Some
            &&& m.file_type is Some ==> row.file_type->0 == m.file_type->0
            &&& row.context_length is Some <==> m.context_length is Some
            &&& m.context_length is Some ==> row.context_length->0 == m.context_length->0
            &&& row.embedding_length is Some <==> m.embedding_length is Some
            &&& m.embedding_length is Some ==> row.embedding_length->0 == m.embedding_length->0
            &&& row.tokenizer_model == m.tokenizer_model
            &&& row.chat_template == m.chat_template
            &&& row.registered_at * 1_000_000_000 <= a.registered_at
            &&& a.registered_at < (row.registered_at + 1) * 1_000_000_000
            &&& row.mtime_at_registration is Some <==> a.fingerprint.modified_at is Some
            &&& a.fingerprint.modified_at is Some ==> row.mtime_at_registration->0
                == a.fingerprint.modified_at->0
            &&& row.integrity_state == "unverified"@
            &&& row.digest_algorithm is None
            &&& row.digest is None
        }),
{
    assert(a.registered_at / SECOND <= i64::MAX);
}

/// A number too large for a column is stored as the largest one, and none is read as
/// negative.
pub proof fn columns_saturate(value: u64, stored: i64, time: i128)
    ensures
        value <= i64::MAX ==> signed_of(value) == value,
        value > i64::MAX ==> signed_of(value) == i64::MAX,
        stored >= 0 ==> unsigned_of(stored) == stored,
        stored < 0 ==> unsigned_of(stored) == 0,
        0 <= time <= i64::MAX ==> nanos_of(time) == time,
        time < 0 ==> nanos_of(time) == 0 && epoch_of(time) == 0,
        stored >= 0 ==> time_of_epoch(stored) == stored * 1_000_000_000,
        stored >= 0 ==> time_of_nanos(stored) == stored,
        stored < 0 ==> time_of_epoch(stored) == 0 && time_of_nanos(stored) == 0,
        time > i64::MAX ==> nanos_of(time) == i64::MAX,
        0 <= time < (i64::MAX + 1) * 1_000_000_000 ==> epoch_of(time) * 1_000_000_000 <= time < (
        epoch_of(time) + 1) * 1_000_000_000,
        time >= (i64::MAX + 1) * 1_000_000_000 ==> epoch_of(time) == i64::MAX,
{
    assert(time == SECOND * (time / SECOND) + time % SECOND);
    assert(0 <= time % SECOND < SECOND);
}

/// The contents of an artifact are known exactly when its row says that they were verified
/// and holds a digest by an algorithm that is known; and a format that is not known is
/// taken for the one there is.
pub proof fn only_a_known_digest_is_verified(row: Row)
    ensures
        artifact_in(row).integrity is Verified <==> row.integrity_state == "verified"@
            && row.digest is Some && row.digest_algorithm == Some("sha256"@),
        artifact_in(row).integrity is Verified ==> artifact_in(row).integrity->digest
            == row.digest->0,
        artifact_in(row).format is Gguf,
{
}

/// A record keeps the identifier and the path it was registered under, whatever the
/// numbers and whatever becomes known of the contents.
pub proof fn a_record_keeps_its_identifier(a: Artifact, integrity: Integrity)
    ensures
        artifact_in(row_of(a)).id == a.id,
        artifact_in(row_of(a)).path == a.path,
        artifact_in(with_integrity(row_of(a), integrity)).id == a.id,
        artifact_in(with_integrity(row_of(a), integrity)).path == a.path,
{
}

/// What is recorded of an artifact's contents reads back, and changes nothing else of
/// the record.
pub proof fn a_digest_reads_back(row: Row, integrity: Integrity)
    ensures
        artifact_in(with_integrity(row, integrity)) == (Artifact { integrity, ..artifact_in(row) }),
{
    reveal_strlit("unverified");
    reveal_strlit("verified");
    assert("unverified"@.len() != "verified"@.len());
}

/// A newly registered artifact is unverified, and its record says so when it is read
/// back, whatever the numbers.
pub proof fn registration_never_claims_the_contents(
    id: Seq<char>,
    canonical: Seq<char>,
    metadata: Metadata,
    fingerprint: ArtifactFingerprint,
    now: i128,
)
    ensures
        ({
            let a = recorded_artifact(id, canonical, metadata, fingerprint, now);
            &&& a.integrity is Unverified
            &&& artifact_in(row_of(a)).integrity is Unverified
        }),
{
    reveal_strlit("unverified");
    reveal_strlit("verified");
    assert("unverified"@.len() != "verified"@.len());
}

/// A file that nobody touched is unchanged when its record is read back, where its
/// size and time fit the columns; one whose size or time moved is not.
pub proof fn an_untouched_file_stays_unchanged(a: Artifact, now: ArtifactFingerprint)
    requires
        a.fingerprint.size_bytes == a.size_bytes,
        a.size_bytes <= i64::MAX,
        a.fingerprint.modified_at matches Some(t) ==> 0 <= t <= i64::MAX,
    ensures
        drift(artifact_in(row_of(a)).fingerprint, Some(a.fingerprint)) is Unchanged,
        now.size_bytes != a.size_bytes ==> drift(
            artifact_in(row_of(a)).fingerprint,
            Some(now),
        ) is Changed,
        now.modified_at is Some && a.fingerprint.modified_at is Some && now.modified_at
            != a.fingerprint.modified_at ==> drift(
            artifact_in(row_of(a)).fingerprint,
            Some(now),
        ) is Changed,
        drift(artifact_in(row_of(a)).fingerprint, None) is Missing,
{
}

/// A fault tells what it is about, whole and in words that do not depend on it.
pub proof fn a_registry_fault_tells_what_it_is_about(
    path: Seq<char>,
    detail: Seq<char>,
    source: Fault,
)
    ensures
        registry_fault_text(RegistryFault::NotFound { path: detail }) == registry_fault_text(
            RegistryFault::NotFound { path: Seq::empty() },
        ) + detail,
        registry_fault_text(RegistryFault::UnknownArtifact { id: detail }) == registry_fault_text(
            RegistryFault::UnknownArtifact { id: Seq::empty() },
        ) + detail,
        registry_fault_text(RegistryFault::Storage(detail)) == registry_fault_text(
            RegistryFault::Storage(Seq::empty()),
        ) + detail,
        registry_fault_text(RegistryFault::Io(detail)) == registry_fault_text(
            RegistryFault::Io(Seq::empty()),
        ) + detail,
        registry_fault_text(RegistryFault::NotAFile { path, reason: detail }) == path
            + registry_fault_text(
            RegistryFault::NotAFile { path: Seq::empty(), reason: Seq::empty() },
        ) + detail,
        registry_fault_text(RegistryFault::NotAnArtifact { path, source }) == path
            + registry_fault_text(RegistryFault::NotAnArtifact { path: Seq::empty(), source }),
        exists|before: Seq<char>|
            registry_fault_text(RegistryFault::NotAnArtifact { path, source }) == #[trigger] (before
                + fault_message(source)),
{
    let text = registry_fault_text(RegistryFault::NotAnArtifact { path, source });
    assert(text =~= path + registry_fault_text(
        RegistryFault::NotAnArtifact { path: Seq::empty(), source },
    ));
    assert(text =~= (path + " cannot be read: "@) + fault_message(source));
    assert(registry_fault_text(RegistryFault::NotAFile { path, reason: detail }) =~= path
        + registry_fault_text(
        RegistryFault::NotAFile { path: Seq::empty(), reason: Seq::empty() },
    ) + detail);
}

} // verus!
