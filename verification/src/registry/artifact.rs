//! Model artifacts: what a container is, not what is running.
//!
//! An artifact is an immutable container on disk. It is neither the name a user
//! gives a model nor an instance of it in a backend's memory.
//!
//! Times are nanoseconds since the Unix epoch.

use vstd::prelude::*;
use vstd::string::*;

use crate::entropy::random_token;
use crate::registry::gguf::{
    any_architecture_has_its_numbers, architecture_number_of, counts_as, is_integer,
    is_last_under, number_under, stands_last, text_under, what_stands_under_a_key_is_given,
    without_an_architecture_there_are_no_numbers, GgufHeader, MetadataValue, Pair, Value,
};
use crate::text::{
    a_number_reads_back_from_its_decimal, a_numeral_is_one_number,
    a_signed_number_reads_back_from_its_decimal, decimal, decimal_i64, decimal_u64, hex, opt_text,
    reads_as, same_text, signed_decimal,
};

verus! {

/// Bytes of entropy in an artifact identifier.
pub const ID_BYTES: usize = 16;

/// An artifact's identifier within this runtime.
///
/// Generated, not derived from the file's contents: that would mean hashing every
/// artifact at registration.
#[derive(Debug, Clone, PartialEq, Eq, Hash, PartialOrd, Ord)]
pub struct ArtifactId(String);

impl View for ArtifactId {
    type V = Seq<char>;

    closed spec fn view(&self) -> Seq<char> {
        self.0@
    }
}

impl ArtifactId {
    /// Generates a new identifier. Fails only when the system randomness source is
    /// unavailable.
    pub fn generate() -> (result: Result<Self, String>)
        ensures
            match result {
                Ok(id) => exists|entropy: Seq<u8>|
                    entropy.len() == ID_BYTES && id@ == #[trigger] hex(entropy),
                Err(reason) => exists|cause: Seq<char>|
                    reason@ == #[trigger] ("system randomness unavailable: "@ + cause),
            },
    {
        match random_token(ID_BYTES) {
            Ok(token) => Ok(ArtifactId(token)),
            Err(reason) => Err(reason),
        }
    }

    /// Wraps a stored identifier.
    pub fn from_stored(value: &str) -> (id: Self)
        ensures
            id@ == value@,
    {
        ArtifactId(value.to_owned())
    }

    /// The identifier as text.
    pub fn as_str(&self) -> (text: &str)
        ensures
            text@ == self@,
    {
        self.0.as_str()
    }

    pub fn to_string(&self) -> (text: String)
        ensures
            text@ == self@,
    {
        self.0.clone()
    }
}

/// Container formats the runtime can inspect.
#[derive(Debug, Clone, Copy, PartialEq, Eq, Structural)]
pub enum ArtifactFormat {
    Gguf,
}

/// The stored name of a format.
pub open spec fn format_name(format: ArtifactFormat) -> Seq<char> {
    match format {
        ArtifactFormat::Gguf => "gguf"@,
    }
}

/// The format a stored name stands for.
pub open spec fn format_named(name: Seq<char>) -> Option<ArtifactFormat> {
    if name == "gguf"@ {
        Some(ArtifactFormat::Gguf)
    } else {
        None
    }
}

impl ArtifactFormat {
    pub fn as_str(self) -> (name: &'static str)
        ensures
            name@ == format_name(self),
    {
        match self {
            ArtifactFormat::Gguf => "gguf",
        }
    }

    /// Parses a stored format name.
    pub fn from_stored(value: &str) -> (format: Option<Self>)
        ensures
            format == format_named(value@),
    {
        if same_text(value, "gguf") {
            Some(ArtifactFormat::Gguf)
        } else {
            None
        }
    }

    pub fn to_string(&self) -> (name: String)
        ensures
            name@ == format_name(*self),
    {
        self.as_str().to_owned()
    }
}

/// Cheap properties used to notice that a file has been replaced.
///
/// Observations about the file, not a function of its contents.
#[derive(Debug, Clone, Copy, PartialEq, Eq, Structural)]
pub struct ArtifactFingerprint {
    pub size_bytes: u64,
    /// Last modification time, when the platform reports one.
    pub modified_at: Option<i128>,
}

impl ArtifactFingerprint {
    /// What was observed of a file.
    pub fn observe(size_bytes: u64, modified_at: Option<i128>) -> (fingerprint: Self)
        ensures
            fingerprint == (ArtifactFingerprint { size_bytes, modified_at }),
    {
        ArtifactFingerprint { size_bytes, modified_at }
    }
}

/// Digest algorithms used for verified integrity.
#[derive(Debug, Clone, Copy, PartialEq, Eq, Structural)]
pub enum DigestAlgorithm {
    Sha256,
}

/// The stored name of an algorithm.
pub open spec fn algorithm_name(algorithm: DigestAlgorithm) -> Seq<char> {
    match algorithm {
        DigestAlgorithm::Sha256 => "sha256"@,
    }
}

/// The algorithm a stored name stands for.
pub open spec fn algorithm_named(name: Seq<char>) -> Option<DigestAlgorithm> {
    if name == "sha256"@ {
        Some(DigestAlgorithm::Sha256)
    } else {
        None
    }
}

impl DigestAlgorithm {
    pub fn as_str(self) -> (name: &'static str)
        ensures
            name@ == algorithm_name(self),
    {
        match self {
            DigestAlgorithm::Sha256 => "sha256",
        }
    }

    pub fn from_stored(value: &str) -> (algorithm: Option<Self>)
        ensures
            algorithm == algorithm_named(value@),
    {
        if same_text(value, "sha256") {
            Some(DigestAlgorithm::Sha256)
        } else {
            None
        }
    }
}

/// A stored name stands for what it is the name of, for formats and for algorithms.
pub proof fn names_round_trip(format: ArtifactFormat, algorithm: DigestAlgorithm)
    ensures
        format_named(format_name(format)) == Some(format),
        algorithm_named(algorithm_name(algorithm)) == Some(algorithm),
{
}

/// What is actually known about an artifact's contents.
#[derive(Debug, Clone, PartialEq, Eq)]
pub enum ArtifactIntegrity {
    /// The contents have not been read in full.
    Unverified,
    /// The contents were read and digested.
    Verified { algorithm: DigestAlgorithm, digest: Vec<u8> },
}

/// What an [`ArtifactIntegrity`] says.
pub enum Integrity {
    Unverified,
    Verified { algorithm: DigestAlgorithm, digest: Seq<u8> },
}

impl ArtifactIntegrity {
    pub open spec fn view(&self) -> Integrity {
        match self {
            ArtifactIntegrity::Unverified => Integrity::Unverified,
            ArtifactIntegrity::Verified { algorithm, digest } => Integrity::Verified {
                algorithm: *algorithm,
                digest: digest@,
            },
        }
    }

    /// Whether the contents have actually been digested.
    pub fn is_verified(&self) -> (verified: bool)
        ensures
            verified == (self@ is Verified),
            verified == (*self is Verified),
    {
        matches!(self, ArtifactIntegrity::Verified { .. })
    }
}

/// The parts of a container's metadata the runtime itself reasons about.
#[derive(Debug, Clone, PartialEq, Eq)]
pub struct ArtifactMetadata {
    pub container_version: u32,
    pub tensor_count: u64,
    pub metadata_count: u64,
    pub architecture: Option<String>,
    pub name: Option<String>,
    pub file_type: Option<u64>,
    pub context_length: Option<u64>,
    pub embedding_length: Option<u64>,
    pub tokenizer_model: Option<String>,
    /// What makes a container usable for chat without the runtime inventing a
    /// format.
    pub chat_template: Option<String>,
}

/// What an [`ArtifactMetadata`] says.
pub struct Metadata {
    pub container_version: u32,
    pub tensor_count: u64,
    pub metadata_count: u64,
    pub architecture: Option<Seq<char>>,
    pub name: Option<Seq<char>>,
    pub file_type: Option<u64>,
    pub context_length: Option<u64>,
    pub embedding_length: Option<u64>,
    pub tokenizer_model: Option<Seq<char>>,
    pub chat_template: Option<Seq<char>>,
}

impl Default for ArtifactMetadata {
    fn default() -> (metadata: ArtifactMetadata)
        ensures
            metadata@ == (Metadata {
                container_version: 0,
                tensor_count: 0,
                metadata_count: 0,
                architecture: None,
                name: None,
                file_type: None,
                context_length: None,
                embedding_length: None,
                tokenizer_model: None,
                chat_template: None,
            }),
    {
        ArtifactMetadata {
            container_version: 0,
            tensor_count: 0,
            metadata_count: 0,
            architecture: None,
            name: None,
            file_type: None,
            context_length: None,
            embedding_length: None,
            tokenizer_model: None,
            chat_template: None,
        }
    }
}

/// The fields the runtime reasons about, from the entries of a header.
pub open spec fn metadata_of(
    version: u32,
    tensor_count: u64,
    metadata_count: u64,
    entries: Seq<Pair>,
) -> Metadata {
    Metadata {
        container_version: version,
        tensor_count,
        metadata_count,
        architecture: text_under(entries, "general.architecture"@),
        name: text_under(entries, "general.name"@),
        file_type: number_under(entries, "general.file_type"@),
        context_length: architecture_number_of(entries, "context_length"@),
        embedding_length: architecture_number_of(entries, "embedding_length"@),
        tokenizer_model: text_under(entries, "tokenizer.ggml.model"@),
        chat_template: text_under(entries, "tokenizer.chat_template"@),
    }
}

/// Each field of an artifact is what stands last under its own key: a text under a key
/// of a text, and an integer under a key of a number.
pub proof fn each_field_is_read_under_its_key(
    version: u32,
    tensor_count: u64,
    metadata_count: u64,
    entries: Seq<Pair>,
    i: int,
    text: Seq<char>,
    n: u64,
)
    ensures
        ({
            let m = metadata_of(version, tensor_count, metadata_count, entries);
            let is_text = 0 <= i < entries.len() && entries[i].1 == Value::Text(text);
            let is_number = 0 <= i < entries.len() && is_integer(entries[i].1, n as int);
            &&& m.container_version == version
            &&& m.tensor_count == tensor_count
            &&& m.metadata_count == metadata_count
            &&& is_last_under(entries, "general.architecture"@, i) ==> (m.architecture == Some(
                text,
            ) <==> is_text)
            &&& is_last_under(entries, "general.name"@, i) ==> (m.name == Some(text) <==> is_text)
            &&& is_last_under(entries, "general.file_type"@, i) ==> (m.file_type == Some(n)
                <==> is_number)
            &&& is_last_under(entries, "tokenizer.ggml.model"@, i) ==> (m.tokenizer_model == Some(
                text,
            ) <==> is_text)
            &&& is_last_under(entries, "tokenizer.chat_template"@, i) ==> (m.chat_template
                == Some(text) <==> is_text)
        }),
{
    what_stands_under_a_key_is_given(entries, "general.architecture"@, text, n, i);
    what_stands_under_a_key_is_given(entries, "general.name"@, text, n, i);
    what_stands_under_a_key_is_given(entries, "general.file_type"@, text, n, i);
    what_stands_under_a_key_is_given(entries, "tokenizer.ggml.model"@, text, n, i);
    what_stands_under_a_key_is_given(entries, "tokenizer.chat_template"@, text, n, i);
}

/// A field whose key no entry has is not known, and neither are the dimensions where no
/// entry names an architecture.
pub proof fn nothing_is_known_without_its_key(
    version: u32,
    tensor_count: u64,
    metadata_count: u64,
    entries: Seq<Pair>,
)
    ensures
        ({
            let m = metadata_of(version, tensor_count, metadata_count, entries);
            &&& !names(entries, "general.architecture"@) ==> m.architecture is None
                && m.context_length is None && m.embedding_length is None
            &&& !names(entries, "general.name"@) ==> m.name is None
            &&& !names(entries, "general.file_type"@) ==> m.file_type is None
            &&& !names(entries, "tokenizer.ggml.model"@) ==> m.tokenizer_model is None
            &&& !names(entries, "tokenizer.chat_template"@) ==> m.chat_template is None
        }),
{
    let text = Seq::<char>::empty();
    what_stands_under_a_key_is_given(entries, "general.architecture"@, text, 0, 0);
    what_stands_under_a_key_is_given(entries, "general.name"@, text, 0, 0);
    what_stands_under_a_key_is_given(entries, "general.file_type"@, text, 0, 0);
    what_stands_under_a_key_is_given(entries, "tokenizer.ggml.model"@, text, 0, 0);
    what_stands_under_a_key_is_given(entries, "tokenizer.chat_template"@, text, 0, 0);
    if !names(entries, "general.architecture"@) {
        without_an_architecture_there_are_no_numbers(entries, "context_length"@, 0);
        without_an_architecture_there_are_no_numbers(entries, "embedding_length"@, 0);
    }
}

/// Whether an entry has a key.
pub open spec fn names(entries: Seq<Pair>, key: Seq<char>) -> bool {
    exists|k: int| 0 <= k < entries.len() && (#[trigger] entries[k]).0 == key
}

/// The dimensions of an artifact are what stands last under the keys of its own
/// architecture, whichever that is.
pub proof fn the_dimensions_are_those_of_the_architecture(
    version: u32,
    tensor_count: u64,
    metadata_count: u64,
    entries: Seq<Pair>,
    architecture: Seq<char>,
    n: u64,
    i: int,
    j: int,
)
    requires
        is_last_under(entries, "general.architecture"@, i),
        entries[i].1 == Value::Text(architecture),
    ensures
        ({
            let m = metadata_of(version, tensor_count, metadata_count, entries);
            &&& is_last_under(entries, architecture + ".context_length"@, j) ==> (m.context_length
                == Some(n) <==> is_integer(entries[j].1, n as int))
            &&& is_last_under(entries, architecture + ".embedding_length"@, j) ==> (
            m.embedding_length == Some(n) <==> is_integer(entries[j].1, n as int))
        }),
{
    reveal_strlit(".");
    reveal_strlit("context_length");
    reveal_strlit(".context_length");
    reveal_strlit("embedding_length");
    reveal_strlit(".embedding_length");
    assert("."@ + "context_length"@ =~= ".context_length"@);
    assert("."@ + "embedding_length"@ =~= ".embedding_length"@);
    assert(architecture + "."@ + "context_length"@ =~= architecture + ".context_length"@);
    assert(architecture + "."@ + "embedding_length"@ =~= architecture + ".embedding_length"@);
    any_architecture_has_its_numbers(entries, architecture, "context_length"@, n, i, j);
    any_architecture_has_its_numbers(entries, architecture, "embedding_length"@, n, i, j);
}

/// Whether a text is that of a value, or none where the value is no text.
pub open spec fn is_text_of(value: MetadataValue, text: Option<String>) -> bool {
    match value {
        MetadataValue::String(t) => text is Some && text->0@ == t@,
        _ => text is None,
    }
}

fn owned(text: Option<&str>) -> (copy: Option<String>)
    ensures
        match text {
            Some(t) => opt_text(copy) == Some(t@),
            None => copy is None,
        },
{
    match text {
        Some(t) => Some(t.to_owned()),
        None => None,
    }
}

impl ArtifactMetadata {
    pub open spec fn view(&self) -> Metadata {
        Metadata {
            container_version: self.container_version,
            tensor_count: self.tensor_count,
            metadata_count: self.metadata_count,
            architecture: opt_text(self.architecture),
            name: opt_text(self.name),
            file_type: self.file_type,
            context_length: self.context_length,
            embedding_length: self.embedding_length,
            tokenizer_model: opt_text(self.tokenizer_model),
            chat_template: opt_text(self.chat_template),
        }
    }

    /// Extracts the fields the runtime reasons about from a parsed header.
    pub fn from_header(header: &GgufHeader) -> (metadata: Self)
        ensures
            metadata@ == metadata_of(
                header.version,
                header.tensor_count,
                header.metadata_count,
                header.pairs(),
            ),
            metadata.container_version == header.version,
            metadata.tensor_count == header.tensor_count,
            metadata.metadata_count == header.metadata_count,
            forall|i: int| #[trigger]
                stands_last(header.metadata@, "general.name"@, i) ==> is_text_of(
                    header.metadata@[i].value,
                    metadata.name,
                ),
            forall|i: int| #[trigger]
                stands_last(header.metadata@, "tokenizer.ggml.model"@, i) ==> is_text_of(
                    header.metadata@[i].value,
                    metadata.tokenizer_model,
                ),
            forall|i: int| #[trigger]
                stands_last(header.metadata@, "tokenizer.chat_template"@, i) ==> is_text_of(
                    header.metadata@[i].value,
                    metadata.chat_template,
                ),
            forall|i: int| #[trigger]
                stands_last(header.metadata@, "general.file_type"@, i) ==> counts_as(
                    header.metadata@[i].value,
                    metadata.file_type,
                ),
    {
        ArtifactMetadata {
            container_version: header.version,
            tensor_count: header.tensor_count,
            metadata_count: header.metadata_count,
            architecture: owned(header.architecture()),
            name: owned(header.text("general.name")),
            file_type: header.number("general.file_type"),
            context_length: header.architecture_number("context_length"),
            embedding_length: header.architecture_number("embedding_length"),
            tokenizer_model: owned(header.text("tokenizer.ggml.model")),
            chat_template: owned(header.text("tokenizer.chat_template")),
        }
    }

    /// Whether the container carries a chat template.
    pub fn has_chat_template(&self) -> (yes: bool)
        ensures
            yes == (self@.chat_template is Some),
    {
        self.chat_template.is_some()
    }
}

/// A registered artifact.
#[derive(Debug, Clone, PartialEq, Eq)]
pub struct ModelArtifact {
    pub id: ArtifactId,
    /// The canonical path. Registration records where the file is; it does not move
    /// or copy it.
    pub path: String,
    pub format: ArtifactFormat,
    pub size_bytes: u64,
    pub metadata: ArtifactMetadata,
    pub integrity: ArtifactIntegrity,
    pub fingerprint: ArtifactFingerprint,
    pub registered_at: i128,
}

/// What a [`ModelArtifact`] says.
pub struct Artifact {
    pub id: Seq<char>,
    pub path: Seq<char>,
    pub format: ArtifactFormat,
    pub size_bytes: u64,
    pub metadata: Metadata,
    pub integrity: Integrity,
    pub fingerprint: ArtifactFingerprint,
    pub registered_at: i128,
}

impl ModelArtifact {
    pub open spec fn view(&self) -> Artifact {
        Artifact {
            id: self.id@,
            path: self.path@,
            format: self.format,
            size_bytes: self.size_bytes,
            metadata: self.metadata@,
            integrity: self.integrity@,
            fingerprint: self.fingerprint,
            registered_at: self.registered_at,
        }
    }
}

/// Whether a registered artifact still matches what was recorded.
#[derive(Debug, Clone, PartialEq, Eq)]
pub enum ArtifactState {
    /// The file is present and matches its fingerprint.
    Unchanged,
    /// The file is present but differs from what was registered. Never resolved by
    /// silently updating the record.
    Changed { reason: String },
    /// The file is no longer present.
    Missing,
}

/// What an [`ArtifactState`] says.
pub enum Drift {
    Unchanged,
    Changed(Seq<char>),
    Missing,
}

impl ArtifactState {
    pub open spec fn view(&self) -> Drift {
        match self {
            ArtifactState::Unchanged => Drift::Unchanged,
            ArtifactState::Changed { reason } => Drift::Changed(reason@),
            ArtifactState::Missing => Drift::Missing,
        }
    }

    /// Whether the artifact may be used as recorded.
    pub fn is_usable(&self) -> (usable: bool)
        ensures
            usable == (self@ is Unchanged),
    {
        matches!(self, ArtifactState::Unchanged)
    }

    pub fn to_string(&self) -> (text: String)
        ensures
            text@ == match self@ {
                Drift::Unchanged => "unchanged"@,
                Drift::Changed(reason) => "changed: "@ + reason,
                Drift::Missing => "missing"@,
            },
    {
        match self {
            ArtifactState::Unchanged => "unchanged".to_owned(),
            ArtifactState::Changed { reason } => {
                let mut text = "changed: ".to_owned();
                text.append(reason.as_str());
                text
            },
            ArtifactState::Missing => "missing".to_owned(),
        }
    }
}

/// How a file compares with what was recorded of it. `current` is what is observed
/// of it now, or nothing if it cannot be inspected.
pub open spec fn drift(
    recorded: ArtifactFingerprint,
    current: Option<ArtifactFingerprint>,
) -> Drift {
    match current {
        None => Drift::Missing,
        Some(now) => if now.size_bytes != recorded.size_bytes {
            Drift::Changed(
                "size is now "@ + decimal(now.size_bytes as nat) + " bytes, was "@ + decimal(
                    recorded.size_bytes as nat,
                ) + " at registration"@,
            )
        } else if now.modified_at is Some && recorded.modified_at is Some && now.modified_at
            != recorded.modified_at {
            Drift::Changed("modification time has changed since registration"@)
        } else {
            Drift::Unchanged
        },
    }
}

/// A file is unchanged exactly when it is there, has the size that was recorded, and
/// does not show another time than the one recorded; it is missing exactly when nothing
/// was observed of it. A file that changed is told which size it has and had, or that
/// its time moved.
pub proof fn a_file_is_unchanged_while_nothing_observed_differs(
    recorded: ArtifactFingerprint,
    current: Option<ArtifactFingerprint>,
)
    ensures
        drift(recorded, current) is Missing <==> current is None,
        drift(recorded, current) is Unchanged <==> (current matches Some(now) && now.size_bytes
            == recorded.size_bytes && (now.modified_at is None || recorded.modified_at is None
            || now.modified_at == recorded.modified_at)),
        current is Some && current->0.size_bytes != recorded.size_bytes ==> (exists|
            found: Seq<char>,
            was: Seq<char>,
        |
            {
                &&& reads_as(found, current->0.size_bytes as int)
                &&& reads_as(was, recorded.size_bytes as int)
                &&& drift(recorded, current) == Drift::Changed(
                    #[trigger] ("size is now "@ + found + " bytes, was "@ + was
                        + " at registration"@),
                )
            }),
{
    if let Some(now) = current {
        let found = decimal(now.size_bytes as nat);
        let was = decimal(recorded.size_bytes as nat);
        a_number_reads_back_from_its_decimal(now.size_bytes as nat);
        a_number_reads_back_from_its_decimal(recorded.size_bytes as nat);
        assert(reads_as(found, now.size_bytes as int) && reads_as(
            was,
            recorded.size_bytes as int,
        ));
        let reason = "size is now "@ + found + " bytes, was "@ + was + " at registration"@;
        assert(now.size_bytes != recorded.size_bytes ==> drift(recorded, current)
            == Drift::Changed(reason));
    }
}

/// Compares a recorded artifact against the file as it is now.
///
/// A modification time that moved is enough to stop trusting the record: an edit
/// that preserves length is what a size check alone would miss.
pub fn detect_drift(artifact: &ModelArtifact, current: Option<ArtifactFingerprint>) -> (state:
    ArtifactState)
    ensures
        state@ == drift(artifact.fingerprint, current),
        state is Missing <==> current is None,
        state is Unchanged <==> (current matches Some(now) && now.size_bytes
            == artifact.fingerprint.size_bytes && (now.modified_at is None
            || artifact.fingerprint.modified_at is None || now.modified_at
            == artifact.fingerprint.modified_at)),
{
    let now = match current {
        None => {
            return ArtifactState::Missing;
        },
        Some(now) => now,
    };
    let then = artifact.fingerprint;
    if now.size_bytes != then.size_bytes {
        let mut reason = "size is now ".to_owned();
        reason.append(decimal_u64(now.size_bytes).as_str());
        reason.append(" bytes, was ");
        reason.append(decimal_u64(then.size_bytes).as_str());
        reason.append(" at registration");
        return ArtifactState::Changed { reason };
    }
    match (now.modified_at, then.modified_at) {
        (Some(a), Some(b)) => if a != b {
            ArtifactState::Changed {
                reason: "modification time has changed since registration".to_owned(),
            }
        } else {
            ArtifactState::Unchanged
        },
        _ => ArtifactState::Unchanged,
    }
}

/// A metadata value as it is stored: a text, or a float to be shown by whoever
/// stores it.
#[derive(Debug, Clone, PartialEq, Eq)]
pub enum RenderedValue {
    Text(String),
    /// A 32-bit float, by its bits.
    F32(u32),
    /// A 64-bit float, by its bits.
    F64(u64),
}

/// What a [`RenderedValue`] says.
pub enum Rendered {
    Text(Seq<char>),
    F32(u32),
    F64(u64),
}

impl RenderedValue {
    pub open spec fn view(&self) -> Rendered {
        match self {
            RenderedValue::Text(text) => Rendered::Text(text@),
            RenderedValue::F32(bits) => Rendered::F32(*bits),
            RenderedValue::F64(bits) => Rendered::F64(*bits),
        }
    }
}

/// How a metadata value is stored. Arrays are stored by shape.
pub open spec fn rendering(value: Value) -> Rendered {
    match value {
        Value::Text(text) => Rendered::Text(text),
        Value::Bool(flag) => Rendered::Text(
            if flag {
                "true"@
            } else {
                "false"@
            },
        ),
        Value::U8(v) => Rendered::Text(decimal(v as nat)),
        Value::I8(v) => Rendered::Text(signed_decimal(v as int)),
        Value::U16(v) => Rendered::Text(decimal(v as nat)),
        Value::I16(v) => Rendered::Text(signed_decimal(v as int)),
        Value::U32(v) => Rendered::Text(decimal(v as nat)),
        Value::I32(v) => Rendered::Text(signed_decimal(v as int)),
        Value::U64(v) => Rendered::Text(decimal(v as nat)),
        Value::I64(v) => Rendered::Text(signed_decimal(v as int)),
        Value::F32(bits) => Rendered::F32(bits),
        Value::F64(bits) => Rendered::F64(bits),
        Value::Array(items) => Rendered::Text("["@ + decimal(items.len()) + " items]"@),
        Value::LargeArray { len, .. } => Rendered::Text(
            "["@ + decimal(len as nat) + " items]"@,
        ),
    }
}

fn items_text(n: u64) -> (text: String)
    ensures
        text@ == "["@ + decimal(n as nat) + " items]"@,
        is_shape(text@, n as int),
{
    proof {
        a_number_reads_back_from_its_decimal(n as nat);
        assert(is_shape("["@ + decimal(n as nat) + " items]"@, n as int));
    }
    let mut text = "[".to_owned();
    text.append(decimal_u64(n).as_str());
    text.append(" items]");
    text
}

/// Whether a text is that of a list of `n` items, kept by its length.
pub open spec fn is_shape(text: Seq<char>, n: int) -> bool {
    exists|count: Seq<char>|
        reads_as(count, n) && text == #[trigger] ("["@ + count + " items]"@)
}

/// Whether a value is kept as it should be: an integer as the text that reads as it, a
/// text as itself, a float by its bits, and a list by its length.
pub open spec fn is_kept_as(value: MetadataValue, rendered: RenderedValue) -> bool {
    match value {
        MetadataValue::U8(v) => rendered is Text && reads_as(rendered->Text_0@, v as int),
        MetadataValue::I8(v) => rendered is Text && reads_as(rendered->Text_0@, v as int),
        MetadataValue::U16(v) => rendered is Text && reads_as(rendered->Text_0@, v as int),
        MetadataValue::I16(v) => rendered is Text && reads_as(rendered->Text_0@, v as int),
        MetadataValue::U32(v) => rendered is Text && reads_as(rendered->Text_0@, v as int),
        MetadataValue::I32(v) => rendered is Text && reads_as(rendered->Text_0@, v as int),
        MetadataValue::U64(v) => rendered is Text && reads_as(rendered->Text_0@, v as int),
        MetadataValue::I64(v) => rendered is Text && reads_as(rendered->Text_0@, v as int),
        MetadataValue::F32(bits) => rendered == RenderedValue::F32(bits),
        MetadataValue::F64(bits) => rendered == RenderedValue::F64(bits),
        MetadataValue::Bool(flag) => rendered is Text && (flag ==> rendered->Text_0@ == "true"@)
            && (!flag ==> rendered->Text_0@ == "false"@),
        MetadataValue::String(text) => rendered is Text && rendered->Text_0@ == text@,
        MetadataValue::Array(items) => rendered is Text && is_shape(
            rendered->Text_0@,
            items@.len() as int,
        ),
        MetadataValue::LargeArray { len, .. } => rendered is Text && is_shape(
            rendered->Text_0@,
            len as int,
        ),
    }
}

/// An integer of any of the eight types is kept as the text that reads as it.
pub proof fn an_integer_is_kept_as_its_decimal(value: Value, n: int)
    requires
        is_integer(value, n),
    ensures
        rendering(value) is Text,
        reads_as(rendering(value)->Text_0, n),
{
    a_signed_number_reads_back_from_its_decimal(n);
    if n >= 0 {
        a_number_reads_back_from_its_decimal(n as nat);
    }
}

/// Two integers that are kept as the same text are equal, whatever their types.
pub proof fn integers_kept_alike_are_equal(a: Value, b: Value, m: int, n: int)
    requires
        is_integer(a, m),
        is_integer(b, n),
        rendering(a) == rendering(b),
    ensures
        m == n,
{
    an_integer_is_kept_as_its_decimal(a, m);
    an_integer_is_kept_as_its_decimal(b, n);
    a_numeral_is_one_number(rendering(a)->Text_0, m, n);
}

/// A text is kept as it is, a float by its bits, a truth value as the word for it, and
/// a list by how many items it has.
pub proof fn what_is_no_integer_is_kept_too(
    text: Seq<char>,
    flag: bool,
    single: u32,
    double: u64,
    items: Seq<Value>,
    element_type: u32,
    len: u64,
)
    ensures
        rendering(Value::Text(text)) == Rendered::Text(text),
        rendering(Value::F32(single)) == Rendered::F32(single),
        rendering(Value::F64(double)) == Rendered::F64(double),
        rendering(Value::Bool(true)) == Rendered::Text("true"@),
        rendering(Value::Bool(false)) == Rendered::Text("false"@),
        rendering(Value::Array(items)) is Text,
        is_shape(rendering(Value::Array(items))->Text_0, items.len() as int),
        rendering(Value::LargeArray { element_type, len }) is Text,
        is_shape(rendering(Value::LargeArray { element_type, len })->Text_0, len as int),
{
    a_number_reads_back_from_its_decimal(items.len());
    a_number_reads_back_from_its_decimal(len as nat);
    assert(is_shape("["@ + decimal(items.len()) + " items]"@, items.len() as int));
    assert(is_shape("["@ + decimal(len as nat) + " items]"@, len as int));
}

/// Renders a metadata value for storage.
pub fn render_value(value: &MetadataValue) -> (rendered: RenderedValue)
    ensures
        rendered@ == rendering(value@),
        is_kept_as(*value, rendered),
{
    match value {
        MetadataValue::String(text) => RenderedValue::Text(text.clone()),
        MetadataValue::Bool(flag) => RenderedValue::Text(
            if *flag {
                "true".to_owned()
            } else {
                "false".to_owned()
            },
        ),
        MetadataValue::U8(v) => RenderedValue::Text(decimal_u64(*v as u64)),
        MetadataValue::I8(v) => RenderedValue::Text(decimal_i64(*v as i64)),
        MetadataValue::U16(v) => RenderedValue::Text(decimal_u64(*v as u64)),
        MetadataValue::I16(v) => RenderedValue::Text(decimal_i64(*v as i64)),
        MetadataValue::U32(v) => RenderedValue::Text(decimal_u64(*v as u64)),
        MetadataValue::I32(v) => RenderedValue::Text(decimal_i64(*v as i64)),
        MetadataValue::U64(v) => RenderedValue::Text(decimal_u64(*v)),
        MetadataValue::I64(v) => RenderedValue::Text(decimal_i64(*v)),
        MetadataValue::F32(bits) => RenderedValue::F32(*bits),
        MetadataValue::F64(bits) => RenderedValue::F64(*bits),
        MetadataValue::Array(items) => RenderedValue::Text(items_text(items.len() as u64)),
        MetadataValue::LargeArray { len, .. } => RenderedValue::Text(items_text(*len)),
    }
}

} // verus!
