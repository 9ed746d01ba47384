use std::collections::BTreeMap;

use mehoy::registry::artifact::{
    detect_drift, render_value, ArtifactFingerprint, ArtifactFormat, ArtifactId,
    ArtifactIntegrity, ArtifactMetadata, ArtifactState, DigestAlgorithm, ModelArtifact,
    RenderedValue,
};
use mehoy::registry::digest::ContentDigest;
use mehoy::registry::gguf::{parse, GgufError, MetadataValue};
use mehoy::registry::records::{ArtifactRegistry, Record};
use mehoy::registry::register::{admit_path, FileRead, Located, Looked, Lookup, Unresolved};
use mehoy::registry::store::{
    artifact_to_row, from_epoch, from_epoch_nanos, from_signed, integrity_columns, metadata_rows,
    record, require, row_to_artifact, to_epoch, to_epoch_nanos, to_signed, verify, ArtifactRow,
    Registration, RegistryError,
};

const SECOND: i128 = 1_000_000_000;

/// Builds container bytes, including deliberately malformed ones.
#[derive(Default)]
struct Gguf {
    bytes: Vec<u8>,
}

impl Gguf {
    fn new() -> Self {
        Self { bytes: b"GGUF".to_vec() }
    }

    fn raw(mut self, bytes: &[u8]) -> Self {
        self.bytes.extend_from_slice(bytes);
        self
    }

    fn u32(self, value: u32) -> Self {
        self.raw(&value.to_le_bytes())
    }

    fn u64(self, value: u64) -> Self {
        self.raw(&value.to_le_bytes())
    }

    fn string(self, value: &str) -> Self {
        self.u64(value.len() as u64).raw(value.as_bytes())
    }

    fn text_entry(self, key: &str, value: &str) -> Self {
        self.string(key).u32(8).string(value)
    }

    fn number_entry(self, key: &str, value: u32) -> Self {
        self.string(key).u32(4).u32(value)
    }

    fn build(self) -> Vec<u8> {
        self.bytes
    }
}

/// A well-formed container with the fields the runtime reasons about.
fn valid_container() -> Vec<u8> {
    Gguf::new()
        .u32(3)
        .u64(12)
        .u64(6)
        .text_entry("general.architecture", "llama")
        .text_entry("general.name", "tiny test model")
        .number_entry("general.file_type", 15)
        .number_entry("llama.context_length", 8192)
        .number_entry("llama.embedding_length", 576)
        .text_entry("tokenizer.ggml.model", "gpt2")
        .build()
}

/// The files a registry sees, with when each was modified. A directory has no bytes.
#[derive(Default)]
struct Disk {
    files: BTreeMap<String, (Option<Vec<u8>>, i128)>,
    links: BTreeMap<String, String>,
    clock: i128,
}

impl Disk {
    fn write(&mut self, path: &str, bytes: &[u8]) {
        self.clock += 1_234_567_890;
        self.files.insert(path.to_owned(), (Some(bytes.to_vec()), self.clock));
    }

    fn link(&mut self, path: &str, target: &str) {
        self.links.insert(path.to_owned(), target.to_owned());
    }

    /// The path with links followed and the steps that lead nowhere taken out.
    fn canonical(&self, path: &str) -> String {
        let plain = path.replace("/./", "/");
        self.links.get(&plain).cloned().unwrap_or(plain)
    }

    fn resolve(&self, path: &str) -> Result<String, Unresolved> {
        let canonical = self.canonical(path);
        if self.files.contains_key(&canonical) {
            Ok(canonical)
        } else {
            Err(Unresolved::NotFound)
        }
    }

    fn look(&self, path: &str) -> Looked {
        match self.files.get(&self.canonical(path)) {
            None => Looked::NotFound,
            Some((None, _)) => Looked::Directory,
            Some((Some(_), _)) => Looked::File,
        }
    }

    fn observe(&self, path: &str) -> Option<ArtifactFingerprint> {
        match self.files.get(path) {
            Some((Some(bytes), modified)) => {
                Some(ArtifactFingerprint::observe(bytes.len() as u64, Some(*modified)))
            }
            _ => None,
        }
    }

    fn read(&self, path: &str) -> Vec<u8> {
        self.files[path].0.clone().expect("a file")
    }
}

/// A registry with what is kept of its records, the way a database would.
struct Registry {
    records: ArtifactRegistry,
    kept: Vec<Record>,
}

impl Default for Registry {
    fn default() -> Self {
        let records = ArtifactRegistry::open_in_memory().expect("opens");
        Registry { records, kept: Vec::new() }
    }
}

impl Registry {
    fn register(&mut self, disk: &Disk, path: &str) -> Result<Registration, RegistryError> {
        let admitted = admit_path(path, disk.look(path))?;
        let located = Located::new(admitted, disk.resolve(path))?;
        let canonical = located.path().to_owned();
        let unregistered = match located.found(&self.records) {
            Lookup::Known(registration) => return Ok(registration),
            Lookup::Unknown(unregistered) => unregistered,
        };
        let inspected = unregistered
            .read(Ok(FileRead { bytes: disk.read(&canonical), failure: None }))?;
        let fingerprint = disk.observe(&canonical).ok_or_else(|| "gone".to_owned());
        let pending = inspected.observed(fingerprint, disk.clock)?;
        self.kept.push(Record { row: pending.row(), metadata: pending.metadata() });
        pending.inserted(&mut self.records, Ok(()))
    }

    fn len(&self) -> usize {
        self.records.list().len()
    }

    fn get(&self, id: &ArtifactId) -> Option<ModelArtifact> {
        self.records.get(id)
    }

    fn check(&self, disk: &Disk, id: &ArtifactId) -> Result<ArtifactState, RegistryError> {
        let current = self.get(id).and_then(|artifact| disk.observe(&artifact.path));
        self.records.check(id, current)
    }

    fn verify(&mut self, disk: &Disk, id: &ArtifactId) -> Result<ArtifactIntegrity, RegistryError> {
        let artifact = require(id, self.get(id))?;
        let mut contents = ContentDigest::new();
        for chunk in disk.read(&artifact.path).chunks(7) {
            contents = contents.update(chunk).map_err(RegistryError::Io)?;
        }
        self.records.verify(id, Ok(verify(contents)), Ok(()))
    }

    fn forget(&mut self, id: &ArtifactId) -> bool {
        self.records.forget(id, Ok(())).expect("forgets")
    }
}

fn disk_with(path: &str, bytes: &[u8]) -> Disk {
    let mut disk = Disk::default();
    disk.write(path, bytes);
    disk
}

fn registered() -> (Disk, Registry, ArtifactId) {
    let disk = disk_with("/models/model.gguf", &valid_container());
    let mut registry = Registry::default();
    let id = registry
        .register(&disk, "/models/model.gguf")
        .expect("registers")
        .artifact()
        .id
        .clone();
    (disk, registry, id)
}

fn refused(bytes: &[u8]) -> RegistryError {
    let disk = disk_with("/models/x.gguf", bytes);
    Registry::default().register(&disk, "/models/x.gguf").expect_err("must be rejected")
}

#[test]
fn a_valid_container_registers_with_its_metadata() {
    let disk = disk_with("/models/model.gguf", &valid_container());
    let mut registry = Registry::default();

    let registration = registry.register(&disk, "/models/model.gguf").expect("registers");
    assert!(registration.is_new());
    let artifact = registration.artifact();

    assert_eq!(artifact.metadata.architecture.as_deref(), Some("llama"));
    assert_eq!(artifact.metadata.name.as_deref(), Some("tiny test model"));
    assert_eq!(artifact.metadata.context_length, Some(8192));
    assert_eq!(artifact.metadata.embedding_length, Some(576));
    assert_eq!(artifact.metadata.tokenizer_model.as_deref(), Some("gpt2"));
    assert_eq!(artifact.metadata.file_type, Some(15));
    assert_eq!(artifact.metadata.tensor_count, 12);
    assert_eq!(artifact.size_bytes, valid_container().len() as u64);
}

#[test]
fn a_newly_registered_artifact_is_unverified() {
    // Registration reads only the header, so it must not claim to know the contents.
    let disk = disk_with("/models/model.gguf", &valid_container());
    let mut registry = Registry::default();

    let registration = registry.register(&disk, "/models/model.gguf").expect("registers");
    assert_eq!(registration.artifact().integrity, ArtifactIntegrity::Unverified);
}

#[test]
fn a_gguf_extension_is_not_evidence_of_anything() {
    match refused(b"I am a text file, not a model") {
        RegistryError::NotAnArtifact { source, .. } => {
            assert!(
                matches!(source, GgufError::NotGguf { .. }),
                "expected NotGguf, got {}",
                source.to_string()
            );
        }
        other => panic!("expected NotAnArtifact, got {}", other.to_string()),
    }
}

#[test]
fn a_container_without_the_extension_still_registers() {
    // Contents decide, not the name.
    let disk = disk_with("/models/model-with-no-extension", &valid_container());
    let mut registry = Registry::default();
    assert!(registry
        .register(&disk, "/models/model-with-no-extension")
        .expect("registers")
        .is_new());
}

#[test]
fn a_truncated_container_is_rejected() {
    let full = valid_container();
    for cut in [2, 6, 10, 20, 40, 60] {
        let err = refused(&full[..cut]);
        assert!(
            matches!(err, RegistryError::NotAnArtifact { .. }),
            "cutting at {cut} gave {}",
            err.to_string()
        );
    }
}

#[test]
fn an_unsupported_version_is_reported_explicitly() {
    match refused(&Gguf::new().u32(4242).u64(0).u64(0).build()) {
        RegistryError::NotAnArtifact { source, .. } => match source {
            GgufError::UnsupportedVersion { version } => assert_eq!(version, 4242),
            other => panic!("expected UnsupportedVersion, got {}", other.to_string()),
        },
        other => panic!("expected NotAnArtifact, got {}", other.to_string()),
    }
}

#[test]
fn a_declared_length_beyond_the_file_is_refused_safely() {
    // A parser that allocated before checking would try to reserve terabytes here.
    match refused(&Gguf::new().u32(3).u64(0).u64(1).u64(u64::MAX).build()) {
        RegistryError::NotAnArtifact { source, .. } => assert!(
            matches!(source, GgufError::Implausible { .. }),
            "expected Implausible, got {}",
            source.to_string()
        ),
        other => panic!("expected NotAnArtifact, got {}", other.to_string()),
    }
}

#[test]
fn an_absurd_entry_count_is_refused_before_allocating() {
    match refused(&Gguf::new().u32(3).u64(0).u64(u64::MAX).build()) {
        RegistryError::NotAnArtifact { source, .. } => assert!(
            matches!(source, GgufError::Implausible { .. }),
            "expected Implausible, got {}",
            source.to_string()
        ),
        other => panic!("expected NotAnArtifact, got {}", other.to_string()),
    }
}

#[test]
fn a_missing_path_is_reported_as_missing() {
    let err = Registry::default()
        .register(&Disk::default(), "no-such-model-anywhere.gguf")
        .expect_err("must be rejected");
    assert!(
        matches!(err, RegistryError::NotFound { .. }),
        "expected NotFound, got {}",
        err.to_string()
    );
    assert_eq!(err.to_string(), "no such file: no-such-model-anywhere.gguf");
}

#[test]
fn a_directory_is_rejected() {
    let mut disk = Disk::default();
    disk.files.insert("/models".to_owned(), (None, 0));
    let err = Registry::default().register(&disk, "/models").expect_err("must be rejected");
    assert!(
        matches!(err, RegistryError::NotAFile { .. }),
        "expected NotAFile, got {}",
        err.to_string()
    );
    assert_eq!(err.to_string(), "/models is not a model file: path is a directory");
}

#[test]
fn registering_the_same_path_twice_is_idempotent() {
    let disk = disk_with("/models/model.gguf", &valid_container());
    let mut registry = Registry::default();

    let first = registry.register(&disk, "/models/model.gguf").expect("registers");
    let second = registry.register(&disk, "/models/model.gguf").expect("registers again");

    assert!(first.is_new());
    assert!(!second.is_new(), "the second call must not create a record");
    assert_eq!(
        first.artifact().id,
        second.artifact().id,
        "the identifier must be stable across repeated registration"
    );
    assert_eq!(registry.len(), 1);
}

#[test]
fn path_aliases_resolve_to_one_artifact() {
    // Reaching the same file by a different route must not create a second record, or
    // the registry would hold two identifiers for one artifact.
    let disk = disk_with("/models/model.gguf", &valid_container());
    let mut registry = Registry::default();

    let first = registry.register(&disk, "/models/model.gguf").expect("registers");
    let second = registry.register(&disk, "/models/./model.gguf").expect("registers via alias");

    assert_eq!(first.artifact().id, second.artifact().id);
    assert_eq!(registry.len(), 1);
}

#[test]
fn the_recorded_path_is_canonical() {
    let disk = disk_with("/models/model.gguf", &valid_container());
    let mut registry = Registry::default();
    let registration = registry.register(&disk, "/models/./model.gguf").expect("registers");
    let path = &registration.artifact().path;
    assert!(
        !path.contains("\\.\\") && !path.contains("/./"),
        "the recorded path should be canonical, got {path}"
    );
}

#[test]
fn a_replaced_file_is_reported_as_changed_rather_than_adopted() {
    // Silently updating the record would erase the difference between the artifact
    // that was inspected and whatever now sits at that path.
    let (mut disk, registry, id) = registered();
    assert_eq!(registry.check(&disk, &id).expect("checks"), ArtifactState::Unchanged);

    // Replace with a different container: same name, different contents and size.
    let replacement = Gguf::new()
        .u32(3)
        .u64(0)
        .u64(1)
        .text_entry("general.architecture", "something-else")
        .build();
    disk.write("/models/model.gguf", &replacement);

    match registry.check(&disk, &id).expect("checks") {
        ArtifactState::Changed { reason } => assert!(reason.contains("size"), "{reason}"),
        other => panic!("expected Changed, got {}", other.to_string()),
    }

    // The record still describes what was first inspected.
    let recorded = registry.get(&id).expect("present");
    assert_eq!(recorded.metadata.architecture.as_deref(), Some("llama"));
}

#[test]
fn a_deleted_file_is_reported_as_missing() {
    let (mut disk, registry, id) = registered();
    disk.files.clear();
    assert_eq!(registry.check(&disk, &id).expect("checks"), ArtifactState::Missing);
}

#[test]
fn the_registry_survives_being_reopened() {
    let (_, registry, id) = registered();
    let reopened = ArtifactRegistry::open(Ok(registry.kept)).expect("reopens");
    let artifact = reopened.get(&id).expect("the artifact survived the restart");

    assert_eq!(artifact.id, id, "the identifier must be stable across a restart");
    assert_eq!(artifact.metadata.architecture.as_deref(), Some("llama"));
    assert_eq!(artifact.metadata.context_length, Some(8192));
    assert_eq!(artifact.integrity, ArtifactIntegrity::Unverified);
}

#[test]
fn uninterpreted_metadata_is_kept_rather_than_discarded() {
    // A key the runtime does not reason about is still recorded, so learning a new
    // key later is not a schema change.
    let bytes = Gguf::new()
        .u32(3)
        .u64(0)
        .u64(2)
        .text_entry("general.architecture", "llama")
        .text_entry("some.vendor.specific.key", "vendor value")
        .build();
    let disk = disk_with("/models/model.gguf", &bytes);
    let mut registry = Registry::default();
    let registration = registry.register(&disk, "/models/model.gguf").expect("registers");

    let entries = registry.records.metadata(&registration.artifact().id);
    let found = entries
        .iter()
        .find(|row| row.key == "some.vendor.specific.key")
        .expect("the uninterpreted key is retained");
    assert_eq!(found.value, RenderedValue::Text("vendor value".to_owned()));
}

#[test]
fn verification_is_a_separate_step_from_registration() {
    let (disk, mut registry, id) = registered();
    assert_eq!(registry.get(&id).expect("present").integrity, ArtifactIntegrity::Unverified);

    let integrity = registry.verify(&disk, &id).expect("verifies");
    match &integrity {
        ArtifactIntegrity::Verified { digest, .. } => assert_eq!(digest.len(), 32),
        ArtifactIntegrity::Unverified => panic!("verification must produce a digest"),
    }

    assert!(
        registry.get(&id).expect("present").integrity.is_verified(),
        "the verified state must be durable"
    );
    assert_eq!(registry.get(&id).expect("present").integrity, integrity);
}

#[test]
fn forgetting_an_artifact_leaves_the_file_alone() {
    let (disk, mut registry, id) = registered();
    assert!(registry.forget(&id));
    assert!(registry.get(&id).is_none());
    assert!(
        disk.files.contains_key("/models/model.gguf"),
        "registration records a file; forgetting must not delete it"
    );
    assert!(!registry.forget(&id));
    match registry.check(&disk, &id) {
        Err(RegistryError::UnknownArtifact { id: reported }) => assert_eq!(reported, id),
        other => panic!("expected UnknownArtifact, got {other:?}"),
    }
}

#[test]
fn a_link_is_what_it_leads_to() {
    let (mut disk, mut registry, id) = registered();
    disk.files.insert("/models/dir".to_owned(), (None, 0));
    disk.link("/models/dangling", "/models/nothing");
    disk.link("/models/dir-link", "/models/dir");
    disk.link("/models/alias", "/models/model.gguf");

    match registry.register(&disk, "/models/dangling") {
        Err(RegistryError::NotFound { path }) => assert_eq!(path, "/models/dangling"),
        other => panic!("expected NotFound, got {other:?}"),
    }
    match registry.register(&disk, "/models/dir-link") {
        Err(RegistryError::NotAFile { path, .. }) => assert_eq!(path, "/models/dir-link"),
        other => panic!("expected NotAFile, got {other:?}"),
    }
    assert_eq!(registry.len(), 1);

    // A link to a registered file finds the record of the file, with what was first
    // recorded of it, and after its contents were digested too.
    registry.verify(&disk, &id).expect("verifies");
    let entries = registry.records.metadata(&id);
    let listed = registry.records.list();
    match registry.register(&disk, "/models/alias") {
        Ok(Registration::AlreadyRegistered(artifact)) => {
            assert_eq!(artifact.id, id);
            assert_eq!(artifact.path, "/models/model.gguf");
            assert_eq!(artifact.metadata.context_length, Some(8192));
        }
        other => panic!("expected AlreadyRegistered, got {other:?}"),
    }
    assert_eq!(registry.len(), 1);
    assert_eq!(entries.len(), 6);
    assert_eq!(registry.records.metadata(&id), entries);
    assert_eq!(registry.records.list(), listed);
}

#[test]
fn every_stage_of_a_registration_reports_its_own_failure() {
    let words = |error: RegistryError| error.to_string();
    assert_eq!(
        words(admit_path("p", Looked::Failed("denied".to_owned())).expect_err("refused")),
        "artifact registry filesystem failure: denied"
    );
    assert_eq!(
        words(admit_path("p", Looked::Other).expect_err("refused")),
        "p is not a model file: path is not a regular file"
    );
    let admitted = || admit_path("p", Looked::File).unwrap_or_else(|e| panic!("{e:?}"));
    let unresolved = Err(Unresolved::Failed("loop".to_owned()));
    assert!(matches!(Located::new(admitted(), unresolved), Err(RegistryError::Io(_))));
    match Located::new(admitted(), Err(Unresolved::NotFound)) {
        Err(RegistryError::NotFound { path }) => assert_eq!(path, "p"),
        _ => panic!("expected NotFound"),
    }
    let located = || {
        Located::new(admitted(), Ok("/m".to_owned())).unwrap_or_else(|e| panic!("{e:?}"))
    };
    match ArtifactRegistry::open(Err("locked".to_owned())) {
        Err(RegistryError::Storage(reason)) => assert_eq!(reason, "locked"),
        _ => panic!("expected Storage"),
    }
    let mut registry = ArtifactRegistry::open_in_memory().expect("opens");
    let unregistered = || {
        let empty = ArtifactRegistry::open_in_memory().expect("opens");
        match located().found(&empty) {
            Lookup::Unknown(unregistered) => unregistered,
            Lookup::Known(_) => panic!("nothing is registered"),
        }
    };
    assert!(matches!(
        unregistered().read(Err("denied".to_owned())),
        Err(RegistryError::Io(_))
    ));
    let cut = FileRead { bytes: b"GGUF".to_vec(), failure: Some("disk error".to_owned()) };
    match unregistered().read(Ok(cut)) {
        Err(RegistryError::NotAnArtifact { path, source: GgufError::Io(reason) }) => {
            assert_eq!(path, "/m");
            assert_eq!(reason, "disk error");
        }
        _ => panic!("a read that fails is no artifact"),
    }
    let inspected = || {
        let whole = FileRead { bytes: valid_container(), failure: None };
        match unregistered().read(Ok(whole)) {
            Ok(inspected) => inspected,
            Err(error) => panic!("{}", error.to_string()),
        }
    };
    assert!(matches!(
        inspected().observed(Err("gone".to_owned()), 0),
        Err(RegistryError::Io(_))
    ));
    let pending = |id: &str| {
        inspected().identified(
            ArtifactId::from_stored(id),
            ArtifactFingerprint::observe(1, None),
            5 * SECOND,
        )
    };
    assert_eq!(pending("id").row().registered_at, 5);
    assert_eq!(pending("id").metadata().len(), 6);
    let full = Err("disk full".to_owned());
    assert_eq!(
        words(pending("id").inserted(&mut registry, full).expect_err("refused")),
        "artifact registry storage failure: disk full"
    );
    assert!(registry.list().is_empty(), "what was not written is not recorded");

    // Of two registrations of one path that are under way, the first is recorded.
    let first = pending("first").inserted(&mut registry, Ok(())).expect("registers");
    let second = pending("second").inserted(&mut registry, Ok(())).expect("finds");
    assert!(first.is_new() && !second.is_new());
    assert_eq!(second.artifact().id.as_str(), "first");
    assert_eq!(registry.list().len(), 1);
}

/// A registry of artifacts that were registered at given times, in seconds.
fn registered_at(times: &[(&str, i64)]) -> ArtifactRegistry {
    let header = parse(valid_container().as_slice()).expect("parses");
    let kept = times
        .iter()
        .map(|(id, time)| {
            let artifact = record(
                ArtifactId::from_stored(id),
                &format!("/models/{id}"),
                &header,
                ArtifactFingerprint::observe(1, None),
                i128::from(*time) * SECOND,
            );
            Record { row: artifact_to_row(&artifact), metadata: metadata_rows(&header) }
        })
        .collect();
    ArtifactRegistry::open(Ok(kept)).expect("opens")
}

fn ids(registry: &ArtifactRegistry) -> Vec<String> {
    registry.list().iter().map(|artifact| artifact.id.as_str().to_owned()).collect()
}

#[test]
fn the_latest_registration_is_listed_first() {
    assert!(registered_at(&[]).list().is_empty());
    let registry = registered_at(&[("a", 5), ("b", 9), ("c", 5), ("d", 7), ("e", 9)]);
    assert_eq!(ids(&registry), ["e", "b", "d", "c", "a"]);
}

#[test]
fn an_artifact_is_found_by_its_path_and_by_its_identifier() {
    let registry = registered_at(&[("a", 5), ("b", 9)]);
    let id = ArtifactId::from_stored("b");
    let by_path = registry.find_by_path("/models/b").expect("known");
    assert_eq!(by_path.id, id);
    assert_eq!(registry.get(&id), Some(by_path));
    assert!(registry.find_by_path("/models/c").is_none());
    assert!(registry.get(&ArtifactId::from_stored("c")).is_none());
    assert!(registry.metadata(&ArtifactId::from_stored("c")).is_empty());
    let keys: Vec<String> =
        registry.metadata(&id).into_iter().map(|entry| entry.key).collect();
    assert_eq!(keys.len(), 6);
    assert_eq!(keys[0], "general.architecture");
    assert_eq!(keys[5], "tokenizer.ggml.model");
}

#[test]
fn only_the_named_artifact_is_verified_or_forgotten() {
    let mut registry = registered_at(&[("a", 5), ("b", 9), ("c", 7)]);
    let (a, b) = (ArtifactId::from_stored("a"), ArtifactId::from_stored("b"));
    let unknown = ArtifactId::from_stored("x");
    let digest = || Ok(verify(ContentDigest::new()));

    match registry.verify(&unknown, digest(), Ok(())) {
        Err(RegistryError::UnknownArtifact { id }) => assert_eq!(id, unknown),
        other => panic!("expected UnknownArtifact, got {other:?}"),
    }
    match registry.verify(&b, Err("denied".to_owned()), Ok(())) {
        Err(RegistryError::Io(reason)) => assert_eq!(reason, "denied"),
        other => panic!("expected Io, got {other:?}"),
    }
    match registry.verify(&b, digest(), Err("locked".to_owned())) {
        Err(RegistryError::Storage(reason)) => assert_eq!(reason, "locked"),
        other => panic!("expected Storage, got {other:?}"),
    }
    assert!(registry.list().iter().all(|artifact| !artifact.integrity.is_verified()));

    let integrity = registry.verify(&b, digest(), Ok(())).expect("verifies");
    assert_eq!(registry.get(&b).expect("known").integrity, integrity);
    assert!(!registry.get(&a).expect("known").integrity.is_verified());

    match registry.forget(&a, Err("locked".to_owned())) {
        Err(RegistryError::Storage(reason)) => assert_eq!(reason, "locked"),
        other => panic!("expected Storage, got {other:?}"),
    }
    assert_eq!(ids(&registry), ["b", "c", "a"]);
    assert!(matches!(registry.forget(&b, Ok(())), Ok(true)));
    assert!(matches!(registry.forget(&b, Ok(())), Ok(false)));
    assert_eq!(ids(&registry), ["c", "a"]);
    assert!(registry.metadata(&b).is_empty());
}

// --------------------------------------------------------------------- artifacts

fn artifact(size: u64, modified: Option<i128>) -> ModelArtifact {
    ModelArtifact {
        id: ArtifactId::from_stored("test"),
        path: "no-such-file-for-drift-tests".to_owned(),
        format: ArtifactFormat::Gguf,
        size_bytes: size,
        metadata: ArtifactMetadata::default(),
        integrity: ArtifactIntegrity::Unverified,
        fingerprint: ArtifactFingerprint { size_bytes: size, modified_at: modified },
        registered_at: 0,
    }
}

#[test]
fn identifiers_are_unique_and_not_derived_from_content() {
    let first = ArtifactId::generate().expect("generates");
    let second = ArtifactId::generate().expect("generates");
    assert_ne!(first, second);
    assert_eq!(first.as_str().len(), 32);
    assert_eq!(first.to_string(), first.as_str());
}

#[test]
fn a_new_artifact_is_unverified() {
    // Registration does not read the whole file, so it must not claim to know the
    // contents.
    assert!(!ArtifactIntegrity::Unverified.is_verified());
    assert!(
        ArtifactIntegrity::Verified {
            algorithm: DigestAlgorithm::Sha256,
            digest: vec![0; 32],
        }
        .is_verified()
    );
}

#[test]
fn a_missing_file_is_missing_rather_than_unchanged() {
    assert_eq!(detect_drift(&artifact(10, None), None), ArtifactState::Missing);
}

#[test]
fn formats_round_trip_through_storage() {
    assert_eq!(
        ArtifactFormat::from_stored(ArtifactFormat::Gguf.as_str()),
        Some(ArtifactFormat::Gguf)
    );
    assert_eq!(ArtifactFormat::from_stored("safetensors"), None);
    assert_eq!(ArtifactFormat::Gguf.to_string(), ArtifactFormat::Gguf.as_str());
}

#[test]
fn digest_algorithms_round_trip_through_storage() {
    assert_eq!(
        DigestAlgorithm::from_stored(DigestAlgorithm::Sha256.as_str()),
        Some(DigestAlgorithm::Sha256)
    );
    assert_eq!(DigestAlgorithm::from_stored("md5"), None);
}

#[test]
fn a_changed_state_is_never_usable() {
    let changed = ArtifactState::Changed { reason: "size differs".to_owned() };
    assert!(!changed.is_usable());
    assert!(!ArtifactState::Missing.is_usable());
    assert!(ArtifactState::Unchanged.is_usable());
}

#[test]
fn a_modification_time_alone_is_enough_to_stop_trusting_a_record() {
    // An edit that preserves length is exactly what a size-only check misses.
    let then = 0;
    let now = then + 60 * SECOND;
    let recorded = artifact(100, Some(then));
    let current = ArtifactFingerprint { size_bytes: 100, modified_at: Some(now) };
    assert_ne!(current.modified_at, recorded.fingerprint.modified_at);
    assert!(matches!(
        detect_drift(&recorded, Some(current)),
        ArtifactState::Changed { .. }
    ));
}

#[test]
fn a_file_without_a_time_is_trusted_by_its_size() {
    let observed = |size, modified| Some(ArtifactFingerprint::observe(size, modified));
    assert_eq!(
        detect_drift(&artifact(9, None), observed(9, None)),
        ArtifactState::Unchanged
    );
    assert!(matches!(
        detect_drift(&artifact(9, None), observed(8, None)),
        ArtifactState::Changed { .. }
    ));
}

#[test]
fn large_arrays_render_by_shape_rather_than_contents() {
    let rendered = render_value(&MetadataValue::LargeArray { element_type: 8, len: 250_000 });
    assert_eq!(rendered, RenderedValue::Text("[250000 items]".to_owned()));
}

#[test]
fn values_render_as_what_they_are() {
    let text = |value| match render_value(&value) {
        RenderedValue::Text(text) => text,
        other => panic!("expected text, got {other:?}"),
    };
    assert_eq!(text(MetadataValue::U8(7)), "7");
    assert_eq!(text(MetadataValue::I16(-7)), "-7");
    assert_eq!(text(MetadataValue::U64(u64::MAX)), "18446744073709551615");
    assert_eq!(text(MetadataValue::I64(i64::MIN)), "-9223372036854775808");
    assert_eq!(text(MetadataValue::Bool(true)), "true");
    assert_eq!(text(MetadataValue::String("x".to_owned())), "x");
    assert_eq!(
        text(MetadataValue::Array(vec![MetadataValue::U8(1), MetadataValue::U8(2)])),
        "[2 items]"
    );
    assert_eq!(
        render_value(&MetadataValue::F32(1.5f32.to_bits())),
        RenderedValue::F32(1.5f32.to_bits())
    );
    assert_eq!(
        render_value(&MetadataValue::F64(2.5f64.to_bits())),
        RenderedValue::F64(2.5f64.to_bits())
    );
}

#[test]
fn metadata_reads_the_keys_of_its_own_architecture() {
    let bytes = Gguf::new()
        .u32(3)
        .u64(0)
        .u64(3)
        .text_entry("general.architecture", "qwen")
        .number_entry("llama.context_length", 1)
        .text_entry("tokenizer.chat_template", "{{ messages }}")
        .build();
    let header = parse(bytes.as_slice()).expect("parses");
    let metadata = ArtifactMetadata::from_header(&header);
    assert_eq!(metadata.architecture.as_deref(), Some("qwen"));
    assert_eq!(metadata.context_length, None);
    assert!(metadata.has_chat_template());
    assert_eq!(metadata.container_version, 3);
    assert_eq!(metadata.metadata_count, 3);
    assert!(!ArtifactMetadata::default().has_chat_template());
    assert_eq!(metadata_rows(&header).len(), 3);
}

// ----------------------------------------------------------------------- storage

#[test]
fn a_row_reads_back_as_the_artifact_it_was_made_of() {
    let header = parse(valid_container().as_slice()).expect("parses");
    let artifact = record(
        ArtifactId::from_stored("abc"),
        "/models/model.gguf",
        &header,
        ArtifactFingerprint::observe(77, Some(1_234_567_890_123)),
        42 * SECOND,
    );
    let row = artifact_to_row(&artifact);
    assert_eq!(row.mtime_at_registration, Some(1_234_567_890_123));
    assert_eq!(row.registered_at, 42);
    assert_eq!(row_to_artifact(row), artifact);
}

#[test]
fn a_registration_time_is_kept_to_the_second() {
    let header = parse(valid_container().as_slice()).expect("parses");
    let artifact = record(
        ArtifactId::from_stored("abc"),
        "/m",
        &header,
        ArtifactFingerprint::observe(1, None),
        42 * SECOND + 7,
    );
    assert_eq!(row_to_artifact(artifact_to_row(&artifact)).registered_at, 42 * SECOND);
}

#[test]
fn a_row_with_an_unknown_digest_is_unverified() {
    let header = parse(valid_container().as_slice()).expect("parses");
    let artifact = record(
        ArtifactId::from_stored("abc"),
        "/m",
        &header,
        ArtifactFingerprint::observe(1, None),
        0,
    );
    let row = || artifact_to_row(&artifact);
    let read = |state: &str, algorithm: Option<&str>, digest: Option<Vec<u8>>| {
        row_to_artifact(ArtifactRow {
            integrity_state: state.to_owned(),
            digest_algorithm: algorithm.map(str::to_owned),
            digest,
            ..row()
        })
        .integrity
    };
    let sha = DigestAlgorithm::Sha256.as_str();
    assert!(read("verified", Some(sha), Some(vec![1])).is_verified());
    assert!(!read("verified", Some("md5"), Some(vec![1])).is_verified());
    assert!(!read("verified", Some(sha), None).is_verified());
    assert!(!read("unverified", Some(sha), Some(vec![1])).is_verified());
}

#[test]
fn numbers_and_times_saturate_at_the_storage_boundary() {
    assert_eq!(to_signed(7), 7);
    assert_eq!(to_signed(u64::MAX), i64::MAX);
    assert_eq!(from_signed(7), 7);
    assert_eq!(from_signed(-7), 0);
    assert_eq!(to_epoch(1_999_999_999), 1);
    assert_eq!(to_epoch(-1), 0);
    assert_eq!(from_epoch(3), 3 * SECOND);
    assert_eq!(from_epoch(-3), 0);
    assert_eq!(to_epoch_nanos(5), 5);
    assert_eq!(to_epoch_nanos(i128::from(i64::MAX) + 1), i64::MAX);
    assert_eq!(from_epoch_nanos(5), 5);
    assert_eq!(from_epoch_nanos(-5), 0);
}

#[test]
fn contents_are_verified_by_their_digest() {
    let digest_of = |chunks: &[&[u8]]| {
        let mut contents = ContentDigest::new();
        for chunk in chunks {
            contents = contents.update(chunk).expect("within bounds");
        }
        match verify(contents) {
            ArtifactIntegrity::Verified { algorithm, digest } => {
                assert_eq!(algorithm, DigestAlgorithm::Sha256);
                digest.iter().map(|b| format!("{b:02x}")).collect::<String>()
            }
            ArtifactIntegrity::Unverified => panic!("verification must produce a digest"),
        }
    };
    assert_eq!(
        digest_of(&[]),
        "e3b0c44298fc1c149afbf4c8996fb92427ae41e4649b934ca495991b7852b855"
    );
    assert_eq!(
        digest_of(&[b"abc"]),
        "ba7816bf8f01cfea414140de5dae2223b00361a396177a9cb410ff61f20015ad"
    );
    assert_eq!(digest_of(&[b"a", b"", b"bc"]), digest_of(&[b"abc"]));
    assert_ne!(digest_of(&[b"abd"]), digest_of(&[b"abc"]));
}

#[test]
fn a_digest_reads_back_from_its_columns() {
    let integrity = verify(ContentDigest::new());
    let (state, algorithm, digest) = integrity_columns(&integrity);
    assert_eq!(state, "verified");
    assert_eq!(algorithm, Some(DigestAlgorithm::Sha256.as_str()));
    assert_eq!(digest.map(|d| d.len()), Some(32));
    assert_eq!(
        integrity_columns(&ArtifactIntegrity::Unverified),
        ("unverified", None, None)
    );
}
