//! The llama.cpp execution backend: its flags, endpoints and vocabulary, which
//! nothing outside this module knows.

pub mod channel;
pub mod compatibility;
pub mod embed;
pub mod execution;
pub mod generate;
pub mod health;
pub mod identity;
pub mod sse;
pub mod start;

use vstd::prelude::*;
use vstd::string::*;

use crate::backend::channel::{ip_text, BackendChannel, BackendIp, SECRET_BYTES};
use crate::backend::health::{
    health_fault_text, CredentialState, HealthError, Readiness, StartupPhase,
};
use crate::backend::identity::{
    banner_of, find_banner, identified, identity_text, parse_banner, BackendIdentity, Identity,
};
use crate::id::WorkerId;
use crate::text::{
    a_number_reads_back_from_its_decimal, all_space, decimal, decimal_u64, hex, hex_is_digits,
    is_blank, nothing_is_left_of_white_space, put_between, reads_as, same_words, texts,
    trimmed, words_stay,
};
use crate::worker::log::DEFAULT_CAPTURE_LINES;
use crate::worker::process::{ProbeOutcome, StartupEvent, WorkerHandle};
use crate::worker::{
    worker_fault_text, Deadlines, StopProtocol, WorkerError, WorkerExit, WorkerFault, WorkerReady,
    WorkerSpec,
};

verus! {

/// Environment variable naming the backend executable.
pub const EXECUTABLE_ENV: &'static str = "MEHOY_LLAMA_SERVER";

/// How many layers to place on an accelerator.
#[derive(Debug, Clone, Copy, PartialEq, Eq, Structural)]
pub enum GpuLayerPolicy {
    /// Run entirely on the processor.
    CpuOnly,
    /// Place a specific number of layers on the accelerator.
    Layers(u32),
}

/// What to start a llama.cpp worker with.
#[derive(Debug, Clone, PartialEq, Eq)]
pub struct LlamaCppWorkerSpec {
    pub model_path: String,
    pub context_size: Option<u32>,
    pub gpu_layers: Option<GpuLayerPolicy>,
    pub deadlines: Deadlines,
}

impl LlamaCppWorkerSpec {
    /// A specification for a model with default settings.
    pub fn new(model_path: &str) -> (spec: Self)
        ensures
            spec.model_path@ == model_path@,
            spec.context_size is None,
            spec.gpu_layers is None,
            spec.deadlines == (Deadlines {
                startup: 30_000_000_000,
                shutdown: 10_000_000_000,
                health: 5_000_000_000,
            }),
    {
        LlamaCppWorkerSpec {
            model_path: model_path.to_owned(),
            context_size: None,
            gpu_layers: None,
            deadlines: Deadlines::default(),
        }
    }
}

/// The file through which a backend is given its credential.
#[derive(Debug, PartialEq, Eq)]
pub struct SecretFile {
    path: String,
}

impl View for SecretFile {
    type V = Seq<char>;

    closed spec fn view(&self) -> Seq<char> {
        self.path@
    }
}

impl SecretFile {
    /// The file at a path.
    pub fn at(path: &str) -> (file: Self)
        ensures
            file@ == path@,
    {
        SecretFile { path: path.to_owned() }
    }

    pub fn path(&self) -> (path: &str)
        ensures
            path@ == self@,
    {
        self.path.as_str()
    }
}

/// Why a backend could not be used.
#[derive(Debug)]
pub enum BackendError {
    /// No backend executable is configured or the configured one is absent.
    Unavailable { reason: String },
    /// The backend executable could not be interrogated for its identity.
    Unidentifiable { executable: String, reason: String },
    /// A private channel for the backend could not be established.
    Channel(String),
    /// The backend rejected the secret it was given.
    Rejected { detail: String },
    /// Supervision reported a failure.
    Worker(Box<WorkerFailure>),
}

/// A supervision failure together with the evidence needed to act on it: what the
/// backend printed, and which build it was.
#[derive(Debug)]
pub struct WorkerFailure {
    pub source: WorkerError,
    pub identity: Option<BackendIdentity>,
    pub output: String,
}

/// What a [`BackendError`] says.
pub enum BackendFault {
    Unavailable { reason: Seq<char> },
    Unidentifiable { executable: Seq<char>, reason: Seq<char> },
    Channel(Seq<char>),
    Rejected { detail: Seq<char> },
    Worker { source: WorkerFault, identity: Option<Identity>, output: Seq<char> },
}

pub open spec fn opt_identity(identity: Option<BackendIdentity>) -> Option<Identity> {
    match identity {
        Some(i) => Some(i@),
        None => None,
    }
}

/// A fault in words. A supervision failure names the build, and shows the output
/// unless it is blank.
pub open spec fn backend_fault_text(fault: BackendFault) -> Seq<char> {
    match fault {
        BackendFault::Unavailable { reason } => "no llama.cpp backend available: "@ + reason,
        BackendFault::Unidentifiable { executable, reason } =>
            "cannot identify llama.cpp backend "@ + executable + ": "@ + reason,
        BackendFault::Channel(reason) => "cannot establish a private backend channel: "@ + reason,
        BackendFault::Rejected { detail } => "backend rejected its own credentials: "@ + detail,
        BackendFault::Worker { source, identity, output } => worker_fault_text(source) + (
        match identity {
            Some(i) => "\nbackend: "@ + identity_text(i),
            None => Seq::empty(),
        }) + (if trimmed(output).len() > 0 {
            "\nbackend output:\n"@ + output
        } else {
            Seq::empty()
        }),
    }
}

impl BackendError {
    pub open spec fn view(&self) -> BackendFault {
        match self {
            BackendError::Unavailable { reason } => BackendFault::Unavailable { reason: reason@ },
            BackendError::Unidentifiable { executable, reason } => BackendFault::Unidentifiable {
                executable: executable@,
                reason: reason@,
            },
            BackendError::Channel(reason) => BackendFault::Channel(reason@),
            BackendError::Rejected { detail } => BackendFault::Rejected { detail: detail@ },
            BackendError::Worker(failure) => BackendFault::Worker {
                source: failure.source@,
                identity: opt_identity(failure.identity),
                output: failure.output@,
            },
        }
    }

    /// A supervision failure, with which build it was and what it printed.
    pub fn worker(source: WorkerError, identity: Option<BackendIdentity>, output: String) -> (error:
        Self)
        ensures
            error@ == (BackendFault::Worker {
                source: source@,
                identity: opt_identity(identity),
                output: output@,
            }),
    {
        BackendError::Worker(Box::new(WorkerFailure { source, identity, output }))
    }

    pub fn to_string(&self) -> (text: String)
        ensures
            text@ == backend_fault_text(self@),
    {
        match self {
            BackendError::Unavailable { reason } => {
                let mut text = "no llama.cpp backend available: ".to_owned();
                text.append(reason.as_str());
                text
            },
            BackendError::Unidentifiable { executable, reason } => {
                let mut text = "cannot identify llama.cpp backend ".to_owned();
                text.append(executable.as_str());
                text.append(": ");
                text.append(reason.as_str());
                text
            },
            BackendError::Channel(reason) => {
                let mut text = "cannot establish a private backend channel: ".to_owned();
                text.append(reason.as_str());
                text
            },
            BackendError::Rejected { detail } => {
                let mut text = "backend rejected its own credentials: ".to_owned();
                text.append(detail.as_str());
                text
            },
            BackendError::Worker(failure) => {
                let mut text = failure.source.to_string();
                let ghost head = text@;
                match &failure.identity {
                    Some(identity) => {
                        text.append("\nbackend: ");
                        text.append(identity.to_string().as_str());
                    },
                    None => {},
                }
                let ghost named = match opt_identity(failure.identity) {
                    Some(i) => "\nbackend: "@ + identity_text(i),
                    None => Seq::empty(),
                };
                assert(text@ =~= head + named);
                if !is_blank(failure.output.as_str()) {
                    text.append("\nbackend output:\n");
                    text.append(failure.output.as_str());
                }
                assert(text@ =~= backend_fault_text(self@));
                text
            },
        }
    }
}

/// A configured llama.cpp backend.
#[derive(Debug, Clone, PartialEq, Eq)]
pub struct LlamaCppBackend {
    executable: String,
}

impl View for LlamaCppBackend {
    type V = Seq<char>;

    closed spec fn view(&self) -> Seq<char> {
        self.executable@
    }
}

/// The flags that place layers on an accelerator.
pub open spec fn layer_args(policy: Option<GpuLayerPolicy>) -> Seq<Seq<char>> {
    match policy {
        Some(GpuLayerPolicy::CpuOnly) => seq!["--n-gpu-layers"@, "0"@],
        Some(GpuLayerPolicy::Layers(count)) => seq!["--n-gpu-layers"@, decimal(count as nat)],
        None => Seq::empty(),
    }
}

/// The flags that set the context size.
pub open spec fn context_args(context_size: Option<u32>) -> Seq<Seq<char>> {
    match context_size {
        Some(context) => seq!["--ctx-size"@, decimal(context as nat)],
        None => Seq::empty(),
    }
}

/// The command line of a worker. It speaks of where the credential is and never of
/// the credential: process arguments are readable by other local accounts.
pub open spec fn worker_args(
    model_path: Seq<char>,
    host: Seq<char>,
    port: u16,
    secret_path: Seq<char>,
    context_size: Option<u32>,
    gpu_layers: Option<GpuLayerPolicy>,
) -> Seq<Seq<char>> {
    seq![
        "--model"@,
        model_path,
        "--host"@,
        host,
        "--port"@,
        decimal(port as nat),
        "--api-key-file"@,
        secret_path,
        "--no-webui"@,
    ] + context_args(context_size) + layer_args(gpu_layers)
}

/// Whether a flag stands among arguments with a value behind it.
pub open spec fn passes(args: Seq<Seq<char>>, flag: Seq<char>, value: Seq<char>) -> bool {
    exists|i: int|
        0 <= i < args.len() - 1 && #[trigger] args[i] == flag && args[i + 1] == value
}

/// Whether a flag stands among arguments with a number behind it.
pub open spec fn passes_number(args: Seq<Seq<char>>, flag: Seq<char>, n: int) -> bool {
    exists|i: int|
        0 <= i < args.len() - 1 && #[trigger] args[i] == flag && reads_as(args[i + 1], n)
}

/// A worker is told the model, where to listen, where its credential is, and the context
/// size and the layers exactly as far as they were asked for; it is told nothing else
/// but to serve no page.
pub proof fn a_worker_is_told_what_was_asked_for(
    model_path: Seq<char>,
    host: Seq<char>,
    port: u16,
    secret_path: Seq<char>,
    context_size: Option<u32>,
    gpu_layers: Option<GpuLayerPolicy>,
)
    ensures
        ({
            let args = worker_args(
                model_path,
                host,
                port,
                secret_path,
                context_size,
                gpu_layers,
            );
            &&& passes(args, "--model"@, model_path)
            &&& passes(args, "--host"@, host)
            &&& passes_number(args, "--port"@, port as int)
            &&& passes(args, "--api-key-file"@, secret_path)
            &&& args.contains("--no-webui"@)
            &&& context_size matches Some(n) ==> passes_number(args, "--ctx-size"@, n as int)
            &&& gpu_layers == Some(GpuLayerPolicy::CpuOnly) ==> passes_number(
                args,
                "--n-gpu-layers"@,
                0,
            )
            &&& gpu_layers matches Some(GpuLayerPolicy::Layers(n)) ==> passes_number(
                args,
                "--n-gpu-layers"@,
                n as int,
            )
            &&& args.len() == 9 + (if context_size is Some {
                2int
            } else {
                0
            }) + (if gpu_layers is Some {
                2int
            } else {
                0
            })
        }),
{
    let args = worker_args(model_path, host, port, secret_path, context_size, gpu_layers);
    a_number_reads_back_from_its_decimal(port as nat);
    assert(args[0] == "--model"@ && args[1] == model_path);
    assert(args[2] == "--host"@ && args[3] == host);
    assert(args[4] == "--port"@ && args[5] == decimal(port as nat));
    assert(args[6] == "--api-key-file"@ && args[7] == secret_path);
    assert(args[8] == "--no-webui"@);
    if let Some(n) = context_size {
        a_number_reads_back_from_its_decimal(n as nat);
        assert(args[9] == "--ctx-size"@ && args[10] == decimal(n as nat));
    }
    let at: int = if context_size is Some {
        11
    } else {
        9
    };
    match gpu_layers {
        Some(GpuLayerPolicy::CpuOnly) => {
            reveal_strlit("0");
            a_number_reads_back_from_its_decimal(0);
            assert("0"@ =~= decimal(0));
            assert(args[at] == "--n-gpu-layers"@ && args[at + 1] == "0"@);
        },
        Some(GpuLayerPolicy::Layers(n)) => {
            a_number_reads_back_from_its_decimal(n as nat);
            assert(args[at] == "--n-gpu-layers"@ && args[at + 1] == decimal(n as nat));
        },
        None => {},
    }
}

/// A number of 32 bits has at most ten digits.
proof fn decimal_is_short(n: nat)
    requires
        n <= u32::MAX,
    ensures
        decimal(n).len() <= 10,
{
    reveal_with_fuel(decimal, 11);
}

/// The credential is no argument of the worker, unless the model or the credential
/// file is named exactly like it: other local accounts learn where it is, and not
/// what it is.
pub proof fn the_credential_is_no_argument(
    entropy: Seq<u8>,
    model_path: Seq<char>,
    ip: BackendIp,
    port: u16,
    secret_path: Seq<char>,
    context_size: Option<u32>,
    gpu_layers: Option<GpuLayerPolicy>,
)
    requires
        entropy.len() == SECRET_BYTES,
        model_path != hex(entropy),
        secret_path != hex(entropy),
        ip matches BackendIp::V6 { text, .. } ==> text@ != hex(entropy),
    ensures
        !worker_args(
            model_path,
            ip_text(ip),
            port,
            secret_path,
            context_size,
            gpu_layers,
        ).contains(hex(entropy)),
{
    hex_is_digits(entropy);
    reveal_strlit("--model");
    reveal_strlit("--host");
    reveal_strlit("--port");
    reveal_strlit("--api-key-file");
    reveal_strlit("--no-webui");
    reveal_strlit("--ctx-size");
    reveal_strlit("--n-gpu-layers");
    reveal_strlit(".");
    reveal_strlit("0");
    decimal_is_short(port as nat);
    if let Some(context) = context_size {
        decimal_is_short(context as nat);
    }
    if let Some(GpuLayerPolicy::Layers(count)) = gpu_layers {
        decimal_is_short(count as nat);
    }
    if let BackendIp::V4(octets) = ip {
        decimal_is_short(octets@[0] as nat);
        decimal_is_short(octets@[1] as nat);
        decimal_is_short(octets@[2] as nat);
        decimal_is_short(octets@[3] as nat);
        assert(ip_text(ip).len() < 64);
    }
}

impl LlamaCppBackend {
    /// Uses a specific executable. `is_file` is whether the path names an existing
    /// file.
    pub fn new(executable: &str, is_file: bool) -> (result: Result<Self, BackendError>)
        ensures
            match result {
                Ok(backend) => is_file && backend@ == executable@,
                Err(error) => !is_file && error@ == (BackendFault::Unavailable {
                    reason: executable@ + " is not an existing file"@,
                }),
            },
    {
        if !is_file {
            let mut reason = executable.to_owned();
            reason.append(" is not an existing file");
            return Err(BackendError::Unavailable { reason });
        }
        Ok(LlamaCppBackend { executable: executable.to_owned() })
    }

    /// Uses the executable named by [`EXECUTABLE_ENV`]. `configured` is the value of
    /// the variable, and `is_file` whether it names an existing file.
    ///
    /// Resolution is explicit rather than a search: upstream behaviour differs
    /// enough between builds that the exact executable matters.
    pub fn from_env(configured: Option<&str>, is_file: bool) -> (result: Result<
        Self,
        BackendError,
    >)
        ensures
            match configured {
                None => result matches Err(error) && error@ == (BackendFault::Unavailable {
                    reason: "MEHOY_LLAMA_SERVER is not set"@,
                }),
                Some(path) => if path@.len() == 0 {
                    result matches Err(error) && error@ == (BackendFault::Unavailable {
                        reason: "MEHOY_LLAMA_SERVER is empty"@,
                    })
                } else {
                    match result {
                        Ok(backend) => is_file && backend@ == path@,
                        Err(error) => !is_file && error@ == (BackendFault::Unavailable {
                            reason: path@ + " is not an existing file"@,
                        }),
                    }
                },
            },
    {
        match configured {
            None => Err(
                BackendError::Unavailable { reason: "MEHOY_LLAMA_SERVER is not set".to_owned() },
            ),
            Some(path) => {
                if path.is_empty() {
                    return Err(
                        BackendError::Unavailable {
                            reason: "MEHOY_LLAMA_SERVER is empty".to_owned(),
                        },
                    );
                }
                LlamaCppBackend::new(path, is_file)
            },
        }
    }

    /// The executable in use.
    pub fn executable(&self) -> (path: &str)
        ensures
            path@ == self@,
    {
        self.executable.as_str()
    }

    /// The build identity, from what the executable printed to standard error and
    /// standard output when asked for its version, or why it could not be run.
    pub fn identify(&self, printed: Result<(Vec<u8>, Vec<u8>), String>) -> (result: Result<
        BackendIdentity,
        BackendError,
    >)
        ensures
            match printed {
                Ok((stderr, stdout)) => result matches Ok(identity) && identity@ == identified(
                    self@,
                    banner_of(stderr@, stdout@),
                ),
                Err(reason) => result matches Err(error) && error@
                    == (BackendFault::Unidentifiable { executable: self@, reason: reason@ }),
            },
    {
        match printed {
            Err(reason) => Err(
                BackendError::Unidentifiable { executable: self.executable.clone(), reason },
            ),
            Ok((stderr, stdout)) => {
                let banner = find_banner(stderr.as_slice(), stdout.as_slice());
                Ok(parse_banner(self.executable.as_str(), banner.as_str()))
            },
        }
    }

    /// Builds the command line for a worker.
    pub fn command_line(
        &self,
        spec: &LlamaCppWorkerSpec,
        channel: &BackendChannel,
        secret_file: &SecretFile,
    ) -> (args: Vec<String>)
        ensures
            texts(args@) == worker_args(
                spec.model_path@,
                ip_text(channel.address_view().ip),
                channel.address_view().port,
                secret_file@,
                spec.context_size,
                spec.gpu_layers,
            ),
    {
        let mut args: Vec<String> = Vec::new();
        args.push("--model".to_owned());
        args.push(spec.model_path.clone());
        args.push("--host".to_owned());
        args.push(channel.host());
        args.push("--port".to_owned());
        args.push(decimal_u64(channel.port() as u64));
        args.push("--api-key-file".to_owned());
        args.push(secret_file.path().to_owned());
        args.push("--no-webui".to_owned());
        if let Some(context) = spec.context_size {
            args.push("--ctx-size".to_owned());
            args.push(decimal_u64(context as u64));
        }
        match spec.gpu_layers {
            Some(GpuLayerPolicy::CpuOnly) => {
                args.push("--n-gpu-layers".to_owned());
                args.push("0".to_owned());
            },
            Some(GpuLayerPolicy::Layers(count)) => {
                args.push("--n-gpu-layers".to_owned());
                args.push(decimal_u64(count as u64));
            },
            None => {},
        }
        proof {
            let expected = worker_args(
                spec.model_path@,
                ip_text(channel.address_view().ip),
                channel.address_view().port,
                secret_file@,
                spec.context_size,
                spec.gpu_layers,
            );
            assert(texts(args@) =~= expected);
        }
        args
    }

    /// How the worker of a backend is started.
    ///
    /// The engine implements no graceful stop, so termination is the defined way to
    /// stop it.
    pub fn worker_spec(
        &self,
        id: WorkerId,
        spec: &LlamaCppWorkerSpec,
        channel: &BackendChannel,
        secret_file: &SecretFile,
    ) -> (worker: WorkerSpec)
        ensures
            worker.id == id,
            worker.program@ == self@,
            texts(worker.args@) == worker_args(
                spec.model_path@,
                ip_text(channel.address_view().ip),
                channel.address_view().port,
                secret_file@,
                spec.context_size,
                spec.gpu_layers,
            ),
            worker.deadlines == spec.deadlines,
            worker.capture_lines == DEFAULT_CAPTURE_LINES,
            worker.stop == StopProtocol::Terminate,
    {
        WorkerSpec {
            id,
            program: self.executable.clone(),
            args: self.command_line(spec, channel, secret_file),
            deadlines: spec.deadlines,
            capture_lines: DEFAULT_CAPTURE_LINES,
            stop: StopProtocol::Terminate,
        }
    }
}

/// What a health probe says about a worker that is starting.
pub fn startup_event(phase: Result<StartupPhase, HealthError>) -> (event: StartupEvent)
    ensures
        match phase {
            Ok(phase) => if phase == StartupPhase::BackendReady {
                event matches StartupEvent::Probed(ProbeOutcome::Ready(ready))
                    && ready.announcement@ == "backend ready"@
            } else {
                event == StartupEvent::Probed(ProbeOutcome::NotYet)
            },
            Err(error) => event matches StartupEvent::ProbeFailed(failure) && failure@
                == WorkerFault::Io(health_fault_text(error@)),
        },
{
    match phase {
        Ok(StartupPhase::BackendReady) => StartupEvent::Probed(
            ProbeOutcome::Ready(
                WorkerReady { announcement: StartupPhase::BackendReady.to_string() },
            ),
        ),
        Ok(_) => StartupEvent::Probed(ProbeOutcome::NotYet),
        Err(error) => StartupEvent::ProbeFailed(WorkerError::Io(error.to_string())),
    }
}

/// What is said of a backend that refuses the runtime's own credential.
pub open spec fn refused_credential(status: u16) -> Seq<char> {
    "the backend refused the runtime's own credential with status                                  "@
        + decimal(status as nat) + "; it is serving but unusable"@
}

/// Whether a backend that is serving may be used: only one that accepted the
/// runtime's credential. Any other is to be stopped, for the reason given.
pub fn check_credential(probed: Result<CredentialState, HealthError>) -> (verdict: Result<
    Readiness,
    BackendError,
>)
    ensures
        match probed {
            Ok(CredentialState::Accepted) => verdict == Ok::<Readiness, BackendError>(
                Readiness::BackendReady,
            ),
            Ok(CredentialState::Refused { status }) => verdict matches Err(error) && error@
                == (BackendFault::Rejected { detail: refused_credential(status) }),
            Err(reason) => verdict matches Err(error) && error@ == (BackendFault::Rejected {
                detail: "cannot confirm the backend accepts its credential: "@
                    + health_fault_text(reason@),
            }),
        },
{
    match probed {
        Ok(CredentialState::Accepted) => Ok(Readiness::BackendReady),
        Ok(CredentialState::Refused { status }) => {
            let mut detail =
                "the backend refused the runtime's own credential with status                                  ".to_owned();
            detail.append(decimal_u64(status as u64).as_str());
            detail.append("; it is serving but unusable");
            Err(BackendError::Rejected { detail })
        },
        Err(reason) => {
            let mut detail = "cannot confirm the backend accepts its credential: ".to_owned();
            detail.append(reason.to_string().as_str());
            Err(BackendError::Rejected { detail })
        },
    }
}

/// A started backend.
pub struct RunningBackend {
    handle: WorkerHandle,
    channel: BackendChannel,
    identity: Option<BackendIdentity>,
    readiness: Readiness,
}

impl RunningBackend {
    pub closed spec fn handle_view(&self) -> WorkerHandle {
        self.handle
    }

    pub closed spec fn channel_view(&self) -> BackendChannel {
        self.channel
    }

    pub closed spec fn identity_view(&self) -> Option<BackendIdentity> {
        self.identity
    }

    pub closed spec fn readiness_view(&self) -> Readiness {
        self.readiness
    }

    /// A backend that reported a serving state and accepted its credential, of which
    /// nothing stronger is known.
    pub fn new(
        handle: WorkerHandle,
        channel: BackendChannel,
        identity: Option<BackendIdentity>,
        readiness: Readiness,
    ) -> (running: Self)
        ensures
            running.handle_view() == handle,
            running.channel_view() == channel,
            running.identity_view() == identity,
            running.readiness_view() == readiness,
    {
        RunningBackend { handle, channel, identity, readiness }
    }

    /// The supervised worker, for lifecycle operations.
    pub fn handle(&self) -> (handle: &WorkerHandle)
        ensures
            *handle == self.handle_view(),
    {
        &self.handle
    }

    /// Mutable access to the supervised worker.
    pub fn handle_mut(&mut self) -> (handle: &mut WorkerHandle)
        ensures
            *handle == old(self).handle_view(),
            final(self).handle_view() == *final(handle),
            final(self).channel_view() == old(self).channel_view(),
            final(self).identity_view() == old(self).identity_view(),
            final(self).readiness_view() == old(self).readiness_view(),
    {
        &mut self.handle
    }

    /// The private channel to this backend. Never given to a client.
    pub fn channel(&self) -> (channel: &BackendChannel)
        ensures
            *channel == self.channel_view(),
    {
        &self.channel
    }

    /// What is known about the backend build.
    pub fn identity(&self) -> (identity: Option<&BackendIdentity>)
        ensures
            match self.identity_view() {
                Some(known) => identity == Some(&known),
                None => identity is None,
            },
    {
        match &self.identity {
            Some(identity) => Some(identity),
            None => None,
        }
    }

    /// What has actually been established.
    pub fn readiness(&self) -> (readiness: Readiness)
        ensures
            readiness == self.readiness_view(),
    {
        self.readiness
    }

    /// The outcome of stopping the backend: how its worker ended, with what it
    /// printed as evidence of a failure.
    pub fn stop(&self, exit: Result<WorkerExit, WorkerError>, output: String) -> (result: Result<
        (),
        BackendError,
    >)
        ensures
            match exit {
                Ok(_) => result is Ok,
                Err(source) => result matches Err(error) && error@ == (BackendFault::Worker {
                    source: source@,
                    identity: opt_identity(self.identity_view()),
                    output: output@,
                }),
            },
    {
        match exit {
            Ok(_) => Ok(()),
            Err(source) => {
                let identity = match &self.identity {
                    Some(identity) => Some(identity.copy()),
                    None => None,
                };
                Err(BackendError::worker(source, identity, output))
            },
        }
    }
}

/// A fault tells what it is about, whole and in words that do not depend on it. One of a
/// worker is told as the worker tells it, with the backend and the output behind it where
/// there is anything of them to show.
pub proof fn a_backend_fault_tells_what_it_is_about(
    detail: Seq<char>,
    executable: Seq<char>,
    other: Seq<char>,
    source: WorkerFault,
    identity: Option<Identity>,
    known: Identity,
    output: Seq<char>,
)
    ensures
        backend_fault_text(BackendFault::Unavailable { reason: detail }) == backend_fault_text(
            BackendFault::Unavailable { reason: Seq::empty() },
        ) + detail,
        backend_fault_text(BackendFault::Channel(detail)) == backend_fault_text(
            BackendFault::Channel(Seq::empty()),
        ) + detail,
        backend_fault_text(BackendFault::Rejected { detail }) == backend_fault_text(
            BackendFault::Rejected { detail: Seq::empty() },
        ) + detail,
        backend_fault_text(BackendFault::Unidentifiable { executable, reason: detail })
            == backend_fault_text(
            BackendFault::Unidentifiable { executable, reason: Seq::empty() },
        ) + detail,
        same_words(
            backend_fault_text(BackendFault::Unidentifiable { executable, reason: detail }),
            executable,
            backend_fault_text(BackendFault::Unidentifiable { executable: other, reason: detail }),
            other,
        ),
        all_space(output) ==> backend_fault_text(BackendFault::Worker { source, identity, output })
            == backend_fault_text(
            BackendFault::Worker { source, identity, output: Seq::empty() },
        ),
        !all_space(output) ==> exists|between: Seq<char>|
            backend_fault_text(BackendFault::Worker { source, identity, output })
                == #[trigger] put_between(
                backend_fault_text(
                    BackendFault::Worker { source, identity, output: Seq::empty() },
                ),
                between,
                output,
            ),
        backend_fault_text(
            BackendFault::Worker { source, identity: None, output: Seq::empty() },
        ) == worker_fault_text(source),
        exists|between: Seq<char>|
            backend_fault_text(
                BackendFault::Worker { source, identity: Some(known), output: Seq::empty() },
            ) == #[trigger] put_between(worker_fault_text(source), between, identity_text(known)),
{
    let none = Seq::<char>::empty();
    let lead = "cannot identify llama.cpp backend "@;
    let behind = ": "@ + detail;
    let text = backend_fault_text(BackendFault::Unidentifiable { executable, reason: detail });
    let second = backend_fault_text(
        BackendFault::Unidentifiable { executable: other, reason: detail },
    );
    assert(text =~= lead + executable + behind);
    assert(second =~= lead + other + behind);
    words_stay(lead, executable, other, behind, text, second);
    nothing_is_left_of_white_space(output);
    nothing_is_left_of_white_space(none);
    let bare = backend_fault_text(BackendFault::Worker { source, identity, output: none });
    let whole = backend_fault_text(BackendFault::Worker { source, identity, output });
    if all_space(output) {
        assert(whole =~= bare);
    } else {
        assert(whole =~= put_between(bare, "\nbackend output:\n"@, output));
    }
    assert(backend_fault_text(
        BackendFault::Worker { source, identity: None, output: none },
    ) =~= worker_fault_text(source));
    assert(backend_fault_text(
        BackendFault::Worker { source, identity: Some(known), output: none },
    ) =~= put_between(worker_fault_text(source), "\nbackend: "@, identity_text(known)));
}

/// A refused credential is told by the status it was refused with.
pub proof fn a_refusal_tells_its_status(status: u16, other: u16)
    ensures
        same_words(
            refused_credential(status),
            decimal(status as nat),
            refused_credential(other),
            decimal(other as nat),
        ),
{
    words_stay(
        "the backend refused the runtime's own credential with status                                  "@,
        decimal(status as nat),
        decimal(other as nat),
        "; it is serving but unusable"@,
        refused_credential(status),
        refused_credential(other),
    );
}

} // verus!
