//! Starting a backend.
//!
//! A start identifies the executable, reserves a private channel, writes the
//! credential to a file, spawns a worker, waits until the backend reports a serving
//! state and then checks that it accepts the credential. Each stage is a type that
//! only the stage before it can give, so a backend is never reported as running
//! without a channel confined to loopback and a credential that was accepted.

use vstd::prelude::*;
use vstd::string::*;

use crate::backend::channel::{BackendChannel, BackendIp, SECRET_BYTES};
use crate::backend::health::{health_fault_text, CredentialState, HealthError, Readiness};
use crate::backend::identity::{banner_of, identified, BackendIdentity, Identity};
use crate::backend::{
    check_credential, opt_identity, BackendError, BackendFault, LlamaCppBackend,
    LlamaCppWorkerSpec, RunningBackend, SecretFile,
};
use crate::id::WorkerId;
use crate::text::hex;
use crate::worker::process::WorkerHandle;
use crate::worker::{WorkerError, WorkerReady, WorkerSpec};

verus! {

/// A start whose executable was asked who it is. One that could not say is started
/// all the same.
pub struct Identified {
    identity: Option<BackendIdentity>,
}

impl View for Identified {
    type V = Option<Identity>;

    closed spec fn view(&self) -> Option<Identity> {
        opt_identity(self.identity)
    }
}

/// A start with a private channel.
pub struct Channelled {
    identity: Option<BackendIdentity>,
    channel: BackendChannel,
}

impl Channelled {
    pub closed spec fn identity_view(&self) -> Option<Identity> {
        opt_identity(self.identity)
    }

    pub closed spec fn channel_view(&self) -> BackendChannel {
        self.channel
    }
}

/// A start whose worker was spawned and is to become ready.
pub struct Launched {
    identity: Option<BackendIdentity>,
    channel: BackendChannel,
    handle: WorkerHandle,
}

impl Launched {
    pub closed spec fn identity_view(&self) -> Option<Identity> {
        opt_identity(self.identity)
    }

    pub closed spec fn channel_view(&self) -> BackendChannel {
        self.channel
    }

    pub closed spec fn handle_view(&self) -> WorkerHandle {
        self.handle
    }
}

impl LlamaCppBackend {
    /// Begins a start, with what the executable printed when asked for its version.
    pub fn start(&self, printed: Result<(Vec<u8>, Vec<u8>), String>) -> (start: Identified)
        ensures
            start@ == match printed {
                Ok((stderr, stdout)) => Some(identified(self@, banner_of(stderr@, stdout@))),
                Err(_) => None,
            },
    {
        match self.identify(printed) {
            Ok(identity) => Identified { identity: Some(identity) },
            Err(_) => Identified { identity: None },
        }
    }
}

impl Identified {
    /// Goes on with the loopback port that was reserved, or why none could be.
    pub fn reserved(self, port: Result<u16, String>) -> (result: Result<Channelled, BackendError>)
        ensures
            match port {
                Err(reason) => result matches Err(error) && error@ == BackendFault::Channel(
                    reason@,
                ),
                Ok(port) => match result {
                    Ok(next) => {
                        &&& next.identity_view() == self@
                        &&& next.channel_view().address_view().port == port
                        &&& next.channel_view().address_view().ip matches BackendIp::V4(octets)
                            && octets@ == seq![127u8, 0, 0, 1]
                        &&& exists|entropy: Seq<u8>|
                            entropy.len() == SECRET_BYTES && next.channel_view().secret_view()
                                == #[trigger] hex(entropy)
                    },
                    Err(error) => exists|cause: Seq<char>|
                        error@ == BackendFault::Channel(
                            #[trigger] ("system randomness unavailable: "@ + cause),
                        ),
                },
            },
    {
        match port {
            Err(reason) => Err(BackendError::Channel(reason)),
            Ok(port) => match BackendChannel::reserve(port) {
                Ok(channel) => Ok(Channelled { identity: self.identity, channel }),
                Err(reason) => Err(BackendError::Channel(reason)),
            },
        }
    }
}

impl Channelled {
    /// The channel, whose secret is to be written to a file.
    pub fn channel(&self) -> (channel: &BackendChannel)
        ensures
            *channel == self.channel_view(),
    {
        &self.channel
    }

    /// Goes on with the credential file that was created, or why it could not be:
    /// gives the worker to spawn.
    pub fn launch(
        &self,
        backend: &LlamaCppBackend,
        id: WorkerId,
        spec: &LlamaCppWorkerSpec,
        file: Result<SecretFile, String>,
    ) -> (result: Result<WorkerSpec, BackendError>)
        ensures
            match file {
                Err(reason) => result matches Err(error) && error@ == BackendFault::Channel(
                    reason@,
                ),
                Ok(file) => result matches Ok(worker) && worker.id == id && worker.program@
                    == backend@ && crate::text::texts(worker.args@) == crate::backend::worker_args(
                    spec.model_path@,
                    crate::backend::channel::ip_text(self.channel_view().address_view().ip),
                    self.channel_view().address_view().port,
                    file@,
                    spec.context_size,
                    spec.gpu_layers,
                ) && worker.deadlines == spec.deadlines && worker.stop
                    == crate::worker::StopProtocol::Terminate && worker.capture_lines
                    == crate::worker::log::DEFAULT_CAPTURE_LINES,
            },
    {
        match file {
            Err(reason) => Err(BackendError::Channel(reason)),
            Ok(file) => Ok(backend.worker_spec(id, spec, &self.channel, &file)),
        }
    }

    /// Goes on with the worker that was spawned, or why it could not be.
    pub fn spawned(self, spawned: Result<WorkerHandle, WorkerError>) -> (result: Result<
        Launched,
        BackendError,
    >)
        ensures
            match spawned {
                Ok(handle) => result matches Ok(next) && next.identity_view()
                    == self.identity_view() && next.channel_view() == self.channel_view()
                    && next.handle_view() == handle,
                Err(source) => result matches Err(error) && error@ == (BackendFault::Worker {
                    source: source@,
                    identity: self.identity_view(),
                    output: Seq::empty(),
                }),
            },
    {
        match spawned {
            Ok(handle) => Ok(
                Launched { identity: self.identity, channel: self.channel, handle },
            ),
            Err(source) => Err(BackendError::worker(source, self.identity, String::new())),
        }
    }
}

/// A backend that reported a serving state. The health path does not require the
/// credential, so nothing is known of that yet.
pub struct Serving {
    launched: Launched,
}

impl View for Serving {
    type V = Launched;

    closed spec fn view(&self) -> Launched {
        self.launched
    }
}

/// A backend that is serving and cannot be used: its worker is to be stopped, and
/// the error reported.
pub struct Unusable {
    pub handle: WorkerHandle,
    pub error: BackendError,
}

impl Launched {
    /// The worker that is to become ready.
    pub fn handle_mut(&mut self) -> (handle: &mut WorkerHandle)
        ensures
            *handle == old(self).handle_view(),
            final(self).handle_view() == *final(handle),
            final(self).channel_view() == old(self).channel_view(),
            final(self).identity_view() == old(self).identity_view(),
    {
        &mut self.handle
    }

    /// The channel to probe.
    pub fn channel(&self) -> (channel: &BackendChannel)
        ensures
            *channel == self.channel_view(),
    {
        &self.channel
    }

    /// Goes on with what came of waiting for readiness. A failure comes with what
    /// the backend printed, since that is almost always where the reason is.
    pub fn ready(self, ready: Result<WorkerReady, WorkerError>, output: String) -> (result: Result<
        Serving,
        BackendError,
    >)
        ensures
            match ready {
                Ok(_) => result matches Ok(next) && next@ == self,
                Err(source) => result matches Err(error) && error@ == (BackendFault::Worker {
                    source: source@,
                    identity: self.identity_view(),
                    output: output@,
                }),
            },
    {
        match ready {
            Ok(_) => Ok(Serving { launched: self }),
            Err(source) => Err(BackendError::worker(source, self.identity, output)),
        }
    }
}

impl Serving {
    /// The channel to check the credential over.
    pub fn channel(&self) -> (channel: &BackendChannel)
        ensures
            *channel == self@.channel_view(),
    {
        &self.launched.channel
    }

    /// Ends the start with what came of checking the credential.
    pub fn credential(self, probed: Result<CredentialState, HealthError>) -> (result: Result<
        RunningBackend,
        Unusable,
    >)
        ensures
            match result {
                Ok(running) => {
                    &&& probed == Ok::<CredentialState, HealthError>(CredentialState::Accepted)
                    &&& running.readiness_view() == Readiness::BackendReady
                    &&& running.handle_view() == self@.handle_view()
                    &&& running.channel_view() == self@.channel_view()
                    &&& opt_identity(running.identity_view()) == self@.identity_view()
                },
                Err(unusable) => {
                    &&& probed != Ok::<CredentialState, HealthError>(CredentialState::Accepted)
                    &&& unusable.handle == self@.handle_view()
                    &&& unusable.error@ is Rejected
                    &&& unusable.error@->Rejected_detail == refusal_detail(probed)
                },
            },
    {
        match check_credential(probed) {
            Ok(readiness) => Ok(
                RunningBackend::new(
                    self.launched.handle,
                    self.launched.channel,
                    self.launched.identity,
                    readiness,
                ),
            ),
            Err(error) => Err(Unusable { handle: self.launched.handle, error }),
        }
    }
}

/// Why a backend that is serving cannot be used.
pub open spec fn refusal_detail(probed: Result<CredentialState, HealthError>) -> Seq<char> {
    match probed {
        Ok(CredentialState::Accepted) => Seq::empty(),
        Ok(CredentialState::Refused { status }) => crate::backend::refused_credential(status),
        Err(reason) => "cannot confirm the backend accepts its credential: "@
            + health_fault_text(reason@),
    }
}

} // verus!
