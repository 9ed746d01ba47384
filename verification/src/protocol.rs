//! Wire types for the runtime's local HTTP surface.
//!
//! The endpoints here are runtime metadata: they report what is listening and what
//! it speaks.

use vstd::prelude::*;
use vstd::string::*;

verus! {

/// Major version of the protocol, incremented for changes that existing clients
/// cannot ignore.
pub const PROTOCOL_MAJOR: u32 = 1;

/// Minor version of the protocol, incremented for additions that older clients can
/// safely ignore.
pub const PROTOCOL_MINOR: u32 = 0;

/// Liveness probe. Answers only whether the daemon is serving.
pub const PATH_HEALTH: &'static str = "/health";

/// Runtime metadata, including the protocol version the daemon speaks.
pub const PATH_RUNTIME: &'static str = "/v1/runtime";

/// The protocol version a daemon speaks.
#[derive(Debug, Clone, Copy, PartialEq, Eq, Structural)]
pub struct ProtocolVersion {
    pub major: u32,
    pub minor: u32,
}

/// The version implemented by this crate.
pub open spec fn current_version() -> ProtocolVersion {
    ProtocolVersion { major: PROTOCOL_MAJOR, minor: PROTOCOL_MINOR }
}

/// Whether a client built against one version can talk to a daemon speaking another.
pub open spec fn compatible(client: ProtocolVersion, daemon: ProtocolVersion) -> bool {
    client.major == daemon.major && daemon.minor >= client.minor
}

impl ProtocolVersion {
    /// The version implemented by this crate.
    pub fn current() -> (version: Self)
        ensures
            version == current_version(),
    {
        ProtocolVersion { major: PROTOCOL_MAJOR, minor: PROTOCOL_MINOR }
    }

    /// Whether a client built against `self` can talk to a daemon speaking `daemon`.
    ///
    /// Major versions must match. The daemon's minor version may exceed the
    /// client's, because minor additions are ignorable; the reverse is not usable.
    pub fn is_compatible_with(self, daemon: Self) -> (yes: bool)
        ensures
            yes == compatible(self, daemon),
            yes <==> self.major == daemon.major && self.minor <= daemon.minor,
    {
        self.major == daemon.major && daemon.minor >= self.minor
    }
}

/// Every version is compatible with itself, and a client that can talk to a daemon
/// can talk to any daemon that in turn could serve that daemon's own clients.
pub proof fn compatibility_is_an_order(a: ProtocolVersion, b: ProtocolVersion, c: ProtocolVersion)
    ensures
        compatible(a, a),
        compatible(a, b) && compatible(b, c) ==> compatible(a, c),
        compatible(a, b) && compatible(b, a) ==> a == b,
        compatible(a, b) ==> a.major == b.major,
{
}

/// A daemon serves the clients of every earlier minor version of its major one, and no
/// client that may ask for more than it knows.
pub proof fn a_daemon_serves_earlier_clients(major: u32, older: u32, newer: u32)
    requires
        older < newer,
    ensures
        ({
            let before = ProtocolVersion { major, minor: older };
            let after = ProtocolVersion { major, minor: newer };
            compatible(before, after) && !compatible(after, before)
        }),
{
}

impl Default for ProtocolVersion {
    fn default() -> (version: ProtocolVersion)
        ensures
            version == current_version(),
    {
        ProtocolVersion::current()
    }
}

/// Identity of the running daemon.
#[derive(Debug, Clone, PartialEq, Eq)]
pub struct RuntimeIdentity {
    pub name: String,
    pub version: String,
}

/// Response body for [`PATH_RUNTIME`].
#[derive(Debug, Clone, PartialEq, Eq)]
pub struct RuntimeInfo {
    pub protocol: ProtocolVersion,
    pub runtime: RuntimeIdentity,
}

/// Serving state reported by [`PATH_HEALTH`].
#[derive(Debug, Clone, Copy, PartialEq, Eq, Structural)]
pub enum HealthStatus {
    /// The daemon is accepting requests.
    Serving,
    /// The daemon is shutting down and will not accept new work.
    ShuttingDown,
}

/// Response body for [`PATH_HEALTH`].
#[derive(Debug, Clone, Copy, PartialEq, Eq, Structural)]
pub struct Health {
    pub status: HealthStatus,
}

/// Machine-readable failure returned for any request the daemon does not serve.
#[derive(Debug, Clone, PartialEq, Eq)]
pub struct ErrorBody {
    pub error: ErrorDetail,
}

/// The failure itself.
#[derive(Debug, Clone, PartialEq, Eq)]
pub struct ErrorDetail {
    /// Stable, machine-matchable identifier. Clients branch on this, not on
    /// `message`, which is prose and may change.
    pub code: String,
    pub message: String,
}

impl ErrorBody {
    /// Builds an error body from a stable code and a human-readable message.
    pub fn new(code: &str, message: &str) -> (body: Self)
        ensures
            body.error.code@ == code@,
            body.error.message@ == message@,
    {
        ErrorBody { error: ErrorDetail { code: code.to_owned(), message: message.to_owned() } }
    }
}

} // verus!
