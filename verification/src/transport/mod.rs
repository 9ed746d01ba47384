//! The local endpoint the daemon listens on and clients connect to.
//!
//! A Unix domain socket or a Windows named pipe, per user, with access control
//! delegated to filesystem permissions or the pipe's access control list and
//! established at creation. There is no network listener of any kind.

pub mod trace;
pub mod unix;
pub mod windows;

use vstd::prelude::*;
use vstd::string::*;

use crate::text::{same_words, words_stay};

verus! {

/// Environment variable that overrides the default endpoint location.
pub const ENDPOINT_ENV: &'static str = "MEHOY_ENDPOINT";

/// Where the daemon listens: a filesystem path on Unix, a pipe name on Windows.
#[derive(Debug, Clone, PartialEq, Eq, Hash)]
pub struct EndpointAddress(String);

impl View for EndpointAddress {
    type V = Seq<char>;

    closed spec fn view(&self) -> Seq<char> {
        self.0@
    }
}

impl EndpointAddress {
    /// Wraps a platform-native endpoint location.
    pub fn new(value: &str) -> (address: Self)
        ensures
            address@ == value@,
    {
        EndpointAddress(value.to_owned())
    }

    /// The platform-native location.
    pub fn as_str(&self) -> (text: &str)
        ensures
            text@ == self@,
    {
        self.0.as_str()
    }

    /// Resolves the endpoint to use: the value of [`ENDPOINT_ENV`] unless it is
    /// unset or empty, else the per-user platform default.
    pub fn resolve(configured: Option<&str>, default: Result<EndpointAddress, EndpointError>)
        -> (result: Result<EndpointAddress, EndpointError>)
        ensures
            match configured {
                Some(value) => if value@.len() > 0 {
                    result matches Ok(address) && address@ == value@
                } else {
                    result == default
                },
                None => result == default,
            },
    {
        match configured {
            Some(value) => if value.unicode_len() == 0 {
                default
            } else {
                Ok(EndpointAddress::new(value))
            },
            None => default,
        }
    }

    pub fn to_string(&self) -> (text: String)
        ensures
            text@ == self@,
    {
        self.0.clone()
    }

    /// Another copy of the address.
    pub fn copy(&self) -> (address: EndpointAddress)
        ensures
            address@ == self@,
    {
        EndpointAddress(self.0.clone())
    }
}

/// Why an endpoint could not be established or reached.
#[derive(Debug)]
pub enum EndpointError {
    /// Another daemon is already listening on this endpoint.
    AlreadyRunning { address: EndpointAddress },
    /// No daemon is listening on this endpoint.
    NotRunning { address: EndpointAddress },
    /// The directory holding the endpoint is not safe to use: other accounts could
    /// replace or observe a socket inside it.
    InsecureDirectory { path: String, reason: String },
    /// Something occupies the endpoint path that is not an endpoint this runtime
    /// created, so removing it would be unsafe.
    UnexpectedOccupant { path: String, reason: String },
    /// The per-user default location could not be determined.
    NoDefaultLocation { reason: String },
    /// An underlying operating system failure.
    Io(String),
}

/// What an [`EndpointError`] says.
pub enum EndpointFault {
    AlreadyRunning { address: Seq<char> },
    NotRunning { address: Seq<char> },
    InsecureDirectory { path: Seq<char>, reason: Seq<char> },
    UnexpectedOccupant { path: Seq<char>, reason: Seq<char> },
    NoDefaultLocation { reason: Seq<char> },
    Io(Seq<char>),
}

/// A fault in words.
pub open spec fn endpoint_fault_text(fault: EndpointFault) -> Seq<char> {
    match fault {
        EndpointFault::AlreadyRunning { address } => "a daemon is already listening on "@
            + address,
        EndpointFault::NotRunning { address } => "no daemon is listening on "@ + address,
        EndpointFault::InsecureDirectory { path, reason } =>
            "refusing to use endpoint directory "@ + path + ": "@ + reason,
        EndpointFault::UnexpectedOccupant { path, reason } => "refusing to replace "@ + path
            + ": "@ + reason,
        EndpointFault::NoDefaultLocation { reason } =>
            "cannot determine a default endpoint location: "@ + reason,
        EndpointFault::Io(reason) => "endpoint transport failure: "@ + reason,
    }
}

impl EndpointError {
    pub open spec fn view(&self) -> EndpointFault {
        match self {
            EndpointError::AlreadyRunning { address } => EndpointFault::AlreadyRunning {
                address: address@,
            },
            EndpointError::NotRunning { address } => EndpointFault::NotRunning {
                address: address@,
            },
            EndpointError::InsecureDirectory { path, reason } =>
                EndpointFault::InsecureDirectory { path: path@, reason: reason@ },
            EndpointError::UnexpectedOccupant { path, reason } =>
                EndpointFault::UnexpectedOccupant { path: path@, reason: reason@ },
            EndpointError::NoDefaultLocation { reason } => EndpointFault::NoDefaultLocation {
                reason: reason@,
            },
            EndpointError::Io(reason) => EndpointFault::Io(reason@),
        }
    }

    pub fn to_string(&self) -> (text: String)
        ensures
            text@ == endpoint_fault_text(self@),
    {
        match self {
            EndpointError::AlreadyRunning { address } => {
                let mut text = "a daemon is already listening on ".to_owned();
                text.append(address.as_str());
                text
            },
            EndpointError::NotRunning { address } => {
                let mut text = "no daemon is listening on ".to_owned();
                text.append(address.as_str());
                text
            },
            EndpointError::InsecureDirectory { path, reason } => {
                let mut text = "refusing to use endpoint directory ".to_owned();
                text.append(path.as_str());
                text.append(": ");
                text.append(reason.as_str());
                text
            },
            EndpointError::UnexpectedOccupant { path, reason } => {
                let mut text = "refusing to replace ".to_owned();
                text.append(path.as_str());
                text.append(": ");
                text.append(reason.as_str());
                text
            },
            EndpointError::NoDefaultLocation { reason } => {
                let mut text = "cannot determine a default endpoint location: ".to_owned();
                text.append(reason.as_str());
                text
            },
            EndpointError::Io(reason) => {
                let mut text = "endpoint transport failure: ".to_owned();
                text.append(reason.as_str());
                text
            },
        }
    }
}

/// The kinds of operating system failure that decisions depend on.
#[derive(Debug, Clone, Copy, PartialEq, Eq, Structural)]
pub enum IoKind {
    NotFound,
    ConnectionRefused,
    AddrInUse,
    ConnectionAborted,
    ConnectionReset,
    Interrupted,
    BrokenPipe,
    Other,
}

/// A fault tells what it is about, whole and in words that do not depend on it.
pub proof fn an_endpoint_fault_tells_what_it_is_about(
    path: Seq<char>,
    other: Seq<char>,
    detail: Seq<char>,
)
    ensures
        endpoint_fault_text(EndpointFault::AlreadyRunning { address: detail })
            == endpoint_fault_text(EndpointFault::AlreadyRunning { address: Seq::empty() })
            + detail,
        endpoint_fault_text(EndpointFault::NotRunning { address: detail }) == endpoint_fault_text(
            EndpointFault::NotRunning { address: Seq::empty() },
        ) + detail,
        endpoint_fault_text(EndpointFault::NoDefaultLocation { reason: detail })
            == endpoint_fault_text(EndpointFault::NoDefaultLocation { reason: Seq::empty() })
            + detail,
        endpoint_fault_text(EndpointFault::Io(detail)) == endpoint_fault_text(
            EndpointFault::Io(Seq::empty()),
        ) + detail,
        endpoint_fault_text(EndpointFault::InsecureDirectory { path, reason: detail })
            == endpoint_fault_text(EndpointFault::InsecureDirectory { path, reason: Seq::empty() })
            + detail,
        endpoint_fault_text(EndpointFault::UnexpectedOccupant { path, reason: detail })
            == endpoint_fault_text(
            EndpointFault::UnexpectedOccupant { path, reason: Seq::empty() },
        ) + detail,
        same_words(
            endpoint_fault_text(EndpointFault::InsecureDirectory { path, reason: detail }),
            path,
            endpoint_fault_text(EndpointFault::InsecureDirectory { path: other, reason: detail }),
            other,
        ),
        same_words(
            endpoint_fault_text(EndpointFault::UnexpectedOccupant { path, reason: detail }),
            path,
            endpoint_fault_text(EndpointFault::UnexpectedOccupant { path: other, reason: detail }),
            other,
        ),
{
    let behind = ": "@ + detail;
    let lead = "refusing to use endpoint directory "@;
    let text = endpoint_fault_text(EndpointFault::InsecureDirectory { path, reason: detail });
    let second = endpoint_fault_text(
        EndpointFault::InsecureDirectory { path: other, reason: detail },
    );
    assert(text =~= lead + path + behind);
    assert(second =~= lead + other + behind);
    words_stay(lead, path, other, behind, text, second);
    let lead = "refusing to replace "@;
    let text = endpoint_fault_text(EndpointFault::UnexpectedOccupant { path, reason: detail });
    let second = endpoint_fault_text(
        EndpointFault::UnexpectedOccupant { path: other, reason: detail },
    );
    assert(text =~= lead + path + behind);
    assert(second =~= lead + other + behind);
    words_stay(lead, path, other, behind, text, second);
}

} // verus!
