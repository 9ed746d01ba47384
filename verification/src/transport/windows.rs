//! Decisions about a Windows named pipe endpoint.
//!
//! Only the account that created the pipe may open it, and the `NETWORK` principal
//! is denied, by the security descriptor the pipe is created with.

use vstd::prelude::*;
use vstd::string::*;

use crate::text::{begins_with, same_words, words_stay};
use crate::transport::{EndpointAddress, EndpointError, EndpointFault, IoKind};

verus! {

/// Buffer size advertised when creating a pipe instance.
pub const PIPE_BUFFER_BYTES: u32 = 65_536;

/// The error number for a pipe name that someone else holds.
pub const ERROR_ACCESS_DENIED: i32 = 5;

/// The error number for a pipe whose instances are all serving clients.
pub const ERROR_PIPE_BUSY: i32 = 231;

/// How long to wait before trying a busy pipe again, in nanoseconds.
pub const BUSY_WAIT: u64 = 20_000_000;

/// The descriptor of a pipe for one account. The deny entry comes first, because
/// entries are evaluated in order.
pub open spec fn descriptor(sid: Seq<char>) -> Seq<char> {
    "D:P(D;;GA;;;NU)(A;;GA;;;"@ + sid + ")"@
}

/// Builds the security descriptor definition for the pipe.
pub fn security_descriptor_definition(sid: &str) -> (sddl: String)
    ensures
        sddl@ == descriptor(sid@),
{
    let mut sddl = "D:P(D;;GA;;;NU)(A;;GA;;;".to_owned();
    sddl.append(sid);
    sddl.append(")");
    sddl
}

/// The network is denied before the user is allowed, whoever the user is.
pub proof fn the_network_is_denied_first(sid: Seq<char>)
    ensures
        begins_with(descriptor(sid), "D:P(D;;GA;;;NU)"@),
        descriptor(sid).skip("D:P(D;;GA;;;NU)"@.len() as int) == "(A;;GA;;;"@ + sid + ")"@,
{
    reveal_strlit("D:P(D;;GA;;;NU)(A;;GA;;;");
    reveal_strlit("D:P(D;;GA;;;NU)");
    reveal_strlit("(A;;GA;;;");
    assert(descriptor(sid).take("D:P(D;;GA;;;NU)"@.len() as int) =~= "D:P(D;;GA;;;NU)"@);
    assert(descriptor(sid).skip("D:P(D;;GA;;;NU)"@.len() as int) =~= "(A;;GA;;;"@ + sid + ")"@);
}

/// The per-user default pipe name, qualified by the account's security identifier so
/// that two accounts never contend for a single pipe.
pub fn default_address(sid: Result<String, String>) -> (result: Result<
    EndpointAddress,
    EndpointError,
>)
    ensures
        match sid {
            Ok(sid) => result matches Ok(address) && address@ == "\\\\.\\pipe\\mehoyd-"@ + sid@,
            Err(reason) => result matches Err(error) && error@
                == (EndpointFault::NoDefaultLocation {
                reason: "cannot read the current user's identity: "@ + reason@,
            }),
        },
{
    match sid {
        Ok(sid) => {
            let mut name = "\\\\.\\pipe\\mehoyd-".to_owned();
            name.append(sid.as_str());
            Ok(EndpointAddress::new(name.as_str()))
        },
        Err(cause) => {
            let mut reason = "cannot read the current user's identity: ".to_owned();
            reason.append(cause.as_str());
            Err(EndpointError::NoDefaultLocation { reason })
        },
    }
}

/// Why the first pipe instance could not be created. A second daemon is refused the
/// name.
pub fn bind_failed(address: &EndpointAddress, raw_os_error: Option<i32>, message: String)
    -> (error: EndpointError)
    ensures
        error@ == if raw_os_error == Some(ERROR_ACCESS_DENIED) {
            EndpointFault::AlreadyRunning { address: address@ }
        } else {
            EndpointFault::Io(message@)
        },
        error is AlreadyRunning <==> raw_os_error == Some(5i32),
        error is AlreadyRunning || error is Io,
{
    let denied: bool = match raw_os_error {
        Some(code) => code == ERROR_ACCESS_DENIED,
        None => false,
    };
    if denied {
        EndpointError::AlreadyRunning { address: address.copy() }
    } else {
        EndpointError::Io(message)
    }
}

/// What to do about a connection that failed.
#[derive(Debug)]
pub enum ConnectStep {
    /// Every instance is serving a client. Wait for [`BUSY_WAIT`] and try again.
    TryAgain,
    Fail(EndpointError),
}

/// What to do about a connection that failed.
pub fn connect_failed(
    address: &EndpointAddress,
    kind: IoKind,
    raw_os_error: Option<i32>,
    message: String,
) -> (step: ConnectStep)
    ensures
        if raw_os_error == Some(ERROR_PIPE_BUSY) {
            step is TryAgain
        } else {
            step matches ConnectStep::Fail(error) && error@ == if kind == IoKind::NotFound {
                EndpointFault::NotRunning { address: address@ }
            } else {
                EndpointFault::Io(message@)
            }
        },
        step is TryAgain <==> raw_os_error == Some(231i32),
{
    let busy: bool = match raw_os_error {
        Some(code) => code == ERROR_PIPE_BUSY,
        None => false,
    };
    if busy {
        ConnectStep::TryAgain
    } else if kind == IoKind::NotFound {
        ConnectStep::Fail(EndpointError::NotRunning { address: address.copy() })
    } else {
        ConnectStep::Fail(EndpointError::Io(message))
    }
}

/// An account is named whole, and what else a descriptor says is the same for all.
pub proof fn a_pipe_is_for_one_account(sid: Seq<char>, other: Seq<char>)
    ensures
        same_words(descriptor(sid), sid, descriptor(other), other),
        descriptor(sid) == descriptor(other) ==> sid == other,
{
    let lead = "D:P(D;;GA;;;NU)(A;;GA;;;"@;
    words_stay(lead, sid, other, ")"@, descriptor(sid), descriptor(other));
    let n = lead.len() as int;
    let end = descriptor(sid).len() - ")"@.len();
    let other_end = descriptor(other).len() - ")"@.len();
    assert(descriptor(sid).subrange(n, end) =~= sid);
    assert(descriptor(other).subrange(n, other_end) =~= other);
}

} // verus!
