//! The client of the daemon's local endpoint.

use vstd::prelude::*;
use vstd::string::*;

use crate::http::{header, headers_view, is_success, status_text, status_words, success, Header, RequestHead};
use crate::protocol::{ErrorBody, Health, RuntimeInfo};
use crate::text::{lossy_text, put_between, replaced_text, same_words, words_stay};
use crate::transport::{endpoint_fault_text, EndpointAddress, EndpointError, EndpointFault};

verus! {

/// Authority sent in the `Host` header. The transport has no hostname, but HTTP/1.1
/// requires the header. It is never resolved.
pub const LOCAL_AUTHORITY: &'static str = "mehoyd.local";

/// Why a request to the daemon did not produce an answer.
#[derive(Debug)]
pub enum ClientError {
    /// The endpoint could not be reached.
    Transport(EndpointError),
    /// The connection failed or the response was not valid HTTP.
    Protocol(String),
    /// The daemon answered, but with a failure.
    Daemon { status: u16, code: String, message: String },
    /// The daemon answered with a body this client could not parse.
    Malformed(String),
}

/// What a [`ClientError`] says.
pub enum ClientFault {
    Transport(EndpointFault),
    Protocol(Seq<char>),
    Daemon { status: u16, code: Seq<char>, message: Seq<char> },
    Malformed(Seq<char>),
}

/// A fault in words.
pub open spec fn client_fault_text(fault: ClientFault) -> Seq<char> {
    match fault {
        ClientFault::Transport(endpoint) => endpoint_fault_text(endpoint),
        ClientFault::Protocol(detail) => "connection failed: "@ + detail,
        ClientFault::Daemon { status, code, message } => "daemon returned "@ + status_text(status)
            + " ("@ + code + "): "@ + message,
        ClientFault::Malformed(detail) => "unreadable response: "@ + detail,
    }
}

impl ClientError {
    pub open spec fn view(&self) -> ClientFault {
        match self {
            ClientError::Transport(error) => ClientFault::Transport(error@),
            ClientError::Protocol(detail) => ClientFault::Protocol(detail@),
            ClientError::Daemon { status, code, message } => ClientFault::Daemon {
                status: *status,
                code: code@,
                message: message@,
            },
            ClientError::Malformed(detail) => ClientFault::Malformed(detail@),
        }
    }

    pub fn to_string(&self) -> (text: String)
        ensures
            text@ == client_fault_text(self@),
    {
        match self {
            ClientError::Transport(error) => error.to_string(),
            ClientError::Protocol(detail) => {
                let mut text = "connection failed: ".to_owned();
                text.append(detail.as_str());
                text
            },
            ClientError::Daemon { status, code, message } => {
                let mut text = "daemon returned ".to_owned();
                text.append(status_words(*status).as_str());
                text.append(" (");
                text.append(code.as_str());
                text.append("): ");
                text.append(message.as_str());
                text
            },
            ClientError::Malformed(detail) => {
                let mut text = "unreadable response: ".to_owned();
                text.append(detail.as_str());
                text
            },
        }
    }
}

/// What came of one request.
#[derive(Debug)]
pub enum Fetched {
    /// The endpoint could not be reached.
    Unreachable(EndpointError),
    /// The exchange failed.
    Failed(String),
    /// The daemon answered. `error` is its error shape, when the body had it.
    Answered { status: u16, body: Vec<u8>, error: Option<ErrorBody> },
}

/// What a request came to: the body of an answer that reports success, or why there
/// is none.
pub open spec fn fetched(outcome: Fetched) -> Result<Seq<u8>, ClientFault> {
    match outcome {
        Fetched::Unreachable(error) => Err(ClientFault::Transport(error@)),
        Fetched::Failed(reason) => Err(ClientFault::Protocol(reason@)),
        Fetched::Answered { status, body, error } => if success(status) {
            Ok(body@)
        } else {
            Err(
                match error {
                    Some(e) => ClientFault::Daemon {
                        status,
                        code: e.error.code@,
                        message: e.error.message@,
                    },
                    None => ClientFault::Daemon {
                        status,
                        code: "unknown"@,
                        message: replaced_text(body@),
                    },
                },
            )
        },
    }
}

/// Whether a result is what a request came to, given what came of decoding the body
/// of its answer: the first thing that went wrong, or else the value.
pub open spec fn answers<T>(
    result: Result<T, ClientError>,
    outcome: Fetched,
    decoded: Result<T, String>,
) -> bool {
    match fetched(outcome) {
        Err(fault) => result matches Err(error) && error@ == fault,
        Ok(_) => match decoded {
            Err(reason) => result matches Err(error) && error@ == ClientFault::Malformed(reason@),
            Ok(value) => result == Ok::<T, ClientError>(value),
        },
    }
}

/// A client bound to one endpoint. Each request opens its own connection.
#[derive(Debug, Clone)]
pub struct Client {
    address: EndpointAddress,
}

impl View for Client {
    type V = Seq<char>;

    closed spec fn view(&self) -> Seq<char> {
        self.address@
    }
}

impl Client {
    /// A client for a specific endpoint.
    pub fn new(address: EndpointAddress) -> (client: Self)
        ensures
            client@ == address@,
    {
        Client { address }
    }

    /// A client for the endpoint the daemon would use by default, or why there is
    /// none.
    pub fn resolve(resolved: Result<EndpointAddress, EndpointError>) -> (result: Result<
        Self,
        ClientError,
    >)
        ensures
            match resolved {
                Ok(address) => result matches Ok(client) && client@ == address@,
                Err(error) => result matches Err(e) && e@ == ClientFault::Transport(error@),
            },
    {
        match resolved {
            Ok(address) => Ok(Client { address }),
            Err(error) => Err(ClientError::Transport(error)),
        }
    }

    /// The endpoint this client talks to.
    pub fn address(&self) -> (address: &EndpointAddress)
        ensures
            address@ == self@,
    {
        &self.address
    }

    /// The head of a request for a path.
    pub fn request_head(&self, path: &str) -> (head: RequestHead)
        ensures
            head.method@ == "GET"@,
            head.path@ == path@,
            headers_view(head.headers@) == seq![("host"@, LOCAL_AUTHORITY@)],
            headers_view(head.headers@) == seq![("host"@, "mehoyd.local"@)],
    {
        let mut headers: Vec<Header> = Vec::new();
        headers.push(header("host", LOCAL_AUTHORITY));
        assert(headers_view(headers@) =~= seq![("host"@, LOCAL_AUTHORITY@)]);
        RequestHead { method: "GET".to_owned(), path: path.to_owned(), headers }
    }

    /// The daemon's serving state, from what came of a request for [`PATH_HEALTH`](crate::protocol::PATH_HEALTH)
    /// and of decoding the body of its answer.
    pub fn health(&self, outcome: Fetched, decoded: Result<Health, String>) -> (result: Result<
        Health,
        ClientError,
    >)
        ensures
            answers(result, outcome, decoded),
    {
        self.get(outcome, decoded)
    }

    /// The daemon's identity and protocol version, from what came of a request for
    /// [`PATH_RUNTIME`](crate::protocol::PATH_RUNTIME) and of decoding the body of its answer.
    pub fn runtime(&self, outcome: Fetched, decoded: Result<RuntimeInfo, String>) -> (result:
        Result<RuntimeInfo, ClientError>)
        ensures
            answers(result, outcome, decoded),
    {
        self.get(outcome, decoded)
    }

    /// The value an answer holds. What was decoded counts only where the daemon
    /// reported success.
    pub fn get<T>(&self, outcome: Fetched, decoded: Result<T, String>) -> (result: Result<
        T,
        ClientError,
    >)
        ensures
            answers(result, outcome, decoded),
            result is Ok <==> outcome is Answered && 200 <= outcome->Answered_status < 300
                && decoded is Ok,
            result matches Ok(value) ==> value == decoded->Ok_0,
    {
        match self.raw_get(outcome) {
            Err(error) => Err(error),
            Ok(_) => match decoded {
                Ok(value) => Ok(value),
                Err(reason) => Err(ClientError::Malformed(reason)),
            },
        }
    }

    /// The body of an answer, after mapping a failure the daemon reported.
    pub fn raw_get(&self, outcome: Fetched) -> (result: Result<Vec<u8>, ClientError>)
        ensures
            match (result, fetched(outcome)) {
                (Ok(body), Ok(b)) => body@ == b,
                (Err(error), Err(fault)) => error@ == fault,
                _ => false,
            },
            result is Ok <==> outcome is Answered && 200 <= outcome->Answered_status < 300,
            result matches Ok(body) ==> body@ == outcome->Answered_body@,
    {
        match outcome {
            Fetched::Unreachable(error) => Err(ClientError::Transport(error)),
            Fetched::Failed(reason) => Err(ClientError::Protocol(reason)),
            Fetched::Answered { status, body, error } => {
                if is_success(status) {
                    return Ok(body);
                }
                match error {
                    Some(e) => Err(
                        ClientError::Daemon {
                            status,
                            code: e.error.code,
                            message: e.error.message,
                        },
                    ),
                    None => Err(
                        ClientError::Daemon {
                            status,
                            code: "unknown".to_owned(),
                            message: lossy_text(body.as_slice()),
                        },
                    ),
                }
            },
        }
    }
}

/// A request comes to the body of its answer exactly when that reports success; a failure
/// is what it was: an endpoint that could not be reached, an exchange that failed, or
/// what the daemon said of it, with its code and message or with the body where it gave
/// none.
pub proof fn a_request_comes_to_what_was_answered(outcome: Fetched)
    ensures
        match outcome {
            Fetched::Unreachable(error) => fetched(outcome) == Err::<Seq<u8>, ClientFault>(
                ClientFault::Transport(error@),
            ),
            Fetched::Failed(reason) => fetched(outcome) == Err::<Seq<u8>, ClientFault>(
                ClientFault::Protocol(reason@),
            ),
            Fetched::Answered { status, body, error } => if 200 <= status < 300 {
                fetched(outcome) == Ok::<Seq<u8>, ClientFault>(body@)
            } else {
                fetched(outcome) matches Err(ClientFault::Daemon { status: s, code, message }) && s
                    == status && (error matches Some(e) ==> code == e.error.code@ && message
                    == e.error.message@) && (error is None ==> code == "unknown"@ && message
                    == replaced_text(body@))
            },
        },
{
}

/// A fault tells what it is about, whole and in words that do not depend on it; one of
/// the endpoint is told as the endpoint tells it.
pub proof fn a_client_fault_tells_what_it_is_about(
    detail: Seq<char>,
    status: u16,
    code: Seq<char>,
    other: Seq<char>,
    endpoint: EndpointFault,
)
    ensures
        client_fault_text(ClientFault::Transport(endpoint)) == endpoint_fault_text(endpoint),
        client_fault_text(ClientFault::Protocol(detail)) == client_fault_text(
            ClientFault::Protocol(Seq::empty()),
        ) + detail,
        client_fault_text(ClientFault::Malformed(detail)) == client_fault_text(
            ClientFault::Malformed(Seq::empty()),
        ) + detail,
        client_fault_text(ClientFault::Daemon { status, code, message: detail })
            == client_fault_text(ClientFault::Daemon { status, code, message: Seq::empty() })
            + detail,
        same_words(
            client_fault_text(ClientFault::Daemon { status, code, message: detail }),
            code,
            client_fault_text(ClientFault::Daemon { status, code: other, message: detail }),
            other,
        ),
        exists|before: Seq<char>, behind: Seq<char>|
            client_fault_text(ClientFault::Daemon { status, code, message: detail })
                == #[trigger] put_between(before, status_text(status), behind),
{
    let lead = "daemon returned "@;
    let before = lead + status_text(status) + " ("@;
    let behind = "): "@ + detail;
    let text = client_fault_text(ClientFault::Daemon { status, code, message: detail });
    let second = client_fault_text(ClientFault::Daemon { status, code: other, message: detail });
    assert(text =~= before + code + behind);
    assert(second =~= before + other + behind);
    words_stay(before, code, other, behind, text, second);
    assert(text =~= put_between(lead, status_text(status), " ("@ + code + behind));
}

} // verus!
