//! Request routing for the daemon's local HTTP surface.
//!
//! The surface is runtime metadata only, and routing is a function of method and
//! path.

use vstd::prelude::*;
use vstd::string::*;

use crate::http::{header, headers_view, Header};
use crate::protocol::{
    current_version, ErrorBody, Health, HealthStatus, ProtocolVersion, RuntimeIdentity, RuntimeInfo,
    PATH_HEALTH, PATH_RUNTIME,
};
use crate::text::same_text;

verus! {

/// Name this daemon reports as its own.
pub const RUNTIME_NAME: &'static str = "mehoyd";

/// Version this daemon reports.
pub const RUNTIME_VERSION: &'static str = "0.1.0";

/// What an answer says.
#[derive(Debug, PartialEq, Eq)]
pub enum ReplyBody {
    Health(Health),
    Runtime(RuntimeInfo),
    Error(ErrorBody),
}

/// An answer before it is encoded.
#[derive(Debug, PartialEq, Eq)]
pub struct Reply {
    pub status: u16,
    /// The methods the route accepts, where the one used is not among them.
    pub allow: Option<String>,
    pub body: ReplyBody,
}

/// What a [`ReplyBody`] says.
pub enum Said {
    Health(HealthStatus),
    Runtime { protocol: ProtocolVersion, name: Seq<char>, version: Seq<char> },
    Error { code: Seq<char>, message: Seq<char> },
}

impl ReplyBody {
    pub open spec fn view(&self) -> Said {
        match self {
            ReplyBody::Health(health) => Said::Health(health.status),
            ReplyBody::Runtime(info) => Said::Runtime {
                protocol: info.protocol,
                name: info.runtime.name@,
                version: info.runtime.version@,
            },
            ReplyBody::Error(body) => Said::Error {
                code: body.error.code@,
                message: body.error.message@,
            },
        }
    }
}

/// What is answered to a method and a path: the status, the methods that would have
/// been accepted, and the body.
pub open spec fn routed(method: Seq<char>, path: Seq<char>) -> (u16, Option<Seq<char>>, Said) {
    if path == PATH_HEALTH@ || path == PATH_RUNTIME@ {
        if method != "GET"@ {
            (
                405,
                Some("GET"@),
                Said::Error {
                    code: "method_not_allowed"@,
                    message: "this route accepts GET only"@,
                },
            )
        } else if path == PATH_HEALTH@ {
            (200, None, Said::Health(HealthStatus::Serving))
        } else {
            (
                200,
                None,
                Said::Runtime {
                    protocol: current_version(),
                    name: RUNTIME_NAME@,
                    version: RUNTIME_VERSION@,
                },
            )
        }
    } else {
        (404, None, Said::Error { code: "not_found"@, message: "no route for "@ + path })
    }
}

/// Serves one request, given its method and path.
pub fn route(method: &str, path: &str) -> (reply: Reply)
    ensures
        reply.status == routed(method@, path@).0,
        crate::text::opt_text(reply.allow) == routed(method@, path@).1,
        reply.body@ == routed(method@, path@).2,
{
    let health: bool = same_text(path, PATH_HEALTH);
    let runtime: bool = same_text(path, PATH_RUNTIME);
    if !health && !runtime {
        let mut message = "no route for ".to_owned();
        message.append(path);
        return Reply {
            status: 404,
            allow: None,
            body: ReplyBody::Error(ErrorBody::new("not_found", message.as_str())),
        };
    }
    if !same_text(method, "GET") {
        return Reply {
            status: 405,
            allow: Some("GET".to_owned()),
            body: ReplyBody::Error(
                ErrorBody::new("method_not_allowed", "this route accepts GET only"),
            ),
        };
    }
    let body = if health {
        ReplyBody::Health(Health { status: HealthStatus::Serving })
    } else {
        ReplyBody::Runtime(runtime_info())
    };
    Reply { status: 200, allow: None, body }
}

/// This daemon's identity and the protocol version it speaks.
pub fn runtime_info() -> (info: RuntimeInfo)
    ensures
        info.protocol == current_version(),
        info.runtime.name@ == RUNTIME_NAME@,
        info.runtime.version@ == RUNTIME_VERSION@,
{
    RuntimeInfo {
        protocol: ProtocolVersion::current(),
        runtime: RuntimeIdentity {
            name: RUNTIME_NAME.to_owned(),
            version: RUNTIME_VERSION.to_owned(),
        },
    }
}

/// An answer as it is sent.
#[derive(PartialEq, Eq)]
pub struct Response {
    pub status: u16,
    pub headers: Vec<Header>,
    pub body: Vec<u8>,
}

/// The body of an answer that could not be encoded.
pub const ENCODING_FAILED: &'static str =
    "{\"error\":{\"code\":\"encoding_failed\",\"message\":\"response could not be encoded\"}}";

/// The headers of an answer.
pub open spec fn reply_headers(allow: Option<Seq<char>>) -> Seq<(Seq<char>, Seq<char>)> {
    match allow {
        Some(methods) => seq![("content-type"@, "application/json"@), ("allow"@, methods)],
        None => seq![("content-type"@, "application/json"@)],
    }
}

/// The response for an answer whose body was encoded as JSON, or could not be.
pub fn respond(reply: &Reply, encoded: Result<Vec<u8>, String>) -> (response: Response)
    ensures
        match encoded {
            Ok(bytes) => response.status == reply.status && response.body@ == bytes@,
            Err(_) => response.status == 500 && response.body@ == vstd::utf8::encode_utf8(
                ENCODING_FAILED@,
            ),
        },
        headers_view(response.headers@) == reply_headers(crate::text::opt_text(reply.allow)),
{
    let mut headers: Vec<Header> = Vec::new();
    headers.push(header("content-type", "application/json"));
    if let Some(methods) = &reply.allow {
        headers.push(header("allow", methods.as_str()));
    }
    assert(headers_view(headers@) =~= reply_headers(crate::text::opt_text(reply.allow)));
    match encoded {
        Ok(body) => Response { status: reply.status, headers, body },
        Err(_) => Response {
            status: 500,
            headers,
            body: vstd::slice::slice_to_vec(ENCODING_FAILED.as_bytes()),
        },
    }
}

/// Only the two metadata routes are served, and only to `GET`: every other request
/// is refused with a coded error.
pub proof fn nothing_else_is_served(method: Seq<char>, path: Seq<char>)
    ensures
        routed(method, path).0 == 200 <==> method == "GET"@ && (path == PATH_HEALTH@ || path
            == PATH_RUNTIME@),
        routed(method, path).0 != 200 ==> routed(method, path).2 is Error,
        routed(method, path).0 == 405 <==> routed(method, path).1 == Some("GET"@),
{
}

/// The daemon says that it is serving where its health is asked for, and who it is and
/// what it speaks where its metadata is; a route that exists says which method it takes
/// where another is used, and one that does not is named in the answer.
pub proof fn each_route_answers_what_it_is_for(method: Seq<char>, path: Seq<char>)
    ensures
        routed("GET"@, "/health"@) == (200u16, None::<Seq<char>>, Said::Health(
            HealthStatus::Serving,
        )),
        routed("GET"@, "/v1/runtime"@) == (200u16, None::<Seq<char>>, Said::Runtime {
            protocol: ProtocolVersion { major: 1, minor: 0 },
            name: "mehoyd"@,
            version: "0.1.0"@,
        }),
        method != "GET"@ && (path == "/health"@ || path == "/v1/runtime"@) ==> {
            &&& routed(method, path).0 == 405
            &&& routed(method, path).1 == Some("GET"@)
            &&& routed(method, path).2 matches Said::Error { code, .. } && code
                == "method_not_allowed"@
        },
        path != "/health"@ && path != "/v1/runtime"@ ==> routed(method, path) == (
            404u16,
            None::<Seq<char>>,
            Said::Error { code: "not_found"@, message: "no route for "@ + path },
        ),
{
    reveal_strlit("/health");
    reveal_strlit("/v1/runtime");
    assert("/health"@.len() != "/v1/runtime"@.len());
}

/// Every answer says that it is JSON, and which methods are taken exactly where that is
/// to be said.
pub proof fn answers_say_what_they_are(allow: Option<Seq<char>>)
    ensures
        reply_headers(allow).len() == if allow is Some {
            2int
        } else {
            1
        },
        reply_headers(allow)[0] == ("content-type"@, "application/json"@),
        allow matches Some(methods) ==> reply_headers(allow)[1] == ("allow"@, methods),
{
}

} // verus!
