//! The private channel between the runtime and a backend process.
//!
//! A backend that serves HTTP is a second endpoint beside the runtime's own, so it
//! listens on loopback only, at a port chosen at run time, and requires a per-worker
//! secret that no client ever sees.

use vstd::prelude::*;
use vstd::string::*;

use crate::entropy::random_token;
use crate::http::{header, headers_view, Header, RequestHead};
use crate::text::{
    a_number_reads_back_from_its_decimal, decimal, decimal_u64, hex, hex_is_digits,
    hex_is_injective, hex_of, reads_as,
};

verus! {

/// Bytes of entropy in a channel secret.
pub const SECRET_BYTES: usize = 32;

/// A per-worker shared secret.
///
/// It has no `Display` and no `Debug`, so it cannot reach a log or an error message
/// by accident.
#[derive(Clone, PartialEq, Eq)]
pub struct ChannelSecret(String);

impl View for ChannelSecret {
    type V = Seq<char>;

    closed spec fn view(&self) -> Seq<char> {
        self.0@
    }
}

impl ChannelSecret {
    /// Generates a secret from the operating system's randomness source.
    ///
    /// There is no fallback: a predictable secret would look like protection while
    /// providing none.
    pub fn generate() -> (result: Result<Self, String>)
        ensures
            match result {
                Ok(secret) => exists|entropy: Seq<u8>|
                    entropy.len() == SECRET_BYTES && secret@ == #[trigger] hex(entropy),
                Err(reason) => exists|cause: Seq<char>|
                    reason@ == #[trigger] ("system randomness unavailable: "@ + cause),
            },
    {
        match random_token(SECRET_BYTES) {
            Ok(token) => Ok(ChannelSecret(token)),
            Err(reason) => Err(reason),
        }
    }

    /// The secret made of the given entropy: its hexadecimal form.
    pub fn from_entropy(entropy: &[u8]) -> (secret: Self)
        ensures
            secret@ == hex(entropy@),
    {
        ChannelSecret(hex_of(entropy))
    }

    /// The secret value, for handing to the backend and to requests made to it.
    ///
    /// Named so that a call site reads as a deliberate disclosure.
    pub fn expose(&self) -> (value: &str)
        ensures
            value@ == self@,
    {
        self.0.as_str()
    }

    /// What a log may show of a secret: the same for every secret.
    pub fn redacted(&self) -> (shown: String)
        ensures
            shown@ == "ChannelSecret(<redacted>)"@,
    {
        "ChannelSecret(<redacted>)".to_owned()
    }

    /// Another copy of the secret.
    pub fn copy(&self) -> (secret: Self)
        ensures
            secret@ == self@,
    {
        ChannelSecret(self.0.clone())
    }
}

/// Secrets made of different entropy are different, and a secret is two hexadecimal
/// digits for each byte of it.
pub proof fn secrets_are_as_unique_as_their_entropy(a: Seq<u8>, b: Seq<u8>)
    ensures
        hex(a) == hex(b) <==> a == b,
        hex(a).len() == 2 * a.len(),
        forall|i: int|
            0 <= i < hex(a).len() ==> {
                ||| '0' <= #[trigger] hex(a)[i] <= '9'
                ||| 'a' <= hex(a)[i] <= 'f'
            },
{
    hex_is_digits(a);
    if hex(a) == hex(b) {
        hex_is_injective(a, b);
    }
}

/// An internet address. The text of a version 6 address is the caller's.
#[derive(Debug, Clone, PartialEq, Eq)]
pub enum BackendIp {
    V4([u8; 4]),
    V6 { segments: [u16; 8], text: String },
}

/// Whether an address is confined to the host: `127.0.0.0/8`, or `::1`.
pub open spec fn loopback(ip: BackendIp) -> bool {
    match ip {
        BackendIp::V4(octets) => octets@[0] == 127,
        BackendIp::V6 { segments, .. } => segments@ == seq![0u16, 0, 0, 0, 0, 0, 0, 1],
    }
}

/// An address in words.
pub open spec fn ip_text(ip: BackendIp) -> Seq<char> {
    match ip {
        BackendIp::V4(octets) => decimal(octets@[0] as nat) + "."@ + decimal(octets@[1] as nat)
            + "."@ + decimal(octets@[2] as nat) + "."@ + decimal(octets@[3] as nat),
        BackendIp::V6 { text, .. } => text@,
    }
}

/// A channel reserved on `127.0.0.1` is passed to the backend under that name, so
/// the backend binds loopback and nothing else.
pub proof fn the_loopback_host_is_named(octets: [u8; 4])
    requires
        octets@ == seq![127u8, 0, 0, 1],
    ensures
        ip_text(BackendIp::V4(octets)) == "127.0.0.1"@,
        loopback(BackendIp::V4(octets)),
{
    reveal_with_fuel(decimal, 3);
    reveal_strlit("127.0.0.1");
    reveal_strlit(".");
    assert(ip_text(BackendIp::V4(octets)) =~= "127.0.0.1"@);
}

/// Where a backend listens: an address and a port.
#[derive(Debug, Clone, PartialEq, Eq)]
pub struct BackendAddress {
    pub ip: BackendIp,
    pub port: u16,
}

/// Where a backend listens, and what is needed to talk to it.
#[derive(Clone)]
pub struct BackendChannel {
    address: BackendAddress,
    secret: ChannelSecret,
}

impl BackendChannel {
    pub closed spec fn address_view(&self) -> BackendAddress {
        self.address
    }

    pub closed spec fn secret_view(&self) -> Seq<char> {
        self.secret@
    }

    /// A channel at a reserved loopback port, with a new secret.
    ///
    /// The port is one the caller bound on `127.0.0.1` and released. Fails only when
    /// the system randomness source is unavailable.
    pub fn reserve(port: u16) -> (result: Result<Self, String>)
        ensures
            match result {
                Ok(channel) => {
                    &&& loopback(channel.address_view().ip)
                    &&& channel.address_view().ip matches BackendIp::V4(octets) && octets@
                        == seq![127u8, 0, 0, 1]
                    &&& channel.address_view().port == port
                    &&& exists|entropy: Seq<u8>|
                        entropy.len() == SECRET_BYTES && channel.secret_view() == #[trigger] hex(
                            entropy,
                        )
                },
                Err(reason) => exists|cause: Seq<char>|
                    reason@ == #[trigger] ("system randomness unavailable: "@ + cause),
            },
    {
        let octets: [u8; 4] = [127, 0, 0, 1];
        assert(octets@ =~= seq![127u8, 0, 0, 1]);
        let address = BackendAddress { ip: BackendIp::V4(octets), port };
        match ChannelSecret::generate() {
            Ok(secret) => Ok(BackendChannel { address, secret }),
            Err(reason) => Err(reason),
        }
    }

    /// A channel for an already-known address.
    pub fn at(address: BackendAddress, secret: ChannelSecret) -> (channel: Self)
        ensures
            channel.address_view() == address,
            channel.secret_view() == secret@,
    {
        BackendChannel { address, secret }
    }

    /// The address the backend listens on.
    pub fn address(&self) -> (address: &BackendAddress)
        ensures
            *address == self.address_view(),
    {
        &self.address
    }

    /// The host to pass to the backend.
    pub fn host(&self) -> (host: String)
        ensures
            host@ == ip_text(self.address_view().ip),
    {
        match &self.address.ip {
            BackendIp::V4(octets) => {
                let mut host = decimal_u64(octets[0] as u64);
                host.append(".");
                host.append(decimal_u64(octets[1] as u64).as_str());
                host.append(".");
                host.append(decimal_u64(octets[2] as u64).as_str());
                host.append(".");
                host.append(decimal_u64(octets[3] as u64).as_str());
                host
            },
            BackendIp::V6 { text, .. } => text.clone(),
        }
    }

    /// The port to pass to the backend.
    pub fn port(&self) -> (port: u16)
        ensures
            port == self.address_view().port,
    {
        self.address.port
    }

    /// The secret required to talk to the backend.
    pub fn secret(&self) -> (secret: &ChannelSecret)
        ensures
            secret@ == self.secret_view(),
    {
        &self.secret
    }

    /// Whether this channel is confined to loopback.
    pub fn is_loopback(&self) -> (confined: bool)
        ensures
            confined == loopback(self.address_view().ip),
            match self.address_view().ip {
                BackendIp::V4(octets) => confined == (octets@[0] == 127),
                BackendIp::V6 { segments, .. } => confined == (segments@[7] == 1 && forall|i: int|
                    0 <= i < 7 ==> #[trigger] segments@[i] == 0),
            },
    {
        match &self.address.ip {
            BackendIp::V4(octets) => octets[0] == 127,
            BackendIp::V6 { segments, .. } => {
                let s = segments;
                let confined = s[0] == 0 && s[1] == 0 && s[2] == 0 && s[3] == 0 && s[4] == 0
                    && s[5] == 0 && s[6] == 0 && s[7] == 1;
                proof {
                    let one = seq![0u16, 0, 0, 0, 0, 0, 0, 1];
                    if confined {
                        assert(s@ =~= one);
                        assert(forall|i: int| 0 <= i < 7 ==> #[trigger] s@[i] == 0);
                    } else {
                        assert(one[0] == 0 && one[1] == 0 && one[2] == 0 && one[3] == 0 && one[4]
                            == 0 && one[5] == 0 && one[6] == 0 && one[7] == 1);
                    }
                }
                confined
            },
        }
    }
}

/// An address and its port in words. A version 6 address stands in brackets.
pub open spec fn address_text(address: BackendAddress) -> Seq<char> {
    match address.ip {
        BackendIp::V4(_) => ip_text(address.ip) + ":"@ + decimal(address.port as nat),
        BackendIp::V6 { .. } => "["@ + ip_text(address.ip) + "]:"@ + decimal(address.port as nat),
    }
}

impl BackendChannel {
    /// What a log may show of a channel: where it is, and of its secret only that it
    /// has one.
    pub fn redacted(&self) -> (shown: String)
        ensures
            shown@ == "BackendChannel { address: "@ + address_text(self.address_view())
                + ", secret: ChannelSecret(<redacted>) }"@,
    {
        let mut shown = "BackendChannel { address: ".to_owned();
        let bracketed = match &self.address.ip {
            BackendIp::V4(_) => false,
            BackendIp::V6 { .. } => true,
        };
        let mut address = String::new();
        if bracketed {
            address.append("[");
        }
        address.append(self.host().as_str());
        address.append(if bracketed { "]:" } else { ":" });
        address.append(decimal_u64(self.address.port as u64).as_str());
        assert(address@ =~= address_text(self.address_view()));
        shown.append(address.as_str());
        shown.append(", secret: ");
        shown.append(self.secret.redacted().as_str());
        shown.append(" }");
        proof {
            reveal_strlit(", secret: ");
            reveal_strlit("ChannelSecret(<redacted>)");
            reveal_strlit(" }");
            reveal_strlit(", secret: ChannelSecret(<redacted>) }");
            assert(", secret: "@ + "ChannelSecret(<redacted>)"@ + " }"@
                =~= ", secret: ChannelSecret(<redacted>) }"@);
            assert(shown@ =~= "BackendChannel { address: "@ + address_text(self.address_view())
                + (", secret: "@ + "ChannelSecret(<redacted>)"@ + " }"@));
        }
        shown
    }
}

/// The value of the authorization header for a secret.
pub open spec fn bearer(secret: Seq<char>) -> Seq<char> {
    "Bearer "@ + secret
}

/// What is asked of a backend beyond its path.
#[derive(Debug, Clone, Copy, PartialEq, Eq, Structural)]
pub enum RequestKind {
    /// A question without a body. It carries the credential only when asked to.
    Get { with_credential: bool },
    /// A question with a JSON body. The answer may be asked for as an event stream.
    Post { streaming: bool },
}

pub open spec fn method_text(kind: RequestKind) -> Seq<char> {
    match kind {
        RequestKind::Get { .. } => "GET"@,
        RequestKind::Post { .. } => "POST"@,
    }
}

/// The headers of a request, in order.
pub open spec fn request_headers(host: Seq<char>, secret: Seq<char>, kind: RequestKind) -> Seq<
    (Seq<char>, Seq<char>),
> {
    match kind {
        RequestKind::Get { with_credential } => if with_credential {
            seq![("host"@, host), ("authorization"@, bearer(secret))]
        } else {
            seq![("host"@, host)]
        },
        RequestKind::Post { streaming } => if streaming {
            seq![
                ("host"@, host),
                ("content-type"@, "application/json"@),
                ("accept"@, "text/event-stream"@),
                ("authorization"@, bearer(secret)),
            ]
        } else {
            seq![
                ("host"@, host),
                ("content-type"@, "application/json"@),
                ("authorization"@, bearer(secret)),
            ]
        },
    }
}

/// Whether a header with a value is among headers.
pub open spec fn has_header(
    headers: Seq<(Seq<char>, Seq<char>)>,
    name: Seq<char>,
    value: Seq<char>,
) -> bool {
    exists|i: int| 0 <= i < headers.len() && #[trigger] headers[i] == (name, value)
}

/// Whether a name is among those of headers.
pub open spec fn names_header(headers: Seq<(Seq<char>, Seq<char>)>, name: Seq<char>) -> bool {
    exists|i: int| 0 <= i < headers.len() && (#[trigger] headers[i]).0 == name
}

/// Every request says which host it is for. A question with a body carries the
/// credential and says that it is JSON, one without carries the credential exactly when
/// asked to, and an answer is asked for as an event stream exactly when it is to be
/// streamed.
pub proof fn requests_carry_what_the_backend_needs(
    host: Seq<char>,
    secret: Seq<char>,
    kind: RequestKind,
)
    ensures
        ({
            let headers = request_headers(host, secret, kind);
            let credential = kind is Post || (kind matches RequestKind::Get { with_credential }
                && with_credential);
            let streamed = kind matches RequestKind::Post { streaming } && streaming;
            &&& has_header(headers, "host"@, host)
            &&& credential ==> has_header(headers, "authorization"@, "Bearer "@ + secret)
            &&& !credential ==> !names_header(headers, "authorization"@)
            &&& kind is Post ==> has_header(headers, "content-type"@, "application/json"@)
            &&& streamed ==> has_header(headers, "accept"@, "text/event-stream"@)
            &&& !streamed ==> !names_header(headers, "accept"@)
            &&& kind is Get ==> !names_header(headers, "content-type"@)
            &&& headers.len() == 1 + (if credential {
                1int
            } else {
                0
            }) + (if kind is Post {
                1int
            } else {
                0
            }) + (if streamed {
                1int
            } else {
                0
            })
        }),
{
    reveal_strlit("host");
    reveal_strlit("authorization");
    reveal_strlit("content-type");
    reveal_strlit("accept");
    let headers = request_headers(host, secret, kind);
    assert("host"@.len() == 4 && "authorization"@.len() == 13 && "content-type"@.len() == 12
        && "accept"@.len() == 6);
    assert(headers[0] == ("host"@, host));
    match kind {
        RequestKind::Get { with_credential } => {
            if with_credential {
                assert(headers[1] == ("authorization"@, "Bearer "@ + secret));
            }
        },
        RequestKind::Post { streaming } => {
            assert(headers[1] == ("content-type"@, "application/json"@));
            if streaming {
                assert(headers[2] == ("accept"@, "text/event-stream"@));
                assert(headers[3] == ("authorization"@, "Bearer "@ + secret));
            } else {
                assert(headers[2] == ("authorization"@, "Bearer "@ + secret));
            }
        },
    }
}

/// An address is written as its four numbers with a dot between them, and where a
/// backend listens as its address, a colon and its port.
pub proof fn addresses_are_written_by_their_numbers(octets: [u8; 4], port: u16)
    ensures
        exists|a: Seq<char>, b: Seq<char>, c: Seq<char>, d: Seq<char>, p: Seq<char>|
            {
                &&& reads_as(a, octets@[0] as int)
                &&& reads_as(b, octets@[1] as int)
                &&& reads_as(c, octets@[2] as int)
                &&& reads_as(d, octets@[3] as int)
                &&& reads_as(p, port as int)
                &&& ip_text(BackendIp::V4(octets)) == a + "."@ + b + "."@ + c + "."@ + d
                &&& address_text(BackendAddress { ip: BackendIp::V4(octets), port })
                    == #[trigger] (a + "."@ + b + "."@ + c + "."@ + d + ":"@ + p)
            },
{
    let a = decimal(octets@[0] as nat);
    let b = decimal(octets@[1] as nat);
    let c = decimal(octets@[2] as nat);
    let d = decimal(octets@[3] as nat);
    let p = decimal(port as nat);
    a_number_reads_back_from_its_decimal(octets@[0] as nat);
    a_number_reads_back_from_its_decimal(octets@[1] as nat);
    a_number_reads_back_from_its_decimal(octets@[2] as nat);
    a_number_reads_back_from_its_decimal(octets@[3] as nat);
    a_number_reads_back_from_its_decimal(port as nat);
    assert(address_text(BackendAddress { ip: BackendIp::V4(octets), port }) == a + "."@ + b + "."@
        + c + "."@ + d + ":"@ + p);
}

impl BackendChannel {
    /// The head of a request over this channel.
    pub fn request_head(&self, path: &str, kind: RequestKind) -> (head: RequestHead)
        ensures
            head.method@ == method_text(kind),
            kind is Get ==> head.method@ == "GET"@,
            kind is Post ==> head.method@ == "POST"@,
            head.path@ == path@,
            headers_view(head.headers@) == request_headers(
                ip_text(self.address_view().ip),
                self.secret_view(),
                kind,
            ),
    {
        let host = self.host();
        let mut credential = "Bearer ".to_owned();
        credential.append(self.secret.expose());
        let mut headers: Vec<Header> = Vec::new();
        headers.push(header("host", host.as_str()));
        let method = match kind {
            RequestKind::Get { with_credential } => {
                if with_credential {
                    headers.push(header("authorization", credential.as_str()));
                }
                "GET".to_owned()
            },
            RequestKind::Post { streaming } => {
                headers.push(header("content-type", "application/json"));
                if streaming {
                    headers.push(header("accept", "text/event-stream"));
                }
                headers.push(header("authorization", credential.as_str()));
                "POST".to_owned()
            },
        };
        assert(headers_view(headers@) =~= request_headers(
            ip_text(self.address_view().ip),
            self.secret_view(),
            kind,
        ));
        RequestHead { method, path: path.to_owned(), headers }
    }
}

/// An address of version 6 is written as it was given, and where a backend listens as that
/// address in square brackets, a colon and its port.
pub proof fn addresses_of_version_six_stand_in_brackets(
    segments: [u16; 8],
    text: String,
    port: u16,
)
    ensures
        ip_text(BackendIp::V6 { segments, text }) == text@,
        exists|p: Seq<char>|
            reads_as(p, port as int) && address_text(
                BackendAddress { ip: BackendIp::V6 { segments, text }, port },
            ) == #[trigger] ("["@ + text@ + "]:"@ + p),
{
    let p = decimal(port as nat);
    a_number_reads_back_from_its_decimal(port as nat);
    assert(address_text(BackendAddress { ip: BackendIp::V6 { segments, text }, port }) == "["@
        + text@ + "]:"@ + p);
}

} // verus!
