use mehoy::backend::channel::{
    BackendAddress, BackendChannel, BackendIp, ChannelSecret, RequestKind, SECRET_BYTES,
};
use mehoy::http::{header, RequestHead};

/// A loopback port the operating system gave out, as the runtime reserves one.
fn channel() -> BackendChannel {
    BackendChannel::reserve(49321).expect("a loopback port is reservable")
}

fn six(segments: [u16; 8], text: &str) -> BackendChannel {
    BackendChannel::at(
        BackendAddress { ip: BackendIp::V6 { segments, text: text.to_owned() }, port: 9 },
        ChannelSecret::from_entropy(&[0xab]),
    )
}

fn four(octets: [u8; 4]) -> BackendChannel {
    BackendChannel::at(
        BackendAddress { ip: BackendIp::V4(octets), port: 8081 },
        ChannelSecret::from_entropy(&[0x00, 0x1f, 0xff]),
    )
}

#[test]
fn a_reserved_channel_is_loopback_with_a_nonzero_port() {
    let channel = channel();
    assert!(
        channel.is_loopback(),
        "backend must not be reachable off-host"
    );
    assert_ne!(channel.port(), 0, "a concrete port must be chosen");
    assert_eq!(channel.host(), "127.0.0.1");
    assert_eq!(channel.port(), 49321);
}

#[test]
fn secrets_are_unique_and_long_enough() {
    let first = ChannelSecret::generate().expect("generates");
    let second = ChannelSecret::generate().expect("generates");
    assert_ne!(first.expose(), second.expose());
    assert_eq!(first.expose().len(), SECRET_BYTES * 2);
    assert!(first.expose().chars().all(|c| c.is_ascii_hexdigit()));
}

#[test]
fn a_secret_cannot_reach_a_log_by_accident() {
    // A secret rendered by an error or a debug line would defeat the point of
    // having one, so the redaction is asserted rather than assumed.
    let secret = ChannelSecret::generate().expect("generates");
    let rendered = secret.redacted();
    assert!(rendered.contains("redacted"), "{rendered}");
    assert!(
        !rendered.contains(secret.expose()),
        "the secret leaked into what a log shows"
    );
}

#[test]
fn a_channel_debug_does_not_leak_its_secret() {
    let channel = channel();
    let rendered = channel.redacted();
    assert!(
        !rendered.contains(channel.secret().expose()),
        "the secret leaked through what a log shows of the channel: {rendered}"
    );
    assert_eq!(
        rendered,
        "BackendChannel { address: 127.0.0.1:49321, secret: ChannelSecret(<redacted>) }"
    );
}

#[test]
fn a_secret_is_the_hexadecimal_form_of_its_entropy() {
    assert_eq!(ChannelSecret::from_entropy(&[0x00, 0x1f, 0xff]).expose(), "001fff");
    let one = ChannelSecret::from_entropy(&[1, 2]);
    let other = ChannelSecret::from_entropy(&[1, 3]);
    assert_ne!(one.expose(), other.expose());
    assert_eq!(one.copy().expose(), one.expose());
}

#[test]
fn only_loopback_addresses_count_as_confined() {
    assert!(four([127, 0, 0, 1]).is_loopback());
    assert!(four([127, 9, 8, 7]).is_loopback());
    assert!(!four([0, 0, 0, 0]).is_loopback());
    assert!(!four([192, 168, 0, 1]).is_loopback());
    assert!(six([0, 0, 0, 0, 0, 0, 0, 1], "::1").is_loopback());
    assert!(!six([0, 0, 0, 0, 0, 0, 0, 0], "::").is_loopback());
}

#[test]
fn an_address_is_shown_as_written() {
    assert_eq!(four([10, 0, 200, 255]).host(), "10.0.200.255");
    assert_eq!(four([10, 0, 200, 255]).address().port, 8081);
    let six = six([0, 0, 0, 0, 0, 0, 0, 1], "::1");
    assert_eq!(six.host(), "::1");
    assert!(six.redacted().contains("address: [::1]:9,"), "{}", six.redacted());
}

#[test]
fn a_request_carries_the_credential_only_when_it_should() {
    let channel = four([127, 0, 0, 1]);
    let head = channel.request_head("/health", RequestKind::Get { with_credential: false });
    assert!(
        head == RequestHead {
            method: "GET".to_owned(),
            path: "/health".to_owned(),
            headers: vec![header("host", "127.0.0.1")],
        }
    );
    let head = channel.request_head("/props", RequestKind::Get { with_credential: true });
    assert!(
        head.headers
            == vec![
                header("host", "127.0.0.1"),
                header("authorization", "Bearer 001fff"),
            ]
    );
}

#[test]
fn a_streaming_request_asks_for_an_event_stream() {
    let channel = four([127, 0, 0, 1]);
    let plain = channel.request_head("/v1/embeddings", RequestKind::Post { streaming: false });
    assert_eq!(plain.method, "POST");
    assert!(
        plain.headers
            == vec![
                header("host", "127.0.0.1"),
                header("content-type", "application/json"),
                header("authorization", "Bearer 001fff"),
            ]
    );
    let streaming = channel.request_head("/v1/completions", RequestKind::Post { streaming: true });
    assert!(
        streaming.headers
            == vec![
                header("host", "127.0.0.1"),
                header("content-type", "application/json"),
                header("accept", "text/event-stream"),
                header("authorization", "Bearer 001fff"),
            ]
    );
}
