use mehoy::cli;
use mehoy::cli::client::{Client, ClientError, Fetched, LOCAL_AUTHORITY};
use mehoy::cli::{health_output, runtime_output, Command, EXIT_NOT_RUNNING};
use mehoy::daemon;
use mehoy::daemon::server::{drain, is_transient, serve, DrainEvent, DrainStep, ServeEvent, ServeStep};
use mehoy::daemon::service::{respond, route, runtime_info, ReplyBody, ENCODING_FAILED};
use mehoy::daemon::{EXIT_ALREADY_RUNNING, EXIT_FAILURE, EXIT_SUCCESS, EXIT_USAGE};
use mehoy::http::{header, is_success, status_words};
use mehoy::protocol::{
    ErrorBody, Health, HealthStatus, ProtocolVersion, RuntimeIdentity, RuntimeInfo, PATH_HEALTH,
    PATH_RUNTIME,
};
use mehoy::transport::{EndpointAddress, EndpointError, IoKind};

fn args(values: &[&str]) -> Vec<String> {
    values.iter().map(|value| (*value).to_owned()).collect()
}

// --------------------------------------------------------------------- protocol

#[test]
fn same_version_is_compatible() {
    assert!(ProtocolVersion::current().is_compatible_with(ProtocolVersion::current()));
    assert_eq!(ProtocolVersion::default(), ProtocolVersion { major: 1, minor: 0 });
}

#[test]
fn newer_daemon_minor_is_compatible_but_older_is_not() {
    let client = ProtocolVersion { major: 1, minor: 2 };
    assert!(client.is_compatible_with(ProtocolVersion { major: 1, minor: 3 }));
    assert!(client.is_compatible_with(ProtocolVersion { major: 1, minor: 2 }));
    assert!(!client.is_compatible_with(ProtocolVersion { major: 1, minor: 1 }));
}

#[test]
fn differing_major_is_never_compatible() {
    let client = ProtocolVersion { major: 1, minor: 0 };
    assert!(!client.is_compatible_with(ProtocolVersion { major: 2, minor: 0 }));
    assert!(!client.is_compatible_with(ProtocolVersion { major: 0, minor: 0 }));
}

#[test]
fn an_error_body_keeps_its_code_and_message() {
    let body = ErrorBody::new("not_found", "no such path");
    assert_eq!(body.error.code, "not_found");
    assert_eq!(body.error.message, "no such path");
}

// ---------------------------------------------------------------------- service

fn error_code(body: &ReplyBody) -> &str {
    match body {
        ReplyBody::Error(error) => error.error.code.as_str(),
        other => panic!("expected an error, got {other:?}"),
    }
}

#[test]
fn health_reports_ok() {
    let reply = route("GET", PATH_HEALTH);
    assert_eq!(reply.status, 200);
    let response = respond(&reply, Ok(b"{\"status\":\"ok\"}".to_vec()));
    assert!(response.headers == vec![header("content-type", "application/json")]);
    assert_eq!(response.status, 200);
    assert_eq!(response.body, b"{\"status\":\"ok\"}");
    assert_eq!(reply.body, ReplyBody::Health(Health { status: HealthStatus::Serving }));
}

#[test]
fn runtime_reports_protocol_and_identity() {
    let reply = route("GET", PATH_RUNTIME);
    assert_eq!(reply.status, 200);
    assert_eq!(
        reply.body,
        ReplyBody::Runtime(RuntimeInfo {
            protocol: ProtocolVersion { major: 1, minor: 0 },
            runtime: RuntimeIdentity { name: "mehoyd".to_owned(), version: "0.1.0".to_owned() },
        })
    );
}

#[test]
fn unknown_path_is_not_found_with_a_coded_error() {
    let reply = route("GET", "/nope");
    assert_eq!(reply.status, 404);
    assert_eq!(error_code(&reply.body), "not_found");
}

#[test]
fn non_get_on_a_known_route_is_rejected_and_advertises_get() {
    for method in ["POST", "PUT", "DELETE"] {
        let reply = route(method, PATH_HEALTH);
        assert_eq!(reply.status, 405, "method {method} should be rejected");
        assert_eq!(reply.allow.as_deref(), Some("GET"));
        assert_eq!(error_code(&reply.body), "method_not_allowed");
        let response = respond(&reply, Ok(Vec::new()));
        assert!(
            response.headers
                == vec![header("content-type", "application/json"), header("allow", "GET")]
        );
    }
}

#[test]
fn no_compatibility_endpoint_is_served() {
    for path in ["/v1/chat/completions", "/v1/completions", "/v1/models"] {
        let reply = route("POST", path);
        assert_eq!(reply.status, 404, "{path} must not be served yet");
    }
}

#[test]
fn reported_version_matches_the_package() {
    assert_eq!(runtime_info().runtime.version, "0.1.0");
    assert_eq!(runtime_info().runtime.name, "mehoyd");
}

#[test]
fn an_answer_that_cannot_be_encoded_is_an_error_of_its_own() {
    let reply = route("GET", PATH_HEALTH);
    let response = respond(&reply, Err("recursion".to_owned()));
    assert_eq!(response.status, 500);
    assert_eq!(response.body, ENCODING_FAILED.as_bytes());
}

// ----------------------------------------------------------------- daemon binary

#[test]
fn no_arguments_serves_on_the_default_endpoint() {
    let parsed = daemon::parse_args(args(&[])).expect("parses");
    assert!(matches!(parsed, daemon::Invocation::Serve { endpoint: None }));
}

#[test]
fn endpoint_flag_is_captured() {
    let parsed = daemon::parse_args(args(&["--endpoint", "custom"])).expect("parses");
    match parsed {
        daemon::Invocation::Serve { endpoint } => assert_eq!(endpoint.as_deref(), Some("custom")),
        _ => panic!("expected a serve invocation"),
    }
}

#[test]
fn endpoint_flag_without_a_value_is_an_error() {
    let err = daemon::parse_args(args(&["--endpoint"])).expect_err("must fail");
    assert!(err.contains("requires an address"), "{err}");
}

#[test]
fn unknown_arguments_are_rejected_rather_than_ignored() {
    let err = daemon::parse_args(args(&["--wat"])).expect_err("must fail");
    assert!(err.contains("--wat"), "{err}");
}

#[test]
fn main_help_and_version_short_circuit() {
    assert!(matches!(
        daemon::parse_args(args(&["--help"])).expect("parses"),
        daemon::Invocation::Help
    ));
    assert!(matches!(
        daemon::parse_args(args(&["-V"])).expect("parses"),
        daemon::Invocation::Version
    ));
}

#[test]
fn the_last_endpoint_given_to_the_daemon_is_used() {
    assert_eq!(
        daemon::parse_args(args(&["--endpoint", "a", "--endpoint", "b"])),
        Ok(daemon::Invocation::Serve { endpoint: Some("b".to_owned()) })
    );
}

#[test]
fn the_daemon_answers_a_command_line_that_asks_for_no_serving() {
    let answer = |values: &[&str]| daemon::answer_invocation(&daemon::parse_args(args(values)));
    let help = answer(&["-h"]).expect("answered");
    assert_eq!(help.stdout, daemon::USAGE);
    assert_eq!(help.code, EXIT_SUCCESS);
    assert_eq!(answer(&["--version"]).expect("answered").stdout, "mehoyd 0.1.0\n");
    let wrong = answer(&["serve"]).expect("answered");
    assert_eq!(wrong.code, EXIT_USAGE);
    assert!(wrong.stdout.is_empty());
    assert_eq!(
        wrong.stderr,
        format!("mehoyd: unrecognised argument: serve\n{}", daemon::USAGE)
    );
    assert!(answer(&[]).is_none());
}

#[test]
fn the_daemon_reports_why_it_cannot_serve() {
    let address = || EndpointAddress::new("/run/x");
    let running = daemon::bind_failed(&EndpointError::AlreadyRunning { address: address() });
    assert_eq!(running.code, EXIT_ALREADY_RUNNING);
    assert_eq!(running.stderr, "mehoyd: a daemon is already listening on /run/x\n");
    let denied = daemon::bind_failed(&EndpointError::Io("denied".to_owned()));
    assert_eq!(denied.code, EXIT_FAILURE);
    assert_eq!(
        denied.stderr,
        "mehoyd: endpoint transport failure: denied\nmehoyd: set MEHOY_ENDPOINT to choose a \
         different endpoint\n"
    );
    assert_eq!(
        daemon::runtime_failed("no threads").stderr,
        "mehoyd: cannot start the async runtime: no threads\n"
    );
    assert_eq!(daemon::listening(&address()), "mehoyd 0.1.0 listening on /run/x\n");
    assert_eq!(daemon::served(Ok(())).stdout, "mehoyd: shut down\n");
    assert_eq!(daemon::served(Err("broken".to_owned())).stderr, "mehoyd: broken\n");
}

#[test]
fn the_endpoint_asked_for_comes_before_the_resolved_one() {
    let resolved = || Ok(EndpointAddress::new("default"));
    assert_eq!(
        daemon::choose_endpoint(Some("mine".to_owned()), resolved()),
        Ok(EndpointAddress::new("mine"))
    );
    assert_eq!(daemon::choose_endpoint(None, resolved()), Ok(EndpointAddress::new("default")));
    let missing = || Err(EndpointError::NoDefaultLocation { reason: "why".to_owned() });
    assert_eq!(
        daemon::choose_endpoint(None, missing()).expect_err("no endpoint").stderr,
        "mehoyd: cannot determine a default endpoint location: why\n"
    );
    assert_eq!(
        cli::choose_endpoint(None, missing()).expect_err("no endpoint").stderr,
        "mehoy: cannot determine a default endpoint location: why\n"
    );
    assert_eq!(
        cli::choose_endpoint(Some("mine".to_owned()), missing()),
        Ok(EndpointAddress::new("mine"))
    );
}

// ----------------------------------------------------------------------- server

#[test]
fn one_failed_connection_does_not_stop_the_daemon() {
    assert_eq!(serve(ServeEvent::Accepted), ServeStep::Spawn);
    assert_eq!(serve(ServeEvent::Finished), ServeStep::Continue);
    assert_eq!(serve(ServeEvent::Shutdown), ServeStep::Drain);
    for kind in [
        IoKind::NotFound,
        IoKind::ConnectionRefused,
        IoKind::AddrInUse,
        IoKind::ConnectionAborted,
        IoKind::ConnectionReset,
        IoKind::Interrupted,
        IoKind::BrokenPipe,
        IoKind::Other,
    ] {
        let expected = if is_transient(kind) { ServeStep::Continue } else { ServeStep::Fail };
        assert_eq!(serve(ServeEvent::AcceptFailed(kind)), expected);
    }
    assert!(is_transient(IoKind::ConnectionReset));
    assert!(!is_transient(IoKind::Other));
}

#[test]
fn draining_waits_for_connections_until_its_deadline() {
    assert_eq!(drain(DrainEvent::Finished), DrainStep::Wait);
    assert_eq!(drain(DrainEvent::Empty), DrainStep::Done);
    assert_eq!(drain(DrainEvent::Deadline), DrainStep::AbortAll);
}

// ----------------------------------------------------------------- client binary

#[test]
fn commands_parse() {
    assert_eq!(
        cli::parse_args(args(&["health"])).expect("parses"),
        cli::Invocation::Run { command: Command::Health, endpoint: None }
    );
    assert_eq!(
        cli::parse_args(args(&["runtime"])).expect("parses"),
        cli::Invocation::Run { command: Command::Runtime, endpoint: None }
    );
}

#[test]
fn endpoint_may_precede_or_follow_the_command() {
    let before = cli::parse_args(args(&["--endpoint", "x", "health"])).expect("parses");
    let after = cli::parse_args(args(&["health", "--endpoint", "x"])).expect("parses");
    assert_eq!(before, after);
}

#[test]
fn missing_command_is_an_error() {
    let err = cli::parse_args(args(&[])).expect_err("must fail");
    assert!(err.contains("no command"), "{err}");
}

#[test]
fn unknown_command_and_option_are_distinguished() {
    let command = cli::parse_args(args(&["frobnicate"])).expect_err("must fail");
    assert!(command.contains("unrecognised command"), "{command}");
    let option = cli::parse_args(args(&["--frobnicate"])).expect_err("must fail");
    assert!(option.contains("unrecognised option"), "{option}");
}

#[test]
fn second_command_is_rejected_rather_than_silently_ignored() {
    let err = cli::parse_args(args(&["health", "runtime"])).expect_err("must fail");
    assert!(err.contains("runtime"), "{err}");
}

#[test]
fn help_and_version_short_circuit() {
    assert_eq!(
        cli::parse_args(args(&["health", "--help"])).expect("parses"),
        cli::Invocation::Help
    );
    assert_eq!(
        cli::parse_args(args(&["-V"])).expect("parses"),
        cli::Invocation::Version
    );
}

#[test]
fn the_client_answers_a_command_line_that_asks_for_no_request() {
    let answer = |values: &[&str]| cli::answer_invocation(&cli::parse_args(args(values)));
    assert_eq!(answer(&["--help"]).expect("answered").stdout, cli::USAGE);
    assert_eq!(answer(&["-V"]).expect("answered").stdout, "mehoy 0.1.0\n");
    let wrong = answer(&["--endpoint"]).expect("answered");
    assert_eq!(wrong.code, EXIT_USAGE);
    assert_eq!(
        wrong.stderr,
        format!("mehoy: --endpoint requires an address\n{}", cli::USAGE)
    );
    assert!(answer(&["health"]).is_none());
}

#[test]
fn the_client_prints_what_the_daemon_said() {
    assert_eq!(health_output(&Health { status: HealthStatus::Serving }), "ok");
    assert_eq!(health_output(&Health { status: HealthStatus::ShuttingDown }), "shutting down");
    assert_eq!(runtime_output(&runtime_info()), "mehoyd 0.1.0\nprotocol 1.0");
    let newer = RuntimeInfo {
        protocol: ProtocolVersion { major: 2, minor: 11 },
        ..runtime_info()
    };
    assert_eq!(
        runtime_output(&newer),
        "mehoyd 0.1.0\nprotocol 2.11  (incompatible with this client)"
    );
    assert_eq!(
        cli::runtime_failed("no threads").stderr,
        "mehoy: cannot start the async runtime: no threads\n"
    );
}

#[test]
fn exit_codes_tell_a_failed_request_from_an_absent_daemon() {
    let done = cli::finish(Ok("ok".to_owned()));
    assert_eq!(done.stdout, "ok\n");
    assert_eq!(done.code, 0);
    let absent = cli::finish(Err(ClientError::Transport(EndpointError::NotRunning {
        address: EndpointAddress::new("/run/x"),
    })));
    assert_eq!(absent.code, EXIT_NOT_RUNNING);
    assert_eq!(
        absent.stderr,
        "mehoy: no daemon is listening on /run/x\nmehoy: start one with `mehoyd`, or set \
         MEHOY_ENDPOINT\n"
    );
    let failed = cli::finish(Err(ClientError::Malformed("EOF".to_owned())));
    assert_eq!(failed.code, EXIT_FAILURE);
    assert_eq!(failed.stderr, "mehoy: unreadable response: EOF\n");
}

// ----------------------------------------------------------------------- client

fn client() -> Client {
    Client::new(EndpointAddress::new("/run/x"))
}

/// What the daemon answers to a request of the client, and what is made of its body.
fn exchange(path: &str) -> (Fetched, Result<Health, String>) {
    let head = client().request_head(path);
    let reply = route(&head.method, &head.path);
    let decoded = match &reply.body {
        ReplyBody::Health(health) => Ok(*health),
        _ => Err("missing field `status`".to_owned()),
    };
    let error = match reply.body {
        ReplyBody::Error(body) => Some(body),
        _ => None,
    };
    (Fetched::Answered { status: reply.status, body: b"{}".to_vec(), error }, decoded)
}

#[test]
fn a_request_names_the_local_authority() {
    let head = client().request_head(PATH_RUNTIME);
    assert_eq!(head.method, "GET");
    assert_eq!(head.path, "/v1/runtime");
    assert!(head.headers == vec![header("host", LOCAL_AUTHORITY)]);
    assert_eq!(client().address().as_str(), "/run/x");
}

#[test]
fn health_round_trips_over_the_endpoint() {
    let (fetched, decoded) = exchange(PATH_HEALTH);
    let health = client().health(fetched, decoded).expect("daemon answers health");
    assert_eq!(health.status, HealthStatus::Serving);
}

#[test]
fn runtime_reports_a_compatible_protocol() {
    let fetched = Fetched::Answered { status: 200, body: b"{}".to_vec(), error: None };
    let info = client().runtime(fetched, Ok(runtime_info())).expect("daemon answers runtime");
    assert_eq!(info.runtime.name, "mehoyd");
    assert_eq!(info.runtime.version, "0.1.0");
    assert!(
        ProtocolVersion::current().is_compatible_with(info.protocol),
        "daemon protocol {:?} is not compatible with this client",
        info.protocol
    );
}

#[test]
fn unknown_route_is_reported_as_a_daemon_error() {
    let (fetched, _) = exchange("/definitely-not-a-route");
    match client().raw_get(fetched).expect_err("unknown route must fail") {
        ClientError::Daemon { status, code, .. } => {
            assert_eq!(status, 404);
            assert_eq!(code, "not_found");
        }
        other => panic!("expected a daemon error, got {}", other.to_string()),
    }
}

#[test]
fn client_reports_not_running_when_no_daemon_is_listening() {
    let address = EndpointAddress::new("/run/x");
    let unreachable =
        || Fetched::Unreachable(EndpointError::NotRunning { address: EndpointAddress::new("/run/x") });
    match client().health(unreachable(), Err("nothing came".to_owned())) {
        Err(ClientError::Transport(EndpointError::NotRunning { address: reported })) => {
            assert_eq!(reported, address);
        }
        Err(other) => panic!("expected NotRunning, got {}", other.to_string()),
        Ok(_) => panic!("no daemon is listening, so this must not succeed"),
    }
    assert_eq!(
        client().raw_get(unreachable()).expect_err("unreachable").to_string(),
        "no daemon is listening on /run/x"
    );
}

#[test]
fn an_answer_that_cannot_be_read_is_told_from_one_that_failed() {
    let answered = |status| Fetched::Answered {
        status,
        body: b"not \xff json".to_vec(),
        error: None,
    };
    let decoded = || Err::<Health, String>("expected value".to_owned());
    assert_eq!(
        client().health(answered(200), decoded()).expect_err("unreadable").to_string(),
        "unreadable response: expected value"
    );
    assert_eq!(
        client().health(answered(503), decoded()).expect_err("failed").to_string(),
        "daemon returned 503 Service Unavailable (unknown): not \u{fffd} json"
    );
    assert_eq!(
        client()
            .get(Fetched::Failed("reset".to_owned()), Ok(1))
            .expect_err("failed")
            .to_string(),
        "connection failed: reset"
    );
    assert_eq!(client().get(answered(204), Ok(7)).expect("a value"), 7);
    assert_eq!(client().raw_get(answered(200)).expect("a body"), b"not \xff json");
}

#[test]
fn a_client_needs_an_endpoint() {
    let found = Client::resolve(Ok(EndpointAddress::new("e"))).expect("a client");
    assert_eq!(found.address().as_str(), "e");
    let missing = EndpointError::NoDefaultLocation { reason: "why".to_owned() };
    assert!(matches!(
        Client::resolve(Err(missing)),
        Err(ClientError::Transport(EndpointError::NoDefaultLocation { .. }))
    ));
}

// ------------------------------------------------------------------------- http

#[test]
fn statuses_are_put_in_words() {
    assert_eq!(status_words(200), "200 OK");
    assert_eq!(status_words(404), "404 Not Found");
    assert_eq!(status_words(599), "599 <unknown status code>");
    assert!(is_success(200) && is_success(299));
    assert!(!is_success(199) && !is_success(300));
}
