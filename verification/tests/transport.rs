use mehoy::transport::trace::{stderr_tracing_enabled, EndpointEvent, ErrorFacts, Stage};
use mehoy::transport::unix;
use mehoy::transport::unix::{
    clear_stale_socket, endpoint_directory, ensure_private_directory, DirectoryLook,
    DirectoryStep, Endpoint, Occupant, SocketProbe, SocketStep,
};
use mehoy::transport::windows;
use mehoy::transport::windows::{security_descriptor_definition, ConnectStep};
use mehoy::transport::{EndpointAddress, EndpointError, IoKind};

fn platform_default() -> Result<EndpointAddress, EndpointError> {
    unix::default_address(None, Some(b"/tmp"), 1000)
}

#[test]
fn address_round_trips_through_display() {
    let addr = EndpointAddress::new("some-endpoint");
    assert_eq!(addr.as_str(), "some-endpoint");
    assert_eq!(addr.to_string(), "some-endpoint");
    assert_eq!(addr.copy(), addr);
}

#[test]
fn default_address_is_available_on_this_platform() {
    let addr = platform_default().expect("platform provides a default");
    assert!(
        !addr.as_str().is_empty(),
        "default endpoint address must not be empty"
    );
}

#[test]
fn resolved_default_is_per_user() {
    // The default must not be a fixed system-wide location, or two accounts on one
    // machine would share a daemon.
    let generic = ["/tmp/mehoyd.sock", r"\\.\pipe\mehoyd"];
    let pipe = windows::default_address(Ok("S-1-5-21-1-2-3-1001".to_owned()));
    for addr in [platform_default(), pipe] {
        let addr = addr.expect("platform provides a default");
        assert!(
            !generic.contains(&addr.as_str()),
            "default endpoint {} is not user-specific",
            addr.to_string()
        );
    }
    let other = unix::default_address(None, Some(b"/tmp"), 1001).expect("a default");
    assert_ne!(platform_default().expect("a default"), other);
}

#[test]
fn the_runtime_directory_comes_before_the_temporary_one() {
    let shown = |runtime: Option<&[u8]>, tmp: Option<&[u8]>| {
        unix::default_address(runtime, tmp, 7).expect("a default").to_string()
    };
    assert_eq!(shown(Some(b"/run/user/7"), Some(b"/var/tmp")), "/run/user/7/mehoy/mehoyd.sock");
    assert_eq!(shown(Some(b"/run/user/7/"), None), "/run/user/7/mehoy/mehoyd.sock");
    assert_eq!(shown(Some(b""), Some(b"/var/tmp")), "/var/tmp/mehoy-7/mehoyd.sock");
    assert_eq!(shown(None, Some(b"")), "/tmp/mehoy-7/mehoyd.sock");
    assert_eq!(shown(None, None), "/tmp/mehoy-7/mehoyd.sock");
}

#[test]
fn a_directory_that_is_not_text_gives_no_default() {
    match unix::default_address(Some(b"/run/\xff"), None, 7) {
        Err(EndpointError::NoDefaultLocation { reason }) => assert_eq!(
            reason,
            "path /run/\u{fffd}/mehoy/mehoyd.sock is not valid UTF-8"
        ),
        other => panic!("expected no default location, got {other:?}"),
    }
}

#[test]
fn a_configured_endpoint_comes_before_the_default() {
    let resolve = |configured: Option<&str>| {
        EndpointAddress::resolve(configured, Ok(EndpointAddress::new("fallback")))
            .expect("an address")
            .to_string()
    };
    assert_eq!(resolve(Some("mine")), "mine");
    assert_eq!(resolve(Some("")), "fallback");
    assert_eq!(resolve(Some(" \t")), " \t");
    assert_eq!(resolve(None), "fallback");
    let missing = EndpointError::NoDefaultLocation { reason: "why".to_owned() };
    assert_eq!(
        EndpointAddress::resolve(None, Err(missing)).expect_err("no address").to_string(),
        "cannot determine a default endpoint location: why"
    );
}

#[test]
fn endpoint_failures_are_put_in_words() {
    let address = || EndpointAddress::new("x");
    assert_eq!(
        EndpointError::AlreadyRunning { address: address() }.to_string(),
        "a daemon is already listening on x"
    );
    assert_eq!(
        EndpointError::NotRunning { address: address() }.to_string(),
        "no daemon is listening on x"
    );
    assert_eq!(
        EndpointError::InsecureDirectory { path: "p".to_owned(), reason: "r".to_owned() }
            .to_string(),
        "refusing to use endpoint directory p: r"
    );
    assert_eq!(
        EndpointError::UnexpectedOccupant { path: "p".to_owned(), reason: "r".to_owned() }
            .to_string(),
        "refusing to replace p: r"
    );
    assert_eq!(
        EndpointError::Io("r".to_owned()).to_string(),
        "endpoint transport failure: r"
    );
}

// ------------------------------------------------------------------------- unix

fn directory(mode: u32) -> DirectoryLook {
    DirectoryLook::Found { is_symlink: false, is_dir: true, uid: 1000, mode }
}

#[test]
fn a_world_accessible_endpoint_directory_is_refused() {
    // An ordinary directory creation produces mode 0755 under a typical umask, which
    // is exactly this.
    match ensure_private_directory("/tmp/x", directory(0o40755), 1000) {
        Err(EndpointError::InsecureDirectory { reason, path }) => {
            assert!(reason.contains("beyond the owner"), "{reason}");
            assert_eq!(reason, "mode 0755 grants access beyond the owner");
            assert_eq!(path, "/tmp/x");
        }
        other => panic!("expected InsecureDirectory, got {other:?}"),
    }
}

#[test]
fn a_directory_created_by_the_runtime_is_private() {
    // The directory must be private at creation, not fixed afterwards.
    match ensure_private_directory("/tmp/x", DirectoryLook::NotFound, 1000) {
        Ok(DirectoryStep::Create { mode }) => assert_eq!(
            mode, 0o700,
            "the endpoint directory should be owner-only, got {mode:04o}"
        ),
        other => panic!("expected a directory to be created, got {other:?}"),
    }
}

#[test]
fn only_an_owned_directory_without_other_access_is_used() {
    let verdict = |look| match ensure_private_directory("/d", look, 1000) {
        Ok(step) => format!("{step:?}"),
        Err(error) => error.to_string(),
    };
    assert_eq!(verdict(directory(0o40700)), "Use");
    assert_eq!(verdict(directory(0o500)), "Use");
    assert!(verdict(directory(0o701)).contains("mode 0701"));
    assert!(verdict(directory(0o740)).contains("mode 0740"));
    assert!(
        verdict(DirectoryLook::Found { is_symlink: true, is_dir: true, uid: 1000, mode: 0o700 })
            .contains("refusing to use endpoint directory /d"),
    );
    assert!(
        verdict(DirectoryLook::Found { is_symlink: false, is_dir: false, uid: 1000, mode: 0o700 })
            .contains("refusing to use endpoint directory /d"),
    );
    assert_eq!(
        verdict(DirectoryLook::Found { is_symlink: false, is_dir: true, uid: 0, mode: 0o700 }),
        "refusing to use endpoint directory /d: owned by uid 0, expected uid 1000"
    );
    assert_eq!(
        verdict(DirectoryLook::Failed("denied".to_owned())),
        "endpoint transport failure: denied"
    );
}

#[test]
fn a_regular_file_at_the_endpoint_path_is_never_deleted() {
    // Existence is not liveness, but neither is it permission to delete.
    let address = EndpointAddress::new("/run/mehoyd.sock");
    let probe = SocketProbe::Refused(Ok(Occupant { is_socket: false, uid: 1000 }));
    match clear_stale_socket(&address, probe, 1000) {
        Err(EndpointError::UnexpectedOccupant { path, .. }) => {
            assert_eq!(path, "/run/mehoyd.sock");
        }
        other => panic!("expected UnexpectedOccupant, got {other:?}"),
    }
}

#[test]
fn a_stale_socket_is_reclaimed_rather_than_blocking_startup() {
    let address = EndpointAddress::new("/run/mehoyd.sock");
    let clear = |probe| match clear_stale_socket(&address, probe, 1000) {
        Ok(step) => format!("{step:?}"),
        Err(error) => error.to_string(),
    };
    let stale = SocketProbe::Refused(Ok(Occupant { is_socket: true, uid: 1000 }));
    assert_eq!(clear(stale), format!("{:?}", SocketStep::RemoveStale));
    assert_eq!(clear(SocketProbe::NotFound), format!("{:?}", SocketStep::Bind));
    assert_eq!(
        clear(SocketProbe::Connected),
        "a daemon is already listening on /run/mehoyd.sock"
    );
    let foreign = SocketProbe::Refused(Ok(Occupant { is_socket: true, uid: 0 }));
    assert!(clear(foreign).contains("socket is owned by uid 0"));
    assert_eq!(
        clear(SocketProbe::Refused(Err("gone".to_owned()))),
        "endpoint transport failure: gone"
    );
    assert_eq!(
        clear(SocketProbe::Failed("denied".to_owned())),
        "endpoint transport failure: denied"
    );
}

#[test]
fn a_second_daemon_is_refused() {
    let address = EndpointAddress::new("/run/mehoyd.sock");
    match clear_stale_socket(&address, SocketProbe::Connected, 1000) {
        Err(EndpointError::AlreadyRunning { address: reported }) => {
            assert_eq!(reported, address);
        }
        other => panic!("expected AlreadyRunning, got {other:?}"),
    }
    assert!(matches!(
        unix::bind_failed(&address, IoKind::AddrInUse, "in use".to_owned()),
        EndpointError::AlreadyRunning { .. }
    ));
    assert!(matches!(
        unix::bind_failed(&address, IoKind::Other, "denied".to_owned()),
        EndpointError::Io(_)
    ));
}

#[test]
fn an_absent_or_dead_endpoint_means_no_daemon_is_running() {
    let address = EndpointAddress::new("/run/mehoyd.sock");
    for kind in [IoKind::NotFound, IoKind::ConnectionRefused] {
        assert!(matches!(
            unix::connect_failed(&address, kind, "x".to_owned()),
            EndpointError::NotRunning { .. }
        ));
    }
    assert!(matches!(
        unix::connect_failed(&address, IoKind::BrokenPipe, "x".to_owned()),
        EndpointError::Io(_)
    ));
}

#[test]
fn an_endpoint_needs_a_directory_to_live_in() {
    let address = EndpointAddress::new("mehoyd.sock");
    assert!(endpoint_directory(&address, None).is_err());
    assert!(endpoint_directory(&address, Some(String::new())).is_err());
    assert_eq!(
        endpoint_directory(&address, Some("/run".to_owned())).expect("a directory"),
        "/run"
    );
}

fn claim(
    look: DirectoryLook,
    made: Result<(), String>,
    probe: SocketProbe,
    removed: Result<(), String>,
    bound: Result<(), (IoKind, String)>,
) -> Result<Endpoint, EndpointError> {
    let address = EndpointAddress::new("/run/m/mehoyd.sock");
    let claim = Endpoint::bind(&address, Some("/run/m".to_owned()))?;
    assert_eq!(claim.directory(), "/run/m");
    claim.looked(look, 1000)?.probed(made, probe, 1000)?.bound(removed, bound)
}

#[test]
fn an_endpoint_is_claimed_step_by_step() {
    let stale = || SocketProbe::Refused(Ok(Occupant { is_socket: true, uid: 1000 }));
    let endpoint = claim(DirectoryLook::NotFound, Ok(()), SocketProbe::NotFound, Ok(()), Ok(()))
        .expect("claimed");
    assert_eq!(endpoint.address().as_str(), "/run/m/mehoyd.sock");
    assert!(claim(directory(0o700), Ok(()), stale(), Ok(()), Ok(())).is_ok());

    let refused = |outcome: Result<Endpoint, EndpointError>| {
        outcome.expect_err("not claimed").to_string()
    };
    let no = || Err("denied".to_owned());
    let io = "endpoint transport failure: denied";
    assert_eq!(
        refused(claim(DirectoryLook::NotFound, no(), SocketProbe::NotFound, Ok(()), Ok(()))),
        io
    );
    // A directory that is there is not made, and nothing stale is not removed.
    assert!(claim(directory(0o700), no(), SocketProbe::NotFound, no(), Ok(())).is_ok());
    assert_eq!(refused(claim(directory(0o700), Ok(()), stale(), no(), Ok(()))), io);
    assert!(
        refused(claim(directory(0o777), Ok(()), SocketProbe::NotFound, Ok(()), Ok(())))
            .contains("mode 0777")
    );
    let in_use = Err((IoKind::AddrInUse, "in use".to_owned()));
    assert_eq!(
        refused(claim(directory(0o700), Ok(()), SocketProbe::NotFound, Ok(()), in_use)),
        "a daemon is already listening on /run/m/mehoyd.sock"
    );
    assert!(Endpoint::bind(&EndpointAddress::new("x"), None).is_err());
}

#[test]
fn the_steps_of_a_claim_say_what_to_do() {
    let address = EndpointAddress::new("/run/m/mehoyd.sock");
    let claim = Endpoint::bind(&address, Some("/run/m".to_owned()))
        .unwrap_or_else(|error| panic!("{}", error.to_string()))
        .looked(DirectoryLook::NotFound, 1000)
        .unwrap_or_else(|error| panic!("{}", error.to_string()));
    assert_eq!(claim.directory_step(), DirectoryStep::Create { mode: 0o700 });
    let stale = SocketProbe::Refused(Ok(Occupant { is_socket: true, uid: 1000 }));
    let claim = claim
        .probed(Ok(()), stale, 1000)
        .unwrap_or_else(|error| panic!("{}", error.to_string()));
    assert_eq!(claim.socket_step(), SocketStep::RemoveStale);
}

// ---------------------------------------------------------------------- windows

#[test]
fn descriptor_denies_network_before_allowing_the_user() {
    let sddl = security_descriptor_definition("S-1-5-21-1-2-3-1001");
    let deny = sddl
        .find("(D;;GA;;;NU)")
        .expect("network deny entry present");
    let allow = sddl
        .find("(A;;GA;;;S-1-5-21-1-2-3-1001)")
        .expect("user allow entry present");
    assert!(deny < allow, "deny entry must precede allow entry: {sddl}");
    assert!(sddl.starts_with("D:P"), "DACL must be protected: {sddl}");
}

#[test]
fn default_address_is_pipe_qualified_by_sid() {
    let addr = windows::default_address(Ok("S-1-5-21-1-2-3-1001".to_owned()))
        .expect("default is available");
    assert!(addr.as_str().starts_with(r"\\.\pipe\mehoyd-"));
    assert!(addr.as_str().contains("S-1-"), "expected a sid: {}", addr.to_string());
    assert_eq!(
        windows::default_address(Err("denied".to_owned()))
            .expect_err("no default")
            .to_string(),
        "cannot determine a default endpoint location: cannot read the current user's \
         identity: denied"
    );
}

#[test]
fn a_busy_pipe_is_tried_again_and_an_absent_one_means_no_daemon() {
    let address = EndpointAddress::new(r"\\.\pipe\mehoyd-x");
    assert!(matches!(
        windows::connect_failed(&address, IoKind::Other, Some(231), "busy".to_owned()),
        ConnectStep::TryAgain
    ));
    assert!(matches!(
        windows::connect_failed(&address, IoKind::NotFound, Some(2), "absent".to_owned()),
        ConnectStep::Fail(EndpointError::NotRunning { .. })
    ));
    assert!(matches!(
        windows::connect_failed(&address, IoKind::Other, Some(5), "denied".to_owned()),
        ConnectStep::Fail(EndpointError::Io(_))
    ));
    assert!(matches!(
        windows::bind_failed(&address, Some(5), "denied".to_owned()),
        EndpointError::AlreadyRunning { .. }
    ));
    assert!(matches!(
        windows::bind_failed(&address, None, "other".to_owned()),
        EndpointError::Io(_)
    ));
}

// ------------------------------------------------------------------------ trace

#[test]
fn failure_events_preserve_the_raw_operating_system_error() {
    let facts = ErrorFacts::from_io(
        "ResourceBusy".to_owned(),
        Some(231),
        "all pipe instances are busy".to_owned(),
    );
    let event = EndpointEvent::new(Stage::AcceptFailed, "test-endpoint", 3, false, 0)
        .with_error(facts);

    let facts = event.error.as_ref().expect("error recorded");
    assert_eq!(facts.raw_os_error, Some(231));

    let rendered = event.to_string();
    assert!(rendered.contains("raw_os_error=231"), "{rendered}");
    assert!(rendered.contains("listener_present=false"), "{rendered}");
    assert!(rendered.contains("generation=3"), "{rendered}");
    assert!(rendered.contains("address=test-endpoint"), "{rendered}");
}

#[test]
fn success_events_render_without_an_error_section() {
    let event = EndpointEvent::new(Stage::ReplacementCreated, "test-endpoint", 1, true, 0);
    let rendered = event.to_string();
    assert!(rendered.starts_with("replacement_created"), "{rendered}");
    assert!(!rendered.contains("raw_os_error"), "{rendered}");
    assert_eq!(
        rendered,
        "replacement_created address=test-endpoint generation=1 listener_present=true"
    );
}

#[test]
fn an_error_message_is_quoted_in_a_trace() {
    let facts = ErrorFacts::from_io("Other".to_owned(), None, "a \"b\"\n".to_owned());
    let event = EndpointEvent::new(Stage::EndpointClosed, "e", 0, false, 5).with_error(facts);
    assert_eq!(
        event.to_string(),
        "endpoint_closed address=e generation=0 listener_present=false kind=Other \
         raw_os_error=none message=\"a \\\"b\\\"\\n\""
    );
    assert_eq!(event.at, 5);
}

#[test]
fn tracing_is_asked_for_by_anything_but_nothing_and_zero() {
    assert!(stderr_tracing_enabled(Some("1")));
    assert!(stderr_tracing_enabled(Some("00")));
    assert!(stderr_tracing_enabled(Some("0")));
    assert!(!stderr_tracing_enabled(Some("")));
    assert!(!stderr_tracing_enabled(None));
}

#[test]
fn every_stage_has_its_own_name() {
    let stages = [
        Stage::InstanceCreated,
        Stage::ConnectWaitStarted,
        Stage::ConnectCompleted,
        Stage::ReplacementCreateStarted,
        Stage::ReplacementCreated,
        Stage::ConnectionHandedOff,
        Stage::EndpointClosed,
        Stage::AcceptFailed,
    ];
    for (i, a) in stages.iter().enumerate() {
        for (j, b) in stages.iter().enumerate() {
            assert_eq!(a.as_str() == b.as_str(), i == j);
        }
    }
}
