use mehoy::backend::identity::{find_banner, parse_banner, BackendFamily};

fn exe() -> &'static str {
    "llama-server"
}

#[test]
fn parses_a_real_banner() {
    // Backend loader lines precede the version line and must not confuse the parser.
    let banner = "load_backend: loaded RPC backend from ggml-rpc.dll\n\
                  load_backend: loaded Vulkan backend from ggml-vulkan.dll\n\
                  version: 9010 (d05fe1d7d)\n\
                  built with Clang 19.1.5 for Windows x86_64";
    let identity = parse_banner(exe(), banner);
    assert_eq!(identity.build.as_deref(), Some("9010"));
    assert_eq!(identity.commit.as_deref(), Some("d05fe1d7d"));
    assert_eq!(identity.family, BackendFamily::LlamaCpp);
}

#[test]
fn keeps_the_banner_verbatim() {
    let banner = "version: 9010 (d05fe1d7d)\nbuilt with Clang";
    let identity = parse_banner(exe(), banner);
    assert!(identity.banner.contains("built with Clang"));
}

#[test]
fn an_unrecognised_banner_is_still_recorded() {
    // Refusing to run against an unfamiliar build would be brittle against the
    // upstream churn this exists to record.
    let identity = parse_banner(exe(), "some future format");
    assert_eq!(identity.build, None);
    assert_eq!(identity.commit, None);
    assert_eq!(identity.banner, "some future format");
}

#[test]
fn a_version_without_a_commit_still_yields_a_build() {
    let identity = parse_banner(exe(), "version: 1234");
    assert_eq!(identity.build.as_deref(), Some("1234"));
    assert_eq!(identity.commit, None);
}

#[test]
fn display_names_the_build_and_executable() {
    let identity = parse_banner(exe(), "version: 9010 (d05fe1d7d)");
    let shown = identity.to_string();
    assert!(shown.contains("llama.cpp"), "{shown}");
    assert!(shown.contains("9010"), "{shown}");
    assert!(shown.contains("d05fe1d7d"), "{shown}");
    assert!(shown.contains("llama-server"), "{shown}");
}

#[test]
fn the_banner_is_kept_as_printed_and_the_first_version_line_decides() {
    let identity = parse_banner(exe(), "  noise\r\n version:  7 ( \nversion: 8 (x)\n\n");
    assert_eq!(identity.build.as_deref(), Some("7"));
    assert_eq!(identity.commit, None);
    assert_eq!(identity.banner, "  noise\r\n version:  7 ( \nversion: 8 (x)\n\n");
    assert_eq!(parse_banner(exe(), "version: 1234\n").banner, "version: 1234\n");
}

#[test]
fn an_empty_version_and_an_empty_revision_are_not_reported() {
    let identity = parse_banner(exe(), "version: ");
    assert_eq!(identity.build, None);
    assert_eq!(identity.commit, None);
    assert_eq!(parse_banner(exe(), "version: 3 ()").commit, None);
    assert_eq!(parse_banner(exe(), "version: 3 ()").to_string(), "llama.cpp build 3 at llama-server");
}

#[test]
fn a_copy_of_an_identity_is_the_same() {
    let identity = parse_banner(exe(), "version: 9010 (d05fe1d7d)");
    assert_eq!(identity.copy(), identity);
}

#[test]
fn the_banner_is_looked_for_on_both_streams() {
    assert_eq!(find_banner(b"version: 1", b"version: 2"), "version: 1");
    assert_eq!(find_banner(b" \n", b"version: 2"), "version: 2");
    assert_eq!(find_banner(b"\xffbuild", b""), "\u{fffd}build");
}
