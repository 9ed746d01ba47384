//! The runtime daemon: what it answers, when it stops accepting, how it is invoked
//! and what it reports.

pub mod server;
pub mod service;

use vstd::prelude::*;
use vstd::string::*;

use crate::text::{opt_text, same_text, texts};
use crate::transport::{endpoint_fault_text, EndpointAddress, EndpointError, EndpointFault};

verus! {

/// How the daemon is used.
pub const USAGE: &'static str =
    "mehoyd, the Mehoy runtime daemon\n\nUsage:\n  mehoyd [options]\n\nOptions:\n  --endpoint <address>  Listen on this endpoint instead of the per-user default\n  -h, --help            Print this message\n  -V, --version         Print the version\n\nEnvironment:\n  MEHOY_ENDPOINT        Same as --endpoint, used when the flag is absent\n";

/// What the daemon was asked to do.
#[derive(Debug, PartialEq, Eq)]
pub enum Invocation {
    Serve { endpoint: Option<String> },
    Help,
    Version,
}

/// What an [`Invocation`] says.
pub enum Asked {
    Serve { endpoint: Option<Seq<char>> },
    Help,
    Version,
}

impl Invocation {
    pub open spec fn view(&self) -> Asked {
        match self {
            Invocation::Serve { endpoint } => Asked::Serve { endpoint: opt_text(*endpoint) },
            Invocation::Help => Asked::Help,
            Invocation::Version => Asked::Version,
        }
    }
}

/// What a command line asks for, with an endpoint given so far.
pub open spec fn asked(args: Seq<Seq<char>>, endpoint: Option<Seq<char>>) -> Result<
    Asked,
    Seq<char>,
>
    decreases args.len(),
{
    if args.len() == 0 {
        Ok(Asked::Serve { endpoint })
    } else if args[0] == "-h"@ || args[0] == "--help"@ {
        Ok(Asked::Help)
    } else if args[0] == "-V"@ || args[0] == "--version"@ {
        Ok(Asked::Version)
    } else if args[0] == "--endpoint"@ {
        if args.len() == 1 {
            Err("--endpoint requires an address"@)
        } else {
            asked(args.skip(2), Some(args[1]))
        }
    } else {
        Err("unrecognised argument: "@ + args[0])
    }
}

/// Reads a command line. The last endpoint given is the one that counts.
pub fn parse_args(args: Vec<String>) -> (result: Result<Invocation, String>)
    ensures
        match (result, asked(texts(args@), None)) {
            (Ok(invocation), Ok(a)) => invocation@ == a,
            (Err(message), Err(m)) => message@ == m,
            _ => false,
        },
{
    let mut endpoint: Option<String> = None;
    let mut i: usize = 0;
    let ghost all = texts(args@);
    assert(all.skip(0) =~= all);
    while i < args.len()
        invariant
            i <= args@.len(),
            all == texts(args@),
            asked(all, None) == asked(all.skip(i as int), opt_text(endpoint)),
        decreases args@.len() - i,
    {
        let arg = args[i].as_str();
        let ghost rest = all.skip(i as int);
        assert(rest[0] == arg@);
        if same_text(arg, "-h") || same_text(arg, "--help") {
            return Ok(Invocation::Help);
        }
        if same_text(arg, "-V") || same_text(arg, "--version") {
            return Ok(Invocation::Version);
        }
        if same_text(arg, "--endpoint") {
            if i + 1 >= args.len() {
                return Err("--endpoint requires an address".to_owned());
            }
            assert(rest[1] == args@[i + 1]@);
            assert(rest.skip(2) =~= all.skip(i + 2));
            endpoint = Some(args[i + 1].clone());
            i = i + 2;
        } else {
            let mut message = "unrecognised argument: ".to_owned();
            message.append(arg);
            return Err(message);
        }
    }
    Ok(Invocation::Serve { endpoint })
}

/// What a program prints and how it exits. Each text is printed as it is.
#[derive(Debug, PartialEq, Eq)]
pub struct Report {
    pub stdout: String,
    pub stderr: String,
    pub code: u8,
}

/// What a [`Report`] says.
pub struct Printed {
    pub stdout: Seq<char>,
    pub stderr: Seq<char>,
    pub code: u8,
}

impl Report {
    pub open spec fn view(&self) -> Printed {
        Printed { stdout: self.stdout@, stderr: self.stderr@, code: self.code }
    }
}

/// The exit code of success.
pub const EXIT_SUCCESS: u8 = 0;

/// The exit code of a failure.
pub const EXIT_FAILURE: u8 = 1;

/// The exit code for a command line that was invalid.
pub const EXIT_USAGE: u8 = 2;

/// The exit code for an endpoint that another daemon holds.
pub const EXIT_ALREADY_RUNNING: u8 = 3;

/// What is printed for a command line that does not ask to serve, or that is
/// invalid; `None` is to serve.
pub open spec fn answer(asked: Result<Asked, Seq<char>>) -> Option<Printed> {
    match asked {
        Ok(Asked::Help) => Some(
            Printed { stdout: USAGE@, stderr: Seq::empty(), code: EXIT_SUCCESS },
        ),
        Ok(Asked::Version) => Some(
            Printed { stdout: "mehoyd 0.1.0\n"@, stderr: Seq::empty(), code: EXIT_SUCCESS },
        ),
        Ok(Asked::Serve { .. }) => None,
        Err(message) => Some(
            Printed {
                stdout: Seq::empty(),
                stderr: "mehoyd: "@ + message + "\n"@ + USAGE@,
                code: EXIT_USAGE,
            },
        ),
    }
}

/// Answers a command line that does not ask to serve.
pub fn answer_invocation(parsed: &Result<Invocation, String>) -> (report: Option<Report>)
    ensures
        match (report, answer(match *parsed {
            Ok(invocation) => Ok::<Asked, Seq<char>>(invocation@),
            Err(message) => Err(message@),
        })) {
            (Some(r), Some(p)) => r@ == p,
            (None, None) => true,
            _ => false,
        },
{
    match parsed {
        Ok(Invocation::Help) => Some(
            Report { stdout: USAGE.to_owned(), stderr: String::new(), code: EXIT_SUCCESS },
        ),
        Ok(Invocation::Version) => Some(
            Report {
                stdout: "mehoyd 0.1.0\n".to_owned(),
                stderr: String::new(),
                code: EXIT_SUCCESS,
            },
        ),
        Ok(Invocation::Serve { .. }) => None,
        Err(message) => {
            let mut stderr = "mehoyd: ".to_owned();
            stderr.append(message.as_str());
            stderr.append("\n");
            stderr.append(USAGE);
            Some(Report { stdout: String::new(), stderr, code: EXIT_USAGE })
        },
    }
}

/// A failure on one line of standard error.
pub open spec fn failed(message: Seq<char>) -> Printed {
    Printed {
        stdout: Seq::empty(),
        stderr: "mehoyd: "@ + message + "\n"@,
        code: EXIT_FAILURE,
    }
}

fn failure(message: &str) -> (report: Report)
    ensures
        report@ == failed(message@),
{
    let mut stderr = "mehoyd: ".to_owned();
    stderr.append(message);
    stderr.append("\n");
    Report { stdout: String::new(), stderr, code: EXIT_FAILURE }
}

/// The endpoint to serve on: the one asked for, else the resolved one, or the report
/// that there is none.
pub fn choose_endpoint(
    asked: Option<String>,
    resolved: Result<EndpointAddress, EndpointError>,
) -> (result: Result<EndpointAddress, Report>)
    ensures
        match asked {
            Some(value) => result matches Ok(address) && address@ == value@,
            None => match resolved {
                Ok(address) => result == Ok::<EndpointAddress, Report>(address),
                Err(error) => result matches Err(report) && report@ == failed(
                    endpoint_fault_text(error@),
                ),
            },
        },
{
    match asked {
        Some(value) => Ok(EndpointAddress::new(value.as_str())),
        None => match resolved {
            Ok(address) => Ok(address),
            Err(error) => Err(failure(error.to_string().as_str())),
        },
    }
}

/// The report that the asynchronous runtime could not be started.
pub fn runtime_failed(reason: &str) -> (report: Report)
    ensures
        report@ == failed("cannot start the async runtime: "@ + reason@),
{
    let mut message = "cannot start the async runtime: ".to_owned();
    message.append(reason);
    failure(message.as_str())
}

/// What is printed when the endpoint could not be bound. A daemon that is already
/// running has an exit code of its own; any other failure comes with a hint.
pub open spec fn unbound(fault: EndpointFault) -> Printed {
    if fault is AlreadyRunning {
        Printed { code: EXIT_ALREADY_RUNNING, ..failed(endpoint_fault_text(fault)) }
    } else {
        Printed {
            stderr: failed(endpoint_fault_text(fault)).stderr
                + "mehoyd: set MEHOY_ENDPOINT to choose a different endpoint\n"@,
            ..failed(endpoint_fault_text(fault))
        }
    }
}

/// The report that the endpoint could not be bound.
pub fn bind_failed(error: &EndpointError) -> (report: Report)
    ensures
        report@ == unbound(error@),
{
    let mut report = failure(error.to_string().as_str());
    match error {
        EndpointError::AlreadyRunning { .. } => {
            report.code = EXIT_ALREADY_RUNNING;
        },
        _ => {
            report.stderr.append("mehoyd: set MEHOY_ENDPOINT to choose a different endpoint\n");
        },
    }
    report
}

/// The line that says where the daemon listens.
pub fn listening(address: &EndpointAddress) -> (line: String)
    ensures
        line@ == "mehoyd 0.1.0 listening on "@ + address@ + "\n"@,
{
    let mut line = "mehoyd 0.1.0 listening on ".to_owned();
    line.append(address.as_str());
    line.append("\n");
    line
}

/// The report at the end of serving.
pub fn served(outcome: Result<(), String>) -> (report: Report)
    ensures
        report@ == match outcome {
            Ok(()) => Printed {
                stdout: "mehoyd: shut down\n"@,
                stderr: Seq::empty(),
                code: EXIT_SUCCESS,
            },
            Err(reason) => failed(reason@),
        },
{
    match outcome {
        Ok(()) => Report {
            stdout: "mehoyd: shut down\n".to_owned(),
            stderr: String::new(),
            code: EXIT_SUCCESS,
        },
        Err(reason) => failure(reason.as_str()),
    }
}

/// Endpoints as they are given on a command line, each behind its flag.
pub open spec fn endpoint_args(addresses: Seq<Seq<char>>) -> Seq<Seq<char>>
    decreases addresses.len(),
{
    if addresses.len() == 0 {
        Seq::empty()
    } else {
        seq!["--endpoint"@, addresses[0]] + endpoint_args(addresses.drop_first())
    }
}

/// The flags of a command line are different words.
pub proof fn flags_are_different_words()
    ensures
        "--endpoint"@ != "-h"@,
        "--endpoint"@ != "--help"@,
        "--endpoint"@ != "-V"@,
        "--endpoint"@ != "--version"@,
        "-V"@ != "-h"@,
        "-V"@ != "--help"@,
        "--version"@ != "-h"@,
        "--version"@ != "--help"@,
{
    reveal_strlit("-h");
    reveal_strlit("--help");
    reveal_strlit("-V");
    reveal_strlit("--version");
    reveal_strlit("--endpoint");
    assert("-h"@.len() == 2 && "--help"@.len() == 6 && "-V"@.len() == 2 && "--version"@.len() == 9
        && "--endpoint"@.len() == 10);
    assert("-V"@[1] == 'V' && "-h"@[1] == 'h');
}

proof fn endpoints_are_read(
    addresses: Seq<Seq<char>>,
    rest: Seq<Seq<char>>,
    endpoint: Option<Seq<char>>,
)
    ensures
        asked(endpoint_args(addresses) + rest, endpoint) == asked(
            rest,
            if addresses.len() == 0 {
                endpoint
            } else {
                Some(addresses.last())
            },
        ),
    decreases addresses.len(),
{
    flags_are_different_words();
    if addresses.len() == 0 {
        assert(endpoint_args(addresses) + rest =~= rest);
    } else {
        let tail = addresses.drop_first();
        let whole = endpoint_args(addresses) + rest;
        assert(whole[0] == "--endpoint"@ && whole[1] == addresses[0]);
        assert(whole.skip(2) =~= endpoint_args(tail) + rest);
        endpoints_are_read(tail, rest, Some(addresses[0]));
    }
}

/// A command line asks the daemon to serve on the last endpoint it gives, whatever that
/// is, and on none of its own where it gives none; behind any number of them, help and
/// version are asked for by their flags, a flag without an address is refused, and so is
/// any other word, which is named.
pub proof fn a_command_line_asks_for_what_it_says(
    addresses: Seq<Seq<char>>,
    word: Seq<char>,
    rest: Seq<Seq<char>>,
)
    ensures
        asked(endpoint_args(addresses), None) == Ok::<Asked, Seq<char>>(
            Asked::Serve {
                endpoint: if addresses.len() == 0 {
                    None
                } else {
                    Some(addresses.last())
                },
            },
        ),
        word == "-h"@ || word == "--help"@ ==> asked(
            endpoint_args(addresses) + (seq![word] + rest),
            None,
        ) == Ok::<Asked, Seq<char>>(Asked::Help),
        word == "-V"@ || word == "--version"@ ==> asked(
            endpoint_args(addresses) + (seq![word] + rest),
            None,
        ) == Ok::<Asked, Seq<char>>(Asked::Version),
        asked(endpoint_args(addresses) + seq!["--endpoint"@], None) == Err::<Asked, Seq<char>>(
            "--endpoint requires an address"@,
        ),
        word != "-h"@ && word != "--help"@ && word != "-V"@ && word != "--version"@ && word
            != "--endpoint"@ ==> asked(endpoint_args(addresses) + (seq![word] + rest), None)
            == Err::<Asked, Seq<char>>("unrecognised argument: "@ + word),
{
    flags_are_different_words();
    let none = Seq::<Seq<char>>::empty();
    assert(endpoint_args(addresses) + none =~= endpoint_args(addresses));
    endpoints_are_read(addresses, none, None);
    endpoints_are_read(addresses, seq![word] + rest, None);
    endpoints_are_read(addresses, seq!["--endpoint"@], None);
}

/// What the daemon exits with tells what happened: 0 where it did what it was asked, 2
/// for a command line it could not read, 3 for an endpoint that another daemon holds,
/// and 1 for any other failure, which is shown as it is.
pub proof fn the_daemon_exits_with_what_happened(
    asked: Result<Asked, Seq<char>>,
    fault: EndpointFault,
    message: Seq<char>,
)
    ensures
        answer(asked) is None <==> (asked matches Ok(a) && a is Serve),
        asked matches Ok(a) && !(a is Serve) ==> answer(asked)->0.code == 0 && answer(
            asked,
        )->0.stderr.len() == 0,
        asked is Err ==> answer(asked)->0.code == 2 && answer(asked)->0.stdout.len() == 0,
        unbound(fault).code == 3 <==> fault is AlreadyRunning,
        !(fault is AlreadyRunning) ==> unbound(fault).code == 1,
        failed(message) == (Printed {
            stdout: Seq::empty(),
            stderr: "mehoyd: "@ + message + "\n"@,
            code: 1,
        }),
{
}

/// What went wrong is shown whole on a line of its own, behind the name of the program: a
/// command line that could not be read with the usage behind it, and an endpoint that
/// could not be had with what to do about it, unless another daemon holds it.
pub proof fn the_daemon_shows_what_went_wrong(message: Seq<char>, fault: EndpointFault)
    ensures
        answer(Ok(Asked::Help))->0.stdout == USAGE@,
        answer(Ok(Asked::Version))->0.stdout == "mehoyd 0.1.0\n"@,
        answer(Err(message))->0.stderr == "mehoyd: "@ + message + "\n"@ + USAGE@,
        unbound(fault).stdout.len() == 0,
        fault is AlreadyRunning ==> unbound(fault).stderr == "mehoyd: "@ + endpoint_fault_text(
            fault,
        ) + "\n"@,
        !(fault is AlreadyRunning) ==> exists|hint: Seq<char>|
            hint.len() > 0 && unbound(fault).stderr == #[trigger] ("mehoyd: "@
                + endpoint_fault_text(fault) + "\n"@ + hint),
{
    let hint = "mehoyd: set MEHOY_ENDPOINT to choose a different endpoint\n"@;
    reveal_strlit("mehoyd: set MEHOY_ENDPOINT to choose a different endpoint\n");
    if !(fault is AlreadyRunning) {
        assert(unbound(fault).stderr == "mehoyd: "@ + endpoint_fault_text(fault) + "\n"@ + hint);
    }
}

} // verus!
