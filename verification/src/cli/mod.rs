//! The command-line client: how it is invoked and what it reports.

pub mod client;

use vstd::prelude::*;
use vstd::string::*;

use crate::cli::client::{client_fault_text, ClientError, ClientFault};
use crate::daemon::{
    endpoint_args, flags_are_different_words, Printed, Report, EXIT_FAILURE, EXIT_SUCCESS,
    EXIT_USAGE,
};
use crate::protocol::{
    compatible, current_version, Health, HealthStatus, ProtocolVersion, RuntimeInfo,
};
use crate::text::{
    a_number_reads_back_from_its_decimal, decimal, decimal_u64, opt_text, reads_as, same_text,
    texts,
};
use crate::transport::{endpoint_fault_text, EndpointAddress, EndpointError};

verus! {

/// How the client is used.
pub const USAGE: &'static str =
    "mehoy, the Mehoy runtime client\n\nUsage:\n  mehoy [options] <command>\n\nCommands:\n  health     Report whether a daemon is serving\n  runtime    Report the daemon's identity and protocol version\n\nOptions:\n  --endpoint <address>  Talk to this endpoint instead of the per-user default\n  -h, --help            Print this message\n  -V, --version         Print the version\n\nEnvironment:\n  MEHOY_ENDPOINT        Same as --endpoint, used when the flag is absent\n\nExit codes:\n  0  success\n  1  the request failed\n  2  the command line was invalid\n  3  no daemon is listening\n";

/// Exit code reserved for a daemon that is not running, so scripts can tell that
/// apart from a request that failed for another reason.
pub const EXIT_NOT_RUNNING: u8 = 3;

/// What the client can be asked.
#[derive(Debug, Clone, Copy, PartialEq, Eq, Structural)]
pub enum Command {
    Health,
    Runtime,
}

/// What the client was asked to do.
#[derive(Debug, PartialEq, Eq)]
pub enum Invocation {
    Run { command: Command, endpoint: Option<String> },
    Help,
    Version,
}

/// What an [`Invocation`] says.
pub enum Asked {
    Run { command: Command, endpoint: Option<Seq<char>> },
    Help,
    Version,
}

impl Invocation {
    pub open spec fn view(&self) -> Asked {
        match self {
            Invocation::Run { command, endpoint } => Asked::Run {
                command: *command,
                endpoint: opt_text(*endpoint),
            },
            Invocation::Help => Asked::Help,
            Invocation::Version => Asked::Version,
        }
    }
}

/// The command a word names.
pub open spec fn command_named(word: Seq<char>) -> Option<Command> {
    if word == "health"@ {
        Some(Command::Health)
    } else if word == "runtime"@ {
        Some(Command::Runtime)
    } else {
        None
    }
}

/// Whether a word is written as an option.
pub open spec fn is_option(word: Seq<char>) -> bool {
    word.len() > 0 && word[0] == '-'
}

/// What a command line asks for, with a command and an endpoint given so far. A
/// second command is refused.
pub open spec fn asked(
    args: Seq<Seq<char>>,
    command: Option<Command>,
    endpoint: Option<Seq<char>>,
) -> Result<Asked, Seq<char>>
    decreases args.len(),
{
    if args.len() == 0 {
        match command {
            Some(command) => Ok(Asked::Run { command, endpoint }),
            None => Err("no command given"@),
        }
    } else if args[0] == "-h"@ || args[0] == "--help"@ {
        Ok(Asked::Help)
    } else if args[0] == "-V"@ || args[0] == "--version"@ {
        Ok(Asked::Version)
    } else if args[0] == "--endpoint"@ {
        if args.len() == 1 {
            Err("--endpoint requires an address"@)
        } else {
            asked(args.skip(2), command, Some(args[1]))
        }
    } else if command is None && command_named(args[0]) is Some {
        asked(args.skip(1), command_named(args[0]), endpoint)
    } else if is_option(args[0]) {
        Err("unrecognised option: "@ + args[0])
    } else {
        Err("unrecognised command: "@ + args[0])
    }
}

fn find_command(word: &str) -> (command: Option<Command>)
    ensures
        command == command_named(word@),
{
    if same_text(word, "health") {
        Some(Command::Health)
    } else if same_text(word, "runtime") {
        Some(Command::Runtime)
    } else {
        None
    }
}

fn written_as_option(word: &str) -> (yes: bool)
    ensures
        yes == is_option(word@),
{
    let chars = crate::text::chars_of(word);
    chars.len() > 0 && chars[0] == '-'
}

/// Reads a command line. The endpoint may stand before or after the command.
pub fn parse_args(args: Vec<String>) -> (result: Result<Invocation, String>)
    ensures
        match (result, asked(texts(args@), None, None)) {
            (Ok(invocation), Ok(a)) => invocation@ == a,
            (Err(message), Err(m)) => message@ == m,
            _ => false,
        },
{
    let mut endpoint: Option<String> = None;
    let mut command: Option<Command> = None;
    let mut i: usize = 0;
    let ghost all = texts(args@);
    assert(all.skip(0) =~= all);
    while i < args.len()
        invariant
            i <= args@.len(),
            all == texts(args@),
            asked(all, None, None) == asked(all.skip(i as int), command, opt_text(endpoint)),
        decreases args@.len() - i,
    {
        let arg = args[i].as_str();
        let ghost rest = all.skip(i as int);
        assert(rest[0] == arg@);
        if same_text(arg, "-h") || same_text(arg, "--help") {
            return Ok(Invocation::Help);
        }
        if same_text(arg, "-V") || same_text(arg, "--version") {
            return Ok(Invocation::Version);
        }
        if same_text(arg, "--endpoint") {
            if i + 1 >= args.len() {
                return Err("--endpoint requires an address".to_owned());
            }
            assert(rest[1] == args@[i + 1]@);
            assert(rest.skip(2) =~= all.skip(i + 2));
            endpoint = Some(args[i + 1].clone());
            i = i + 2;
        } else {
            let named: Option<Command> = find_command(arg);
            if command.is_none() && named.is_some() {
                assert(rest.skip(1) =~= all.skip(i + 1));
                command = named;
                i = i + 1;
            } else {
                let mut message = if written_as_option(arg) {
                    "unrecognised option: ".to_owned()
                } else {
                    "unrecognised command: ".to_owned()
                };
                message.append(arg);
                return Err(message);
            }
        }
    }
    match command {
        Some(command) => Ok(Invocation::Run { command, endpoint }),
        None => Err("no command given".to_owned()),
    }
}

/// An endpoint may stand before the command or after it, with the same meaning.
pub proof fn the_endpoint_may_stand_before_or_after(word: Seq<char>, address: Seq<char>)
    requires
        command_named(word) is Some,
    ensures
        asked(seq!["--endpoint"@, address, word], None, None) == asked(
            seq![word, "--endpoint"@, address],
            None,
            None,
        ),
{
    reveal_strlit("health");
    reveal_strlit("runtime");
    reveal_strlit("-h");
    reveal_strlit("--help");
    reveal_strlit("-V");
    reveal_strlit("--version");
    reveal_strlit("--endpoint");
    assert(word[0] == 'h' || word[0] == 'r');
    assert("-h"@[0] == '-' && "--help"@[0] == '-' && "-V"@[0] == '-' && "--version"@[0] == '-'
        && "--endpoint"@[0] == '-');
    assert("--endpoint"@ != "-h"@ && "--endpoint"@ != "--help"@ && "--endpoint"@ != "-V"@) by {
        assert("--endpoint"@.len() == 10 && "-h"@.len() == 2 && "--help"@.len() == 6
            && "-V"@.len() == 2);
    }
    assert("--endpoint"@ != "--version"@) by {
        assert("--version"@.len() == 9 && "--endpoint"@.len() == 10);
    }
    let before = seq!["--endpoint"@, address, word];
    let after = seq![word, "--endpoint"@, address];
    assert(before.skip(2) =~= seq![word]);
    assert(seq![word].skip(1) =~= Seq::empty());
    assert(after.skip(1) =~= seq!["--endpoint"@, address]);
    assert(seq!["--endpoint"@, address].skip(2) =~= Seq::empty());
    reveal_with_fuel(asked, 3);
}

/// What is printed for a command line that asks for no request, or that is invalid;
/// `None` is to make a request.
pub open spec fn answer(asked: Result<Asked, Seq<char>>) -> Option<Printed> {
    match asked {
        Ok(Asked::Help) => Some(
            Printed { stdout: USAGE@, stderr: Seq::empty(), code: EXIT_SUCCESS },
        ),
        Ok(Asked::Version) => Some(
            Printed { stdout: "mehoy 0.1.0\n"@, stderr: Seq::empty(), code: EXIT_SUCCESS },
        ),
        Ok(Asked::Run { .. }) => None,
        Err(message) => Some(
            Printed {
                stdout: Seq::empty(),
                stderr: "mehoy: "@ + message + "\n"@ + USAGE@,
                code: EXIT_USAGE,
            },
        ),
    }
}

/// Answers a command line that asks for no request.
pub fn answer_invocation(parsed: &Result<Invocation, String>) -> (report: Option<Report>)
    ensures
        match (report, answer(match *parsed {
            Ok(invocation) => Ok::<Asked, Seq<char>>(invocation@),
            Err(message) => Err(message@),
        })) {
            (Some(r), Some(p)) => r@ == p,
            (None, None) => true,
            _ => false,
        },
{
    match parsed {
        Ok(Invocation::Help) => Some(
            Report { stdout: USAGE.to_owned(), stderr: String::new(), code: EXIT_SUCCESS },
        ),
        Ok(Invocation::Version) => Some(
            Report {
                stdout: "mehoy 0.1.0\n".to_owned(),
                stderr: String::new(),
                code: EXIT_SUCCESS,
            },
        ),
        Ok(Invocation::Run { .. }) => None,
        Err(message) => {
            let mut stderr = "mehoy: ".to_owned();
            stderr.append(message.as_str());
            stderr.append("\n");
            stderr.append(USAGE);
            Some(Report { stdout: String::new(), stderr, code: EXIT_USAGE })
        },
    }
}

/// A failure on one line of standard error.
pub open spec fn failed(message: Seq<char>) -> Printed {
    Printed {
        stdout: Seq::empty(),
        stderr: "mehoy: "@ + message + "\n"@,
        code: EXIT_FAILURE,
    }
}

fn failure(message: &str) -> (report: Report)
    ensures
        report@ == failed(message@),
{
    let mut stderr = "mehoy: ".to_owned();
    stderr.append(message);
    stderr.append("\n");
    Report { stdout: String::new(), stderr, code: EXIT_FAILURE }
}

/// The endpoint to talk to: the one asked for, else the resolved one, or the report
/// that there is none.
pub fn choose_endpoint(
    asked: Option<String>,
    resolved: Result<EndpointAddress, EndpointError>,
) -> (result: Result<EndpointAddress, Report>)
    ensures
        match asked {
            Some(value) => result matches Ok(address) && address@ == value@,
            None => match resolved {
                Ok(address) => result == Ok::<EndpointAddress, Report>(address),
                Err(error) => result matches Err(report) && report@ == failed(
                    endpoint_fault_text(error@),
                ),
            },
        },
{
    match asked {
        Some(value) => Ok(EndpointAddress::new(value.as_str())),
        None => match resolved {
            Ok(address) => Ok(address),
            Err(error) => Err(failure(error.to_string().as_str())),
        },
    }
}

/// The report that the asynchronous runtime could not be started.
pub fn runtime_failed(reason: &str) -> (report: Report)
    ensures
        report@ == failed("cannot start the async runtime: "@ + reason@),
{
    let mut message = "cannot start the async runtime: ".to_owned();
    message.append(reason);
    failure(message.as_str())
}

/// The serving state in words.
pub fn health_output(health: &Health) -> (output: String)
    ensures
        output@ == match health.status {
            HealthStatus::Serving => "ok"@,
            HealthStatus::ShuttingDown => "shutting down"@,
        },
{
    match health.status {
        HealthStatus::Serving => "ok".to_owned(),
        HealthStatus::ShuttingDown => "shutting down".to_owned(),
    }
}

/// The daemon's identity and protocol in words, with a remark where this client
/// cannot talk to it.
pub open spec fn runtime_text(
    name: Seq<char>,
    version: Seq<char>,
    protocol: ProtocolVersion,
) -> Seq<char> {
    name + " "@ + version + "\nprotocol "@ + decimal(protocol.major as nat) + "."@ + decimal(
        protocol.minor as nat,
    ) + (if compatible(current_version(), protocol) {
        Seq::empty()
    } else {
        "  (incompatible with this client)"@
    })
}

/// The daemon's identity and protocol in words.
pub fn runtime_output(info: &RuntimeInfo) -> (output: String)
    ensures
        output@ == runtime_text(info.runtime.name@, info.runtime.version@, info.protocol),
{
    let mut output = info.runtime.name.clone();
    output.append(" ");
    output.append(info.runtime.version.as_str());
    output.append("\nprotocol ");
    output.append(decimal_u64(info.protocol.major as u64).as_str());
    output.append(".");
    output.append(decimal_u64(info.protocol.minor as u64).as_str());
    let ghost head = output@;
    if !ProtocolVersion::current().is_compatible_with(info.protocol) {
        output.append("  (incompatible with this client)");
    } else {
        assert(head + Seq::<char>::empty() =~= head);
    }
    output
}

/// What is printed at the end of a request. A daemon that is not running has an exit
/// code of its own and a hint.
pub open spec fn finished(outcome: Result<Seq<char>, ClientFault>) -> Printed {
    match outcome {
        Ok(output) => Printed {
            stdout: output + "\n"@,
            stderr: Seq::empty(),
            code: EXIT_SUCCESS,
        },
        Err(fault) => if fault is Transport && fault->Transport_0 is NotRunning {
            Printed {
                stderr: failed(client_fault_text(fault)).stderr
                    + "mehoy: start one with `mehoyd`, or set MEHOY_ENDPOINT\n"@,
                code: EXIT_NOT_RUNNING,
                ..failed(client_fault_text(fault))
            }
        } else {
            failed(client_fault_text(fault))
        },
    }
}

/// The report at the end of a request.
pub fn finish(outcome: Result<String, ClientError>) -> (report: Report)
    ensures
        report@ == finished(
            match outcome {
                Ok(output) => Ok::<Seq<char>, ClientFault>(output@),
                Err(error) => Err(error@),
            },
        ),
{
    match outcome {
        Ok(output) => {
            let mut stdout = output;
            stdout.append("\n");
            Report { stdout, stderr: String::new(), code: EXIT_SUCCESS }
        },
        Err(error) => {
            let mut report = failure(error.to_string().as_str());
            let absent: bool = match &error {
                ClientError::Transport(EndpointError::NotRunning { .. }) => true,
                _ => false,
            };
            if absent {
                report.stderr.append("mehoy: start one with `mehoyd`, or set MEHOY_ENDPOINT\n");
                report.code = EXIT_NOT_RUNNING;
            }
            report
        },
    }
}

proof fn endpoints_are_read(
    addresses: Seq<Seq<char>>,
    rest: Seq<Seq<char>>,
    command: Option<Command>,
    endpoint: Option<Seq<char>>,
)
    ensures
        asked(endpoint_args(addresses) + rest, command, endpoint) == asked(
            rest,
            command,
            if addresses.len() == 0 {
                endpoint
            } else {
                Some(addresses.last())
            },
        ),
    decreases addresses.len(),
{
    flags_are_different_words();
    if addresses.len() == 0 {
        assert(endpoint_args(addresses) + rest =~= rest);
    } else {
        let tail = addresses.drop_first();
        let whole = endpoint_args(addresses) + rest;
        assert(whole[0] == "--endpoint"@ && whole[1] == addresses[0]);
        assert(whole.skip(2) =~= endpoint_args(tail) + rest);
        endpoints_are_read(tail, rest, command, Some(addresses[0]));
    }
}

/// No command is a flag.
proof fn commands_are_no_flags()
    ensures
        command_named("health"@) == Some(Command::Health),
        command_named("runtime"@) == Some(Command::Runtime),
        "health"@ != "-h"@ && "health"@ != "--help"@ && "health"@ != "-V"@ && "health"@
            != "--version"@ && "health"@ != "--endpoint"@,
        "runtime"@ != "-h"@ && "runtime"@ != "--help"@ && "runtime"@ != "-V"@ && "runtime"@
            != "--version"@ && "runtime"@ != "--endpoint"@,
{
    reveal_strlit("health");
    reveal_strlit("runtime");
    reveal_strlit("-h");
    reveal_strlit("--help");
    reveal_strlit("-V");
    reveal_strlit("--version");
    reveal_strlit("--endpoint");
    assert("health"@[0] == 'h' && "runtime"@[0] == 'r');
    assert("-h"@[0] == '-' && "--help"@[0] == '-' && "-V"@[0] == '-' && "--version"@[0] == '-'
        && "--endpoint"@[0] == '-');
}

/// A command line runs the command it names on the last endpoint it gives, whether the
/// endpoints stand before the command or after it, and on none of its own where it gives
/// none.
pub proof fn a_command_is_run_on_the_last_endpoint(
    before: Seq<Seq<char>>,
    after: Seq<Seq<char>>,
    command: Command,
)
    ensures
        ({
            let word = if command is Health {
                "health"@
            } else {
                "runtime"@
            };
            let all = before + after;
            asked(endpoint_args(before) + (seq![word] + endpoint_args(after)), None, None) == Ok::<
                Asked,
                Seq<char>,
            >(
                Asked::Run {
                    command,
                    endpoint: if all.len() == 0 {
                        None
                    } else {
                        Some(all.last())
                    },
                },
            )
        }),
{
    commands_are_no_flags();
    let word = if command is Health {
        "health"@
    } else {
        "runtime"@
    };
    let none = Seq::<Seq<char>>::empty();
    let tail = seq![word] + endpoint_args(after);
    let given = if before.len() == 0 {
        None
    } else {
        Some(before.last())
    };
    endpoints_are_read(before, tail, None, None);
    assert(tail[0] == word);
    assert(tail.skip(1) =~= endpoint_args(after) + none);
    endpoints_are_read(after, none, Some(command), given);
    let all = before + after;
    if after.len() > 0 {
        assert(all.last() == after.last());
    } else if before.len() > 0 {
        assert(all.last() == before.last());
    }
}

/// Behind any endpoints, help and version are asked for by their flags, a flag without an
/// address is refused, a command line without a command too, and so is any other word,
/// which is named as an option where it begins with a dash and as a command otherwise.
pub proof fn a_command_line_is_refused_for_what_it_lacks(
    addresses: Seq<Seq<char>>,
    word: Seq<char>,
    rest: Seq<Seq<char>>,
)
    ensures
        word == "-h"@ || word == "--help"@ ==> asked(
            endpoint_args(addresses) + (seq![word] + rest),
            None,
            None,
        ) == Ok::<Asked, Seq<char>>(Asked::Help),
        word == "-V"@ || word == "--version"@ ==> asked(
            endpoint_args(addresses) + (seq![word] + rest),
            None,
            None,
        ) == Ok::<Asked, Seq<char>>(Asked::Version),
        asked(endpoint_args(addresses), None, None) == Err::<Asked, Seq<char>>(
            "no command given"@,
        ),
        asked(endpoint_args(addresses) + seq!["--endpoint"@], None, None) == Err::<
            Asked,
            Seq<char>,
        >("--endpoint requires an address"@),
        word != "-h"@ && word != "--help"@ && word != "-V"@ && word != "--version"@ && word
            != "--endpoint"@ && word != "health"@ && word != "runtime"@ ==> asked(
            endpoint_args(addresses) + (seq![word] + rest),
            None,
            None,
        ) == Err::<Asked, Seq<char>>(
            (if word.len() > 0 && word[0] == '-' {
                "unrecognised option: "@
            } else {
                "unrecognised command: "@
            }) + word,
        ),
{
    flags_are_different_words();
    commands_are_no_flags();
    let none = Seq::<Seq<char>>::empty();
    assert(endpoint_args(addresses) + none =~= endpoint_args(addresses));
    endpoints_are_read(addresses, none, None, None);
    endpoints_are_read(addresses, seq![word] + rest, None, None);
    endpoints_are_read(addresses, seq!["--endpoint"@], None, None);
}

/// What the client exits with tells what happened: 0 where a request was answered, with
/// the answer on a line of its own, 2 for a command line it could not read, 3 where no
/// daemon is listening, and 1 for any other failure.
pub proof fn the_client_exits_with_what_happened(
    asked: Result<Asked, Seq<char>>,
    output: Seq<char>,
    fault: ClientFault,
)
    ensures
        answer(asked) is None <==> (asked matches Ok(a) && a is Run),
        asked matches Ok(a) && !(a is Run) ==> answer(asked)->0.code == 0 && answer(
            asked,
        )->0.stderr.len() == 0,
        asked is Err ==> answer(asked)->0.code == 2 && answer(asked)->0.stdout.len() == 0,
        finished(Ok(output)).code == 0,
        finished(Ok(output)).stdout == output + "\n"@,
        finished(Ok(output)).stderr.len() == 0,
        finished(Err(fault)).stdout.len() == 0,
        finished(Err(fault)).code == 3 <==> (fault matches ClientFault::Transport(endpoint)
            && endpoint is NotRunning),
        finished(Err(fault)).code == 3 || finished(Err(fault)).code == 1,
{
}

/// The daemon's name, its version and its protocol are shown as it gave them, and whether
/// this client can talk to it.
pub proof fn the_daemon_is_shown_as_it_is(
    name: Seq<char>,
    version: Seq<char>,
    protocol: ProtocolVersion,
)
    ensures
        exists|major: Seq<char>, minor: Seq<char>|
            {
                &&& reads_as(major, protocol.major as int)
                &&& reads_as(minor, protocol.minor as int)
                &&& runtime_text(name, version, protocol) == #[trigger] (name + " "@ + version
                    + "\nprotocol "@ + major + "."@ + minor) + (if protocol.major == 1 {
                    Seq::empty()
                } else {
                    "  (incompatible with this client)"@
                })
            },
{
    let major = decimal(protocol.major as nat);
    let minor = decimal(protocol.minor as nat);
    a_number_reads_back_from_its_decimal(protocol.major as nat);
    a_number_reads_back_from_its_decimal(protocol.minor as nat);
    assert(reads_as(major, protocol.major as int) && reads_as(minor, protocol.minor as int));
    let shown = name + " "@ + version + "\nprotocol "@ + major + "."@ + minor;
    assert(runtime_text(name, version, protocol) == shown + (if protocol.major == 1 {
        Seq::empty()
    } else {
        "  (incompatible with this client)"@
    }));
}

/// Behind a command, help and version are still asked for by their flags, a flag without
/// an address is refused, and so is every other word, another command among them, which
/// is named as an option where it begins with a dash and as a command otherwise.
pub proof fn one_command_is_enough(
    before: Seq<Seq<char>>,
    command: Command,
    after: Seq<Seq<char>>,
    word: Seq<char>,
    rest: Seq<Seq<char>>,
)
    ensures
        ({
            let first = if command is Health {
                "health"@
            } else {
                "runtime"@
            };
            let read = asked(
                endpoint_args(before) + (seq![first] + (endpoint_args(after) + (seq![word] + rest))),
                None,
                None,
            );
            &&& word == "-h"@ || word == "--help"@ ==> read == Ok::<Asked, Seq<char>>(Asked::Help)
            &&& word == "-V"@ || word == "--version"@ ==> read == Ok::<Asked, Seq<char>>(
                Asked::Version,
            )
            &&& word == "--endpoint"@ && rest.len() == 0 ==> read == Err::<Asked, Seq<char>>(
                "--endpoint requires an address"@,
            )
            &&& word != "-h"@ && word != "--help"@ && word != "-V"@ && word != "--version"@ && word
                != "--endpoint"@ ==> read == Err::<Asked, Seq<char>>(
                (if word.len() > 0 && word[0] == '-' {
                    "unrecognised option: "@
                } else {
                    "unrecognised command: "@
                }) + word,
            )
        }),
{
    flags_are_different_words();
    commands_are_no_flags();
    let first = if command is Health {
        "health"@
    } else {
        "runtime"@
    };
    let last = seq![word] + rest;
    let tail = endpoint_args(after) + last;
    let given = if before.len() == 0 {
        None
    } else {
        Some(before.last())
    };
    endpoints_are_read(before, seq![first] + tail, None, None);
    assert((seq![first] + tail)[0] == first);
    assert((seq![first] + tail).skip(1) =~= tail);
    endpoints_are_read(after, last, Some(command), given);
    assert(last[0] == word);
}

/// What went wrong is shown whole on a line of its own, behind the name of the program: a
/// command line that could not be read with the usage behind it, and a daemon that is not
/// there with how to start one.
pub proof fn the_client_shows_what_went_wrong(message: Seq<char>, fault: ClientFault)
    ensures
        answer(Ok(Asked::Help))->0.stdout == USAGE@,
        answer(Ok(Asked::Version))->0.stdout == "mehoy 0.1.0\n"@,
        answer(Err(message))->0.stderr == "mehoy: "@ + message + "\n"@ + USAGE@,
        failed(message) == (Printed {
            stdout: Seq::empty(),
            stderr: "mehoy: "@ + message + "\n"@,
            code: 1,
        }),
        !(fault matches ClientFault::Transport(endpoint) && endpoint is NotRunning) ==> finished(
            Err(fault),
        ).stderr == "mehoy: "@ + client_fault_text(fault) + "\n"@,
        (fault matches ClientFault::Transport(endpoint) && endpoint is NotRunning) ==> exists|
            hint: Seq<char>,
        |
            finished(Err(fault)).stderr == #[trigger] ("mehoy: "@ + client_fault_text(fault)
                + "\n"@ + hint),
{
    let hint = "mehoy: start one with `mehoyd`, or set MEHOY_ENDPOINT\n"@;
    if fault matches ClientFault::Transport(endpoint) && endpoint is NotRunning {
        assert(finished(Err(fault)).stderr == "mehoy: "@ + client_fault_text(fault) + "\n"@ + hint);
    }
}

} // verus!
