//! Command line of the program.
//!
//! ```text
//!   pppoe.exe                       run as a service
//!   pppoe.exe install | uninstall   register / remove the service
//!   pppoe.exe start | stop | query  control the installed service
//!   pppoe.exe console               run in the foreground for debugging
//!   pppoe.exe dial-once [--keep]    test a single dial attempt
//!   pppoe.exe list-connections      show the RAS connection table
//!   pppoe.exe list-adapters         show every network interface
//! ```
//!
//! The program's own words are ASCII English on purpose, so they read the same no
//! matter which code page the host uses. Names of adapters and entries are printed
//! as they are.

use vstd::prelude::*;

use crate::config::Config;
use crate::error::Error;
use crate::link::{AdapterInfo, IF_TYPE_ETHERNET};
use crate::logger::Level;
use crate::notice::Notice;
use crate::notice;
use crate::ras::ConnectionInfo;
use crate::text;

verus! {

/// Version of the program.
pub const VERSION: &'static str = "0.1.2";

/// What the command line asks for.
#[derive(Debug, PartialEq, Eq)]
pub enum Command {
    /// No command: run as a service.
    Service,
    Install,
    Uninstall,
    Start,
    Stop,
    Query,
    Console,
    DialOnce,
    ListConnections,
    ListAdapters,
    Help,
    Version,
    Unknown(String),
}

/// The token is an option. The options that stand for a command are none.
pub open spec fn is_option(token: Seq<char>) -> bool {
    &&& text::begins_with(token, "-"@)
    &&& token != "--help"@
    &&& token != "-h"@
    &&& token != "--version"@
    &&& token != "-V"@
}

/// First token from position `from` on that is no option, and not the value of
/// `--config` either.
pub open spec fn command_from(args: Seq<Seq<char>>, from: int) -> Option<Seq<char>>
    decreases args.len() + 1 - from,
{
    if from >= args.len() {
        None
    } else if args[from] == "--config"@ {
        command_from(args, from + 2)
    } else if is_option(args[from]) {
        command_from(args, from + 1)
    } else {
        Some(args[from])
    }
}

fn option(token: &str) -> (yes: bool)
    ensures
        yes == is_option(token@),
{
    text::has_prefix(token, "-") && !text::same(token, "--help") && !text::same(token, "-h")
        && !text::same(token, "--version") && !text::same(token, "-V")
}

/// First non option token, skipping `--config <path>` and its value.
pub fn parse_command(args: &[String]) -> (out: Option<String>)
    ensures
        match command_from(text::texts(args@), 0) {
            Some(command) => out matches Some(c) && c@ == command,
            None => out is None,
        },
{
    let ghost all = text::texts(args@);
    let mut i: usize = 0;
    while i < args.len()
        invariant
            i <= args@.len() + 1,
            all == text::texts(args@),
            command_from(all, 0) == command_from(all, i as int),
        decreases args@.len() + 1 - i,
    {
        assert(all[i as int] == args@[i as int]@);
        let arg = args[i].as_str();
        if text::same(arg, "--config") {
            if i + 1 >= args.len() {
                assert(command_from(all, i + 2) is None);
                return None;
            }
            i += 2;
        } else if option(arg) {
            i += 1;
        } else {
            return Some(arg.to_owned());
        }
    }
    None
}

/// What a command stands for.
pub open spec fn names(command: Command, name: Option<Seq<char>>) -> bool {
    match name {
        None => command is Service,
        Some(n) => if n == "install"@ {
            command is Install
        } else if n == "uninstall"@ {
            command is Uninstall
        } else if n == "start"@ {
            command is Start
        } else if n == "stop"@ {
            command is Stop
        } else if n == "query"@ {
            command is Query
        } else if n == "console"@ {
            command is Console
        } else if n == "dial-once"@ {
            command is DialOnce
        } else if n == "list-connections"@ {
            command is ListConnections
        } else if n == "list-adapters"@ {
            command is ListAdapters
        } else if n == "help"@ || n == "--help"@ || n == "-h"@ {
            command is Help
        } else if n == "version"@ || n == "--version"@ || n == "-V"@ {
            command is Version
        } else {
            command matches Command::Unknown(other) && other@ == n
        },
    }
}

/// What the command line asks for.
pub fn dispatch(args: &[String]) -> (command: Command)
    ensures
        names(command, command_from(text::texts(args@), 0)),
{
    let name = match parse_command(args) {
        None => return Command::Service,
        Some(name) => name,
    };
    let n = name.as_str();
    if text::same(n, "install") {
        Command::Install
    } else if text::same(n, "uninstall") {
        Command::Uninstall
    } else if text::same(n, "start") {
        Command::Start
    } else if text::same(n, "stop") {
        Command::Stop
    } else if text::same(n, "query") {
        Command::Query
    } else if text::same(n, "console") {
        Command::Console
    } else if text::same(n, "dial-once") {
        Command::DialOnce
    } else if text::same(n, "list-connections") {
        Command::ListConnections
    } else if text::same(n, "list-adapters") {
        Command::ListAdapters
    } else if text::same(n, "help") || text::same(n, "--help") || text::same(n, "-h") {
        Command::Help
    } else if text::same(n, "version") || text::same(n, "--version") || text::same(n, "-V") {
        Command::Version
    } else {
        Command::Unknown(name)
    }
}

/// The command works without a usable configuration file, with the defaults in its
/// place. Otherwise a bad file could make the service unremovable.
pub open spec fn is_forgiving(command: Command) -> bool {
    command is Uninstall || command is Start || command is Stop || command is Query
        || command is ListConnections
}

/// The configuration that a command runs with, given what loading it came to.
pub fn load_config(command: &Command, loaded: Result<Config, Error>) -> (out: Result<
    Config,
    Error,
>)
    ensures
        match loaded {
            Ok(config) => out == Ok::<Config, Error>(config),
            Err(e) => if is_forgiving(*command) {
                out matches Ok(config) && call_ensures(Config::default, (), config)
            } else {
                out == Err::<Config, Error>(e)
            },
        },
{
    match loaded {
        Ok(config) => Ok(config),
        Err(e) => match command {
            Command::Uninstall
            | Command::Start
            | Command::Stop
            | Command::Query
            | Command::ListConnections => Ok(Config::default()),
            _ => Err(e),
        },
    }
}

/// `true` when `--keep` stands on the command line: the connection of a test dial
/// is then left online. Hanging up keeps a diagnostic run from disturbing the
/// machine state.
pub fn keeps_connection(args: &[String]) -> (yes: bool)
    ensures
        yes == text::texts(args@).contains("--keep"@),
{
    let ghost all = text::texts(args@);
    let mut i: usize = 0;
    while i < args.len()
        invariant
            i <= args@.len(),
            all == text::texts(args@),
            forall|j: int| 0 <= j < i ==> all[j] != "--keep"@,
        decreases args@.len() - i,
    {
        assert(all[i as int] == args@[i as int]@);
        if text::same(args[i].as_str(), "--keep") {
            return true;
        }
        i += 1;
    }
    false
}

/// Text of the error for a command that does not exist.
pub fn unknown_command(name: &str) -> (e: Error)
    ensures
        e is Message,
        e.said() == "unknown command \""@ + name@ + "\""@,
{
    Error::Message(text::joined("unknown command \"", name, "\""))
}

/// How the program ends.
pub struct Exit {
    pub code: i32,
    /// Record for the log; without a logger it goes to stderr.
    pub record: Option<Notice>,
    /// Line for stderr.
    pub line: Option<String>,
}

/// How the program ends, given what its command came to.
pub fn conclude(outcome: &Result<(), Error>, logger_up: bool) -> (exit: Exit)
    ensures
        match *outcome {
            Ok(_) => exit.code == 0 && exit.record is None && exit.line is None,
            Err(e) => {
                &&& exit.code == 1
                &&& exit.record matches Some(n)
                &&& n@ == notice::error("command failed: "@ + e.said())
                &&& exit.line is Some <==> logger_up
                &&& exit.line matches Some(line) ==> line@ == "error: "@ + e.said()
            },
        },
{
    match outcome {
        Ok(_) => Exit { code: 0, record: None, line: None },
        Err(e) => {
            let reason = e.message();
            let mut text = "command failed: ".to_owned();
            text.append(reason.as_str());
            let mut line = "error: ".to_owned();
            line.append(reason.as_str());
            Exit {
                code: 1,
                record: Some(Notice { level: Level::Error, text }),
                line: if logger_up {
                    Some(line)
                } else {
                    None
                },
            }
        },
    }
}

/// Version line.
pub fn version_line() -> (line: String)
    ensures
        line@ == "pppoe "@ + VERSION@,
{
    let mut line = "pppoe ".to_owned();
    line.append(VERSION);
    line
}

/// First record in the foreground.
pub fn console_greeting() -> (line: String)
    ensures
        line@ == "pppoe "@ + VERSION@ + " console mode - press Ctrl+C to stop"@,
{
    text::joined("pppoe ", VERSION, " console mode - press Ctrl+C to stop")
}

/// The table of connections, one line each.
pub open spec fn connection_row(info: ConnectionInfo) -> Seq<char> {
    text::left_aligned(info.entry@, 24) + " "@ + text::right_aligned(
        text::decimal(info.state as nat),
        10,
        ' ',
    ) + "  "@ + text::left_aligned(info.device@, 22) + " "@ + text::truth(info.connected)
}

/// The lines of the connection table.
pub open spec fn connection_rows(connections: Seq<ConnectionInfo>) -> Seq<Seq<char>> {
    if connections.len() == 0 {
        seq!["no RAS connections are currently registered"@]
    } else {
        seq![
            text::left_aligned("entry"@, 24) + " "@ + text::right_aligned("state"@, 10, ' ') + "  "@
                + text::left_aligned("device"@, 22) + " connected"@,
        ] + connections.map_values(|c: ConnectionInfo| connection_row(c))
    }
}

/// The RAS connection table (the main troubleshooting command).
pub fn run_list_connections(connections: &[ConnectionInfo]) -> (lines: Vec<String>)
    ensures
        text::texts(lines@) == connection_rows(connections@),
{
    let mut lines: Vec<String> = Vec::new();
    assert(text::texts(lines@) == Seq::<Seq<char>>::empty());
    if connections.len() == 0 {
        text::add_line(&mut lines, "no RAS connections are currently registered".to_owned());
        assert(text::texts(lines@) == connection_rows(connections@));
        return lines;
    }
    let mut heading = text::align_left("entry", 24);
    heading.append(" ");
    heading.append(text::align_right("state", 10, ' ').as_str());
    heading.append("  ");
    heading.append(text::align_left("device", 22).as_str());
    heading.append(" connected");
    let ghost head = seq![heading@];
    text::add_line(&mut lines, heading);
    let ghost rows = connections@.map_values(|c: ConnectionInfo| connection_row(c));
    assert(text::texts(lines@) == head + rows.take(0));
    let mut i: usize = 0;
    while i < connections.len()
        invariant
            i <= connections@.len(),
            rows == connections@.map_values(|c: ConnectionInfo| connection_row(c)),
            text::texts(lines@) == head + rows.take(i as int),
        decreases connections@.len() - i,
    {
        let info = &connections[i];
        let mut row = text::align_left(info.entry.as_str(), 24);
        row.append(" ");
        row.append(
            text::align_right(text::number(info.state as u64).as_str(), 10, ' ').as_str(),
        );
        row.append("  ");
        row.append(text::align_left(info.device.as_str(), 22).as_str());
        row.append(" ");
        row.append(text::flag(info.connected).as_str());
        text::add_line(&mut lines, row);
        i += 1;
        assert(text::texts(lines@) == head + rows.take(i as int));
    }
    assert(rows.take(rows.len() as int) == rows);
    assert(text::texts(lines@) == connection_rows(connections@));
    lines
}

/// One adapter in the table of adapters.
pub open spec fn adapter_row(a: AdapterInfo) -> Seq<char> {
    text::right_aligned(text::decimal(a.if_type as nat), 5, ' ') + "  "@ + text::left_aligned(
        if a.if_type == IF_TYPE_ETHERNET {
            "yes"@
        } else {
            "no"@
        },
        8,
    ) + "  "@ + text::left_aligned(a.media.name(), 8) + "  "@ + text::left_aligned(
        text::truth(a.oper_up),
        7,
    ) + "  "@ + text::left_aligned(text::truth(a.hardware), 7) + "  "@ + text::left_aligned(
        text::truth(a.is_filter),
        10,
    ) + "  "@ + a.alias@ + " | "@ + a.description@
}

/// Heading of the table of adapters.
pub open spec fn adapter_heading() -> Seq<char> {
    text::right_aligned("type"@, 5, ' ') + "  "@ + text::left_aligned("ethernet"@, 8) + "  "@
        + text::left_aligned("media"@, 8) + "  "@ + text::left_aligned("oper_up"@, 7) + "  "@
        + text::left_aligned("hw"@, 7) + "  "@ + text::left_aligned("filter"@, 10)
        + "  alias | description"@
}

/// Explanation below the table of adapters.
pub open spec fn adapter_legend() -> Seq<Seq<char>> {
    seq![
        ""@,
        "columns:"@,
        "  ethernet  part of link_check.interface_types (\"ethernet\" = type 6)"@,
        "  media     Connected / Disconnected / Unknown; 'Unknown' means the driver"@,
        "            reports no media state, so it can never prove the cable is in"@,
        "  hw        real network card (HardwareInterface bit)"@,
        "  filter    NDIS filter shim (FilterInterface bit): never a cable"@,
        ""@,
        "the cable verdict ignores 'filter' rows and prefers 'hw' rows; if the"@,
        "machine has more than one real card, set link_check.adapter_name to a"@,
        "substring of the alias or description above."@,
    ]
}

/// The lines of the table of adapters.
pub open spec fn adapter_rows(adapters: Seq<AdapterInfo>) -> Seq<Seq<char>> {
    if adapters.len() == 0 {
        seq!["no network interfaces reported by GetIfTable2"@]
    } else {
        seq![adapter_heading()] + adapters.map_values(|a: AdapterInfo| adapter_row(a))
            + adapter_legend()
    }
}

fn heading_of_adapters() -> (heading: String)
    ensures
        heading@ == adapter_heading(),
{
    let mut heading = text::align_right("type", 5, ' ');
    heading.append("  ");
    heading.append(text::align_left("ethernet", 8).as_str());
    heading.append("  ");
    heading.append(text::align_left("media", 8).as_str());
    heading.append("  ");
    heading.append(text::align_left("oper_up", 7).as_str());
    heading.append("  ");
    heading.append(text::align_left("hw", 7).as_str());
    heading.append("  ");
    heading.append(text::align_left("filter", 10).as_str());
    heading.append("  alias | description");
    heading
}

fn row_of_adapter(a: &AdapterInfo) -> (row: String)
    ensures
        row@ == adapter_row(*a),
{
    let mut row = text::align_right(text::number(a.if_type as u64).as_str(), 5, ' ');
    row.append("  ");
    let ethernet = if a.if_type == IF_TYPE_ETHERNET {
        "yes"
    } else {
        "no"
    };
    row.append(text::align_left(ethernet, 8).as_str());
    row.append("  ");
    row.append(text::align_left(a.media.label(), 8).as_str());
    row.append("  ");
    row.append(text::align_left(text::flag(a.oper_up).as_str(), 7).as_str());
    row.append("  ");
    row.append(text::align_left(text::flag(a.hardware).as_str(), 7).as_str());
    row.append("  ");
    row.append(text::align_left(text::flag(a.is_filter).as_str(), 10).as_str());
    row.append("  ");
    row.append(a.alias.as_str());
    row.append(" | ");
    row.append(a.description.as_str());
    row
}

fn add_legend(lines: &mut Vec<String>)
    ensures
        text::texts(final(lines)@) == text::texts(old(lines)@) + adapter_legend(),
{
    let ghost before = text::texts(lines@);
    text::add_line(lines, "".to_owned());
    text::add_line(lines, "columns:".to_owned());
    text::add_line(
        lines,
        "  ethernet  part of link_check.interface_types (\"ethernet\" = type 6)".to_owned(),
    );
    text::add_line(
        lines,
        "  media     Connected / Disconnected / Unknown; 'Unknown' means the driver".to_owned(),
    );
    text::add_line(
        lines,
        "            reports no media state, so it can never prove the cable is in".to_owned(),
    );
    text::add_line(lines, "  hw        real network card (HardwareInterface bit)".to_owned());
    text::add_line(
        lines,
        "  filter    NDIS filter shim (FilterInterface bit): never a cable".to_owned(),
    );
    text::add_line(lines, "".to_owned());
    text::add_line(
        lines,
        "the cable verdict ignores 'filter' rows and prefers 'hw' rows; if the".to_owned(),
    );
    text::add_line(
        lines,
        "machine has more than one real card, set link_check.adapter_name to a".to_owned(),
    );
    text::add_line(lines, "substring of the alias or description above.".to_owned());
    assert(text::texts(lines@) == before + adapter_legend());
}

/// Every network interface, to pick `link_check.adapter_name`.
pub fn run_list_adapters(adapters: &[AdapterInfo]) -> (lines: Vec<String>)
    ensures
        text::texts(lines@) == adapter_rows(adapters@),
{
    let mut lines: Vec<String> = Vec::new();
    assert(text::texts(lines@) == Seq::<Seq<char>>::empty());
    if adapters.len() == 0 {
        text::add_line(&mut lines, "no network interfaces reported by GetIfTable2".to_owned());
        assert(text::texts(lines@) == adapter_rows(adapters@));
        return lines;
    }
    text::add_line(&mut lines, heading_of_adapters());
    let ghost head = seq![adapter_heading()];
    let ghost rows = adapters@.map_values(|a: AdapterInfo| adapter_row(a));
    assert(text::texts(lines@) == head + rows.take(0));
    let mut i: usize = 0;
    while i < adapters.len()
        invariant
            i <= adapters@.len(),
            rows == adapters@.map_values(|a: AdapterInfo| adapter_row(a)),
            text::texts(lines@) == head + rows.take(i as int),
        decreases adapters@.len() - i,
    {
        text::add_line(&mut lines, row_of_adapter(&adapters[i]));
        i += 1;
        assert(text::texts(lines@) == head + rows.take(i as int));
    }
    assert(rows.take(rows.len() as int) == rows);
    add_legend(&mut lines);
    lines
}

/// The help text.
pub open spec fn help_lines() -> Seq<Seq<char>> {
    seq![
        "pppoe "@ + VERSION@ + " - PPPoE auto dialer service"@,
        ""@,
        "usage: pppoe.exe [command] [--config <path>]"@,
        ""@,
        "commands:"@,
        "  (none)            run as a service (started by the service control manager)"@,
        "  install           register the service with automatic start (needs admin)"@,
        "  uninstall         stop and delete the service (needs admin)"@,
        "  start             start the installed service"@,
        "  stop              stop the service; the broadband connection stays online"@,
        "  query             show the current service state"@,
        "  console           run in the foreground with console logging"@,
        "  dial-once         perform a single dial attempt and hang it up again"@,
        "  dial-once --keep  perform a single dial attempt and leave it online"@,
        "  list-connections  show the RAS connection table"@,
        "  list-adapters     show every network interface and its link state"@,
        "  help              show this text"@,
        "  version           show the version"@,
        ""@,
        "options:"@,
        "  --config <path>   use a configuration file other than <exe dir>/pppoe.toml"@,
        ""@,
        "The configuration file is TOML; all fields are documented in pppoe.toml."@,
        "Logs are written to the configured directory (default: <exe dir>/logs)."@,
    ]
}

/// The help text.
pub fn print_help() -> (lines: Vec<String>)
    ensures
        text::texts(lines@) == help_lines(),
{
    let mut lines: Vec<String> = Vec::new();
    lines.push(text::joined("pppoe ", VERSION, " - PPPoE auto dialer service"));
    lines.push("".to_owned());
    lines.push("usage: pppoe.exe [command] [--config <path>]".to_owned());
    lines.push("".to_owned());
    lines.push("commands:".to_owned());
    lines.push(
        "  (none)            run as a service (started by the service control manager)".to_owned(),
    );
    lines.push(
        "  install           register the service with automatic start (needs admin)".to_owned(),
    );
    lines.push("  uninstall         stop and delete the service (needs admin)".to_owned());
    lines.push("  start             start the installed service".to_owned());
    lines.push(
        "  stop              stop the service; the broadband connection stays online".to_owned(),
    );
    lines.push("  query             show the current service state".to_owned());
    lines.push("  console           run in the foreground with console logging".to_owned());
    lines.push("  dial-once         perform a single dial attempt and hang it up again".to_owned());
    lines.push("  dial-once --keep  perform a single dial attempt and leave it online".to_owned());
    lines.push("  list-connections  show the RAS connection table".to_owned());
    lines.push("  list-adapters     show every network interface and its link state".to_owned());
    lines.push("  help              show this text".to_owned());
    lines.push("  version           show the version".to_owned());
    lines.push("".to_owned());
    lines.push("options:".to_owned());
    lines.push(
        "  --config <path>   use a configuration file other than <exe dir>/pppoe.toml".to_owned(),
    );
    lines.push("".to_owned());
    lines.push(
        "The configuration file is TOML; all fields are documented in pppoe.toml.".to_owned(),
    );
    lines.push(
        "Logs are written to the configured directory (default: <exe dir>/logs).".to_owned(),
    );
    assert(text::texts(lines@) == help_lines());
    lines
}

/// The command and the configuration path are found independently of where
/// `--config <path>` stands: in front of the command it is skipped together with
/// its value.
pub proof fn the_configuration_path_is_no_command(path: Seq<char>, rest: Seq<Seq<char>>)
    ensures
        command_from(seq!["--config"@, path] + rest, 0) == command_from(rest, 0),
{
    let all = seq!["--config"@, path] + rest;
    assert(all[0] == "--config"@);
    lemma_shifted(all, rest, 2, 0);
}

/// An option in front of the command does not hide it.
pub proof fn an_option_is_no_command(option: Seq<char>, rest: Seq<Seq<char>>)
    requires
        is_option(option),
        option != "--config"@,
    ensures
        command_from(seq![option] + rest, 0) == command_from(rest, 0),
{
    let all = seq![option] + rest;
    assert(all[0] == option);
    lemma_shifted(all, rest, 1, 0);
}

proof fn lemma_shifted(all: Seq<Seq<char>>, rest: Seq<Seq<char>>, by: int, from: int)
    requires
        by >= 0,
        from >= 0,
        all.len() == rest.len() + by,
        forall|i: int| 0 <= i < rest.len() ==> rest[i] == #[trigger] all[i + by],
    ensures
        command_from(all, from + by) == command_from(rest, from),
    decreases rest.len() + 1 - from,
{
    if from < rest.len() {
        assert(rest[from] == all[from + by]);
        lemma_shifted(all, rest, by, from + 1);
        lemma_shifted(all, rest, by, from + 2);
        assert(from + 1 + by == from + by + 1);
        assert(from + 2 + by == from + by + 2);
    }
}

/// The command is the first argument that does not begin with a dash, or one of the four
/// options that stand for a command; every other option in front of it is passed over, and
/// `--config` together with the argument behind it. Without such an argument there is no
/// command.
pub proof fn the_first_plain_argument_is_the_command(arg: Seq<char>, rest: Seq<Seq<char>>)
    ensures
        ({
            let plain = arg.len() == 0 || arg[0] != '-' || arg == "--help"@ || arg == "-h"@ || arg
                == "--version"@ || arg == "-V"@;
            &&& command_from(Seq::empty(), 0) is None
            &&& plain ==> command_from(seq![arg] + rest, 0) == Some(arg)
            &&& !plain && arg != "--config"@ ==> command_from(seq![arg] + rest, 0) == command_from(
                rest,
                0,
            )
            &&& command_from(seq!["--config"@], 0) is None
        }),
{
    reveal_strlit("-");
    reveal_strlit("--config");
    reveal_strlit("--help");
    reveal_strlit("-h");
    reveal_strlit("--version");
    reveal_strlit("-V");
    assert("--config"@.len() == 8 && "--config"@[0] == '-');
    assert("--help"@.len() == 6 && "-h"@.len() == 2 && "--version"@.len() == 9 && "-V"@.len() == 2);
    let all = seq![arg] + rest;
    assert(all[0] == arg);
    assert(text::begins_with(arg, "-"@) <==> arg.len() > 0 && arg[0] == '-') by {
        if arg.len() > 0 {
            assert(arg.subrange(0, 1)[0] == arg[0]);
            if arg[0] == '-' {
                assert(arg.subrange(0, 1) == "-"@);
            }
        }
    }
    lemma_shifted(all, rest, 1, 0);
    let lone = seq!["--config"@];
    assert(lone[0] == "--config"@);
    assert(command_from(lone, 2) is None);
}

/// The executable search finds that command, and every command has its own name; a name
/// that stands for none is handed on as it is.
pub proof fn every_command_has_its_name(args: &[String], found: Option<String>, command: Command)
    requires
        call_ensures(parse_command, (args,), found),
        call_ensures(dispatch, (args,), command),
    ensures
        ({
            let name = command_from(text::texts(args@), 0);
            &&& found is Some <==> name is Some
            &&& found matches Some(f) ==> name == Some(f@)
            &&& command is Service <==> name is None
            &&& command is Install <==> name == Some("install"@)
            &&& command is Uninstall <==> name == Some("uninstall"@)
            &&& command is Start <==> name == Some("start"@)
            &&& command is Stop <==> name == Some("stop"@)
            &&& command is Query <==> name == Some("query"@)
            &&& command is Console <==> name == Some("console"@)
            &&& command is DialOnce <==> name == Some("dial-once"@)
            &&& command is ListConnections <==> name == Some("list-connections"@)
            &&& command is ListAdapters <==> name == Some("list-adapters"@)
            &&& command is Help <==> name == Some("help"@) || name == Some("--help"@) || name
                == Some("-h"@)
            &&& command is Version <==> name == Some("version"@) || name == Some("--version"@)
                || name == Some("-V"@)
            &&& command matches Command::Unknown(other) ==> name == Some(other@)
        }),
{
    lemma_names_differ();
}

proof fn lemma_names_differ()
    ensures
        "install"@.len() == 7 && "install"@[0] == 'i',
        "uninstall"@.len() == 9 && "uninstall"@[0] == 'u',
        "start"@.len() == 5 && "start"@[0] == 's',
        "stop"@.len() == 4 && "stop"@[0] == 's',
        "query"@.len() == 5 && "query"@[0] == 'q',
        "console"@.len() == 7 && "console"@[0] == 'c',
        "dial-once"@.len() == 9 && "dial-once"@[0] == 'd',
        "list-connections"@.len() == 16,
        "list-adapters"@.len() == 13,
        "help"@.len() == 4 && "help"@[0] == 'h',
        "--help"@.len() == 6,
        "-h"@.len() == 2 && "-h"@[1] == 'h',
        "version"@.len() == 7 && "version"@[0] == 'v',
        "--version"@.len() == 9 && "--version"@[0] == '-',
        "-V"@.len() == 2 && "-V"@[1] == 'V',
{
    reveal_strlit("install");
    reveal_strlit("uninstall");
    reveal_strlit("start");
    reveal_strlit("stop");
    reveal_strlit("query");
    reveal_strlit("console");
    reveal_strlit("dial-once");
    reveal_strlit("list-connections");
    reveal_strlit("list-adapters");
    reveal_strlit("help");
    reveal_strlit("--help");
    reveal_strlit("-h");
    reveal_strlit("version");
    reveal_strlit("--version");
    reveal_strlit("-V");
}

/// A configuration that could be loaded is always the one that is used. One that could not
/// be stops every command but the five that only look at the machine or control the
/// service, so that a bad file never makes the service unremovable.
pub proof fn five_commands_do_without_a_configuration(
    command: &Command,
    loaded: Result<Config, Error>,
    out: Result<Config, Error>,
)
    requires
        call_ensures(load_config, (command, loaded), out),
    ensures
        loaded matches Ok(config) ==> out == Ok::<Config, Error>(config),
        loaded matches Err(e) ==> {
            &&& out is Ok <==> *command is Uninstall || *command is Start || *command is Stop
                || *command is Query || *command is ListConnections
            &&& out is Err ==> out == Err::<Config, Error>(e)
        },
{
}

/// A test connection is kept exactly where `--keep` is one of the arguments.
pub proof fn a_connection_is_kept_on_request_only(args: &[String], yes: bool)
    requires
        call_ensures(keeps_connection, (args,), yes),
    ensures
        yes <==> exists|i: int| 0 <= i < args@.len() && (#[trigger] args@[i])@ == "--keep"@,
{
    let all = text::texts(args@);
    if all.contains("--keep"@) {
        let i = choose|i: int| 0 <= i < all.len() && all[i] == "--keep"@;
        assert(args@[i]@ == "--keep"@);
    }
    if exists|i: int| 0 <= i < args@.len() && (#[trigger] args@[i])@ == "--keep"@ {
        let i = choose|i: int| 0 <= i < args@.len() && (#[trigger] args@[i])@ == "--keep"@;
        assert(all[i] == "--keep"@);
    }
}

/// The program ends with 0 exactly where its command worked; a failure is told with its
/// reason, as an error in the log, and on the console too where that is not where the log
/// goes.
pub proof fn a_failed_command_is_told(outcome: &Result<(), Error>, logger_up: bool, exit: Exit)
    requires
        call_ensures(conclude, (outcome, logger_up), exit),
    ensures
        exit.code == 0 <==> *outcome is Ok,
        exit.record is Some <==> *outcome is Err,
        exit.line is Some <==> *outcome is Err && logger_up,
        *outcome matches Err(e) ==> {
            &&& exit.code == 1
            &&& exit.record->0.level is Error
            &&& text::has_text(exit.record->0.text@, e.said())
            &&& exit.line matches Some(line) ==> text::has_text(line@, e.said())
        },
{
    if let Err(e) = *outcome {
        let none = Seq::<char>::empty();
        assert("command failed: "@ + e.said() + none == "command failed: "@ + e.said());
        text::lemma_stands_between("command failed: "@, e.said(), none);
        assert("error: "@ + e.said() + none == "error: "@ + e.said());
        text::lemma_stands_between("error: "@, e.said(), none);
    }
}

/// A command that does not exist is told by its name.
pub proof fn an_unknown_command_is_told(name: &str, e: Error)
    requires
        call_ensures(unknown_command, (name,), e),
    ensures
        text::has_text(e.said(), name@),
{
    text::lemma_stands_between("unknown command \""@, name@, "\""@);
}

/// The table of connections has one line for each of them, below a heading, with the entry
/// at its beginning and whether it is connected at its end.
pub proof fn every_connection_has_its_line(
    connections: &[ConnectionInfo],
    lines: Vec<String>,
    i: int,
)
    requires
        call_ensures(run_list_connections, (connections,), lines),
    ensures
        lines@.len() == connections@.len() + 1,
        0 <= i < connections@.len() ==> {
            let c = connections@[i];
            let line = lines@[i + 1]@;
            &&& text::begins_with(line, c.entry@)
            &&& exists|head: Seq<char>|
                line == #[trigger] (head + text::truth(c.connected)) && text::has_text(
                    head,
                    c.device@,
                ) && text::has_text(head, text::decimal(c.state as nat))
        },
{
    let all = text::texts(lines@);
    assert(all.len() == lines@.len());
    if 0 <= i < connections@.len() {
        let c = connections@[i];
        assert(all[i + 1] == lines@[i + 1]@);
        assert(all[i + 1] == connection_row(c));
        lemma_connection_row(c);
    }
}

proof fn lemma_connection_row(c: ConnectionInfo)
    ensures
        text::begins_with(connection_row(c), c.entry@),
        exists|head: Seq<char>|
            connection_row(c) == #[trigger] (head + text::truth(c.connected)) && text::has_text(
                head,
                c.device@,
            ) && text::has_text(head, text::decimal(c.state as nat)),
{
    let entry = text::left_aligned(c.entry@, 24);
    let state = text::right_aligned(text::decimal(c.state as nat), 10, ' ');
    let device = text::left_aligned(c.device@, 22);
    let head = entry + " "@ + state + "  "@ + device + " "@;
    let row = connection_row(c);
    assert(row == head + text::truth(c.connected));
    assert(row.subrange(0, c.entry@.len() as int) == c.entry@);
    let at = (entry + " "@ + state + "  "@).len() as int;
    assert(head.subrange(at, at + c.device@.len()) == c.device@);
    assert(text::occurs_at(head, c.device@, at));
    let digits = text::decimal(c.state as nat);
    let from = (entry + " "@).len() + state.len() - digits.len();
    assert(head.subrange(from, from + digits.len()) == digits);
    assert(text::occurs_at(head, digits, from));
}

/// The table of adapters has one line for each of them, below a heading and above the
/// legend, with its names at the end.
pub proof fn every_adapter_has_its_line(adapters: &[AdapterInfo], lines: Vec<String>, i: int)
    requires
        call_ensures(run_list_adapters, (adapters,), lines),
    ensures
        lines@.len() == if adapters@.len() == 0 {
            1nat
        } else {
            adapters@.len() + 12
        },
        0 <= i < adapters@.len() ==> {
            let a = adapters@[i];
            exists|head: Seq<char>|
                lines@[i + 1]@ == #[trigger] (head + (a.alias@ + " | "@ + a.description@))
        },
{
    let all = text::texts(lines@);
    assert(all.len() == lines@.len());
    if 0 <= i < adapters@.len() {
        let a = adapters@[i];
        assert(all[i + 1] == lines@[i + 1]@);
        assert(all[i + 1] == adapter_row(a));
        let head = text::right_aligned(text::decimal(a.if_type as nat), 5, ' ') + "  "@
            + text::left_aligned(
            if a.if_type == IF_TYPE_ETHERNET {
                "yes"@
            } else {
                "no"@
            },
            8,
        ) + "  "@ + text::left_aligned(a.media.name(), 8) + "  "@ + text::left_aligned(
            text::truth(a.oper_up),
            7,
        ) + "  "@ + text::left_aligned(text::truth(a.hardware), 7) + "  "@ + text::left_aligned(
            text::truth(a.is_filter),
            10,
        ) + "  "@;
        assert(adapter_row(a) == head + (a.alias@ + " | "@ + a.description@));
    }
}

/// A line of the table of adapters tells in its columns whether the adapter is ethernet, its
/// media state, whether it is operationally up, whether it is real hardware and whether it is
/// a filter shim, in this order.
pub proof fn the_columns_tell_the_adapter(a: AdapterInfo)
    ensures
        text::has_text(
            adapter_row(a),
            text::left_aligned(
                if a.if_type == 6 {
                    "yes"@
                } else {
                    "no"@
                },
                8,
            ) + "  "@ + text::left_aligned(a.media.name(), 8) + "  "@ + text::left_aligned(
                text::truth(a.oper_up),
                7,
            ) + "  "@ + text::left_aligned(text::truth(a.hardware), 7) + "  "@
                + text::left_aligned(text::truth(a.is_filter), 10),
        ),
        text::has_text(adapter_row(a), text::decimal(a.if_type as nat)),
{
    let digits = text::decimal(a.if_type as nat);
    let kind = text::right_aligned(digits, 5, ' ');
    let ethernet = text::left_aligned(
        if a.if_type == 6 {
            "yes"@
        } else {
            "no"@
        },
        8,
    );
    let media = text::left_aligned(a.media.name(), 8);
    let up = text::left_aligned(text::truth(a.oper_up), 7);
    let hw = text::left_aligned(text::truth(a.hardware), 7);
    let shim = text::left_aligned(text::truth(a.is_filter), 10);
    let from = kind.len() - digits.len();
    assert(kind.subrange(from, from + digits.len()) == digits);
    assert(text::occurs_at(kind, digits, from));
    lemma_columns(kind, digits, ethernet, media, up, hw, shim, a.alias@, a.description@);
}

proof fn lemma_columns(
    kind: Seq<char>,
    digits: Seq<char>,
    ethernet: Seq<char>,
    media: Seq<char>,
    up: Seq<char>,
    hw: Seq<char>,
    shim: Seq<char>,
    alias: Seq<char>,
    description: Seq<char>,
)
    requires
        text::has_text(kind, digits),
    ensures
        ({
            let row = kind + "  "@ + ethernet + "  "@ + media + "  "@ + up + "  "@ + hw + "  "@
                + shim + "  "@ + alias + " | "@ + description;
            &&& text::has_text(
                row,
                ethernet + "  "@ + media + "  "@ + up + "  "@ + hw + "  "@ + shim,
            )
            &&& text::has_text(row, digits)
        }),
{
    let row = kind + "  "@ + ethernet + "  "@ + media + "  "@ + up + "  "@ + hw + "  "@ + shim
        + "  "@ + alias + " | "@ + description;
    let columns = ethernet + "  "@ + media + "  "@ + up + "  "@ + hw + "  "@ + shim;
    let names = "  "@ + alias + " | "@ + description;
    let head = kind + "  "@;
    assert(row == head + columns + names);
    text::lemma_stands_between(head, columns, names);
    let none = Seq::<char>::empty();
    let tail = "  "@ + columns + names;
    assert(row == none + kind + tail);
    text::lemma_still_stands(none, kind, tail, digits);
}

} // verus!
