//! Service installation, removal and control.
//!
//! * `install`   - create the service with automatic start, set its description,
//!   configure crash recovery, register the event log source and declare a
//!   dependency on `RasMan`;
//! * `uninstall` - stop and delete the service, remove the event log source;
//! * `start` / `stop` / `query` - thin wrappers around the `sc` equivalents.
//!
//! The calls of the service control manager and of the registry are made by the
//! caller, which hands over what they came to. What is printed is handed back as
//! lines.

use vstd::prelude::*;

use crate::config::Config;
use crate::error::{checked, Error};
use crate::error;
use crate::ras::to_wide;
use crate::ras;
use crate::service::SERVICE_NAME;
use crate::text;

verus! {

/// `ERROR_SERVICE_EXISTS`.
pub const ERROR_SERVICE_EXISTS: u32 = 1073;

/// `ERROR_SERVICE_DOES_NOT_EXIST`.
pub const ERROR_SERVICE_DOES_NOT_EXIST: u32 = 1060;

/// `ERROR_SERVICE_ALREADY_RUNNING`.
pub const ERROR_SERVICE_ALREADY_RUNNING: u32 = 1056;

/// `ERROR_SERVICE_NOT_ACTIVE`.
pub const ERROR_SERVICE_NOT_ACTIVE: u32 = 1062;

/// `SERVICE_WIN32_OWN_PROCESS`.
pub const SERVICE_OWN_PROCESS: u32 = 16;

/// `SERVICE_AUTO_START`.
pub const SERVICE_AUTO_START: u32 = 2;

/// `SERVICE_ERROR_NORMAL`.
pub const SERVICE_ERROR_NORMAL: u32 = 1;

/// `SERVICE_STOPPED`.
pub const SERVICE_STOPPED: u32 = 1;

/// `REG_EXPAND_SZ`.
pub const REG_EXPAND_SZ: u32 = 2;

/// `REG_DWORD`.
pub const REG_DWORD: u32 = 4;

/// Value written under the key of the event log source.
pub const EVENT_MESSAGE_FILE: &'static str = "%SystemRoot%\\System32\\EventCreate.exe";

/// error | warning | information
pub const EVENT_TYPES_SUPPORTED: u32 = 0x07;

/// Seconds after which the count of crashes starts over.
pub const RECOVERY_RESET_SECS: u32 = 86_400;

/// Seconds that stopping may take longer than a dial.
pub const STOP_GRACE_SECS: u64 = 20;

/// Pause between two looks at a stopping service.
pub const STOP_POLL_MS: u64 = 500;

/// Line for a service that was asked to stop.
pub const STOP_REQUESTED: &'static str = "stop requested, waiting for the service to exit ...";

/// Line for a service that did not stop in time.
pub const STOP_OVERDUE: &'static str =
    "warning: the service did not stop in time, deleting it anyway";

/// An error of the system: its code as an `HRESULT`, and its text.
pub struct SystemError {
    pub hresult: i32,
    pub text: String,
}

/// The Win32 error code in an `HRESULT`. Codes of the Win32 facility carry it in
/// their low word; every other code stands for itself.
pub open spec fn code_in(hresult: i32) -> int {
    let code = if hresult < 0 {
        hresult + 0x1_0000_0000
    } else {
        hresult as int
    };
    if 0x8007_0000 <= code <= 0x8007_FFFF {
        code - 0x8007_0000
    } else {
        code
    }
}

/// Extracts the Win32 error code.
pub fn win32_code(hresult: i32) -> (code: u32)
    ensures
        code == code_in(hresult),
{
    let raw: u32 = (hresult as i64 & 0xFFFF_FFFF) as u32;
    let wide = hresult as i64;
    assert(wide & 0xFFFF_FFFF == if wide < 0 {
        wide + 0x1_0000_0000
    } else {
        wide as int
    }) by (bit_vector)
        requires
            -0x8000_0000 <= wide <= 0x7FFF_FFFF,
    ;
    assert(raw & 0xFFFF_0000 == 0x8007_0000 <==> 0x8007_0000 <= raw <= 0x8007_FFFF)
        by (bit_vector);
    assert(0x8007_0000 <= raw <= 0x8007_FFFF ==> raw & 0xFFFF == raw - 0x8007_0000)
        by (bit_vector);
    if raw & 0xFFFF_0000 == 0x8007_0000 {
        raw & 0xFFFF
    } else {
        raw
    }
}

/// The text `before`, then the text of a system error, then `after`.
pub open spec fn told(before: Seq<char>, e: SystemError, after: Seq<char>) -> Seq<char> {
    before + e.text@ + after
}

fn failed(before: &str, e: &SystemError, after: &str) -> (out: Error)
    ensures
        out is Message,
        out.said() == told(before@, *e, after@),
{
    Error::Message(text::joined(before, e.text.as_str(), after))
}

/// Says something about the service with the given name.
pub open spec fn about(before: Seq<char>, name: Seq<char>, after: Seq<char>) -> Seq<char> {
    before + name + after
}

/// Name the service is registered under, after checking it against the built-in
/// name that the service entry point is published as.
pub fn service_name(config: &Config) -> (out: Result<String, Error>)
    ensures
        ({
            let name = text::trimmed(config.service.name@);
            if name == SERVICE_NAME@ {
                out matches Ok(n) && n@ == name
            } else {
                out matches Err(e) && e is Message && e.said() == "[service] name = \""@ + name
                    + "\" does not match the built-in service name \""@ + SERVICE_NAME@
                    + "\"; fix the configuration file (or rebuild the binary)"@
            }
        }),
{
    let name = text::trim(config.service.name.as_str());
    if !text::same(name.as_str(), SERVICE_NAME) {
        let mut message = text::joined(
            "[service] name = \"",
            name.as_str(),
            "\" does not match the built-in service name \"",
        );
        message.append(SERVICE_NAME);
        message.append("\"; fix the configuration file (or rebuild the binary)");
        return Err(Error::Message(message));
    }
    Ok(name)
}

/// Judges the connection to the service control manager.
pub fn open_scm(e: &SystemError) -> (out: Error)
    ensures
        out is Message,
        out.said() == told(
            "OpenSCManagerW failed: "@,
            *e,
            " - this command needs administrator rights"@,
        ),
{
    failed("OpenSCManagerW failed: ", e, " - this command needs administrator rights")
}

/// Judges a failure to open the service.
pub fn open_service(name: &str, e: &SystemError) -> (out: Error)
    ensures
        out is Message,
        out.said() == if code_in(e.hresult) == ERROR_SERVICE_DOES_NOT_EXIST {
            about("the service \""@, name@, "\" is not installed - run 'install' first"@)
        } else {
            told("OpenServiceW failed: "@, *e, ""@)
        },
{
    if win32_code(e.hresult) == ERROR_SERVICE_DOES_NOT_EXIST {
        Error::Message(
            text::joined("the service \"", name, "\" is not installed - run 'install' first"),
        )
    } else {
        failed("OpenServiceW failed: ", e, "")
    }
}

/// What the service control manager is asked to create.
pub struct InstallRequest {
    pub name: Vec<u16>,
    pub display_name: Vec<u16>,
    /// Absolute path of the executable: a service is started with the system
    /// directory as its working directory, so a relative path would never resolve.
    pub binary: Vec<u16>,
    /// Services to be started before this one, each NUL terminated, and one more
    /// NUL behind the last.
    pub dependencies: Vec<u16>,
    pub service_type: u32,
    pub start_type: u32,
    pub error_control: u32,
}

/// Prepares the creation of the service. It starts automatically, and RAS must be
/// ready before it can dial.
pub fn install_request(name: &str, config: &Config, exe: &str) -> (request: InstallRequest)
    ensures
        request.name@ == ras::terminated(name@),
        request.display_name@ == ras::terminated(config.service.display_name@),
        request.binary@ == ras::terminated(exe@),
        request.dependencies@ == ras::terminated("RasMan"@).push(0),
        request.service_type == SERVICE_OWN_PROCESS,
        request.start_type == SERVICE_AUTO_START,
        request.error_control == SERVICE_ERROR_NORMAL,
{
    let mut dependencies = to_wide("RasMan");
    dependencies.push(0);
    InstallRequest {
        name: to_wide(name),
        display_name: to_wide(config.service.display_name.as_str()),
        binary: to_wide(exe),
        dependencies,
        service_type: SERVICE_OWN_PROCESS,
        start_type: SERVICE_AUTO_START,
        error_control: SERVICE_ERROR_NORMAL,
    }
}

/// Judges a failure to create the service.
pub fn not_created(name: &str, e: &SystemError) -> (out: Error)
    ensures
        out is Message,
        out.said() == if code_in(e.hresult) == ERROR_SERVICE_EXISTS {
            about("the service \""@, name@, "\" already exists - run 'uninstall' first"@)
        } else {
            told("CreateServiceW failed: "@, *e, " (this command needs administrator rights)"@)
        },
{
    if win32_code(e.hresult) == ERROR_SERVICE_EXISTS {
        Error::Message(
            text::joined("the service \"", name, "\" already exists - run 'uninstall' first"),
        )
    } else {
        failed("CreateServiceW failed: ", e, " (this command needs administrator rights)")
    }
}

/// Judges the description of the service.
pub fn set_description(outcome: &Result<(), SystemError>) -> (out: Result<(), Error>)
    ensures
        match *outcome {
            Ok(_) => out is Ok,
            Err(e) => out matches Err(x) && x is Message && x.said() == told(
                "ChangeServiceConfig2W(description) failed: "@,
                e,
                ""@,
            ),
        },
{
    match outcome {
        Ok(_) => Ok(()),
        Err(e) => Err(failed("ChangeServiceConfig2W(description) failed: ", e, "")),
    }
}

/// When the service is restarted after an unexpected exit.
pub struct RecoveryPlan {
    /// Seconds after which the count of crashes starts over.
    pub reset_secs: u32,
    /// Delay before each automatic restart, in milliseconds.
    pub delays_ms: Vec<u32>,
}

/// Lets the service be restarted after an unexpected exit. A crash does not take
/// the broadband connection down: the connection is owned by `RasMan`, not by this
/// process.
pub fn recovery_plan() -> (plan: RecoveryPlan)
    ensures
        plan.reset_secs == RECOVERY_RESET_SECS,
        plan.delays_ms@ == seq![5_000u32, 10_000u32, 30_000u32],
{
    RecoveryPlan { reset_secs: RECOVERY_RESET_SECS, delays_ms: vec![5_000, 10_000, 30_000] }
}

/// Judges the recovery actions of the service.
pub fn set_recovery(outcome: &Result<(), SystemError>) -> (out: Result<(), Error>)
    ensures
        match *outcome {
            Ok(_) => out is Ok,
            Err(e) => out matches Err(x) && x is Message && x.said() == told(
                "ChangeServiceConfig2W(recovery) failed: "@,
                e,
                ""@,
            ),
        },
{
    match outcome {
        Ok(_) => Ok(()),
        Err(e) => Err(failed("ChangeServiceConfig2W(recovery) failed: ", e, "")),
    }
}

/// Problem with a step of the installation that is not essential.
pub open spec fn problem(what: Seq<char>, outcome: Result<(), Error>) -> Seq<Seq<char>> {
    match outcome {
        Ok(_) => Seq::empty(),
        Err(e) => seq![what + ": "@ + e.said()],
    }
}

/// Lines of the report on an installation, up to the log directory.
pub open spec fn installed_lines(name: Seq<char>, exe: Seq<char>, config_path: Seq<char>) -> Seq<
    Seq<char>,
> {
    seq![
        "service \""@ + name + "\" installed with automatic start"@,
        "  binary : "@ + exe,
        "  config : "@ + config_path,
    ]
}

/// Lines of the report on an installation, about its problems.
pub open spec fn problem_lines(problems: Seq<Seq<char>>) -> Seq<Seq<char>> {
    if problems.len() == 0 {
        Seq::empty()
    } else {
        seq!["warnings (the service runs, but these should be fixed):"@] + problems.map_values(
            |p: Seq<char>| "  - "@ + p,
        )
    }
}

/// Lines of the report on an installation, about what is left to do.
pub open spec fn next_step_lines(name: Seq<char>, config_path: Seq<char>) -> Seq<Seq<char>> {
    seq![
        ""@,
        "next steps:"@,
        "  1. edit "@ + config_path + " and fill in the connection details"@,
        "  2. restrict its permissions:"@,
        "       icacls pppoe.toml /inheritance:r /grant:r \"BUILTIN\\Administrators:F\" \"NT AUTHORITY\\SYSTEM:F\""@,
        "  3. start it: sc.exe start "@ + name,
    ]
}

/// What an installation reports: the lines to print, and how it ends.
pub struct Report {
    pub lines: Vec<String>,
    pub outcome: Result<(), Error>,
}

fn add_problem(problems: &mut Vec<String>, what: &str, outcome: &Result<(), Error>)
    ensures
        text::texts(final(problems)@) == text::texts(old(problems)@) + problem(what@, *outcome),
{
    let ghost before = text::texts(problems@);
    match outcome {
        Ok(_) => {},
        Err(e) => {
            let mut line = what.to_owned();
            line.append(": ");
            line.append(e.message().as_str());
            text::add_line(problems, line);
        },
    }
    assert(text::texts(problems@) == before + problem(what@, *outcome));
}

/// Reports on an installation, once the service was created: a failing cosmetic
/// step does not abort it. `logs` is the log directory, which has to be known for
/// the report to be completed.
pub fn install(
    name: &str,
    exe: &str,
    config_path: &str,
    logs: Result<String, Error>,
    description: &Result<(), Error>,
    recovery: &Result<(), Error>,
    event_source: &Result<(), Error>,
) -> (report: Report)
    ensures
        match logs {
            Err(e) => {
                &&& report.outcome == Err::<(), Error>(e)
                &&& text::texts(report.lines@) == installed_lines(name@, exe@, config_path@)
            },
            Ok(dir) => {
                &&& report.outcome is Ok
                &&& text::texts(report.lines@) == installed_lines(name@, exe@, config_path@)
                    + seq!["  logs   : "@ + dir@] + problem_lines(
                    problem("description"@, *description) + problem("recovery actions"@, *recovery)
                        + problem("event log source"@, *event_source),
                ) + next_step_lines(name@, config_path@)
            },
        },
{
    let mut problems: Vec<String> = Vec::new();
    assert(text::texts(problems@) == Seq::<Seq<char>>::empty());
    add_problem(&mut problems, "description", description);
    add_problem(&mut problems, "recovery actions", recovery);
    add_problem(&mut problems, "event log source", event_source);
    let ghost found = problem("description"@, *description) + problem(
        "recovery actions"@,
        *recovery,
    ) + problem("event log source"@, *event_source);
    assert(text::texts(problems@) == found);

    let mut lines: Vec<String> = Vec::new();
    assert(text::texts(lines@) == Seq::<Seq<char>>::empty());
    text::add_line(
        &mut lines,
        text::joined("service \"", name, "\" installed with automatic start"),
    );
    let mut line = "  binary : ".to_owned();
    line.append(exe);
    text::add_line(&mut lines, line);
    let mut line = "  config : ".to_owned();
    line.append(config_path);
    text::add_line(&mut lines, line);
    assert(text::texts(lines@) == installed_lines(name@, exe@, config_path@));
    let dir = match logs {
        Err(e) => return Report { lines, outcome: Err(e) },
        Ok(dir) => dir,
    };
    let mut line = "  logs   : ".to_owned();
    line.append(dir.as_str());
    text::add_line(&mut lines, line);
    let ghost head = installed_lines(name@, exe@, config_path@) + seq!["  logs   : "@ + dir@];
    assert(text::texts(lines@) == head);
    if problems.len() > 0 {
        text::add_line(
            &mut lines,
            "warnings (the service runs, but these should be fixed):".to_owned(),
        );
        let ghost heading = head + seq!["warnings (the service runs, but these should be fixed):"@];
        let ghost marked = found.map_values(|p: Seq<char>| "  - "@ + p);
        assert(text::texts(lines@) == heading + marked.take(0));
        let mut i: usize = 0;
        while i < problems.len()
            invariant
                i <= problems@.len(),
                text::texts(problems@) == found,
                marked == found.map_values(|p: Seq<char>| "  - "@ + p),
                text::texts(lines@) == heading + marked.take(i as int),
            decreases problems@.len() - i,
        {
            assert(found[i as int] == problems@[i as int]@);
            let mut line = "  - ".to_owned();
            line.append(problems[i].as_str());
            text::add_line(&mut lines, line);
            i += 1;
            assert(text::texts(lines@) == heading + marked.take(i as int));
        }
        assert(found.len() == problems@.len());
        assert(marked.take(i as int) == marked);
        assert(heading + marked == head + problem_lines(found));
    }
    assert(text::texts(lines@) == head + problem_lines(found)) by {
        if problems@.len() == 0 {
            assert(found.len() == 0);
        }
    }
    text::add_line(&mut lines, "".to_owned());
    text::add_line(&mut lines, "next steps:".to_owned());
    text::add_line(
        &mut lines,
        text::joined("  1. edit ", config_path, " and fill in the connection details"),
    );
    text::add_line(&mut lines, "  2. restrict its permissions:".to_owned());
    text::add_line(
        &mut lines,
        "       icacls pppoe.toml /inheritance:r /grant:r \"BUILTIN\\Administrators:F\" \"NT AUTHORITY\\SYSTEM:F\"".to_owned(),
    );
    let mut line = "  3. start it: sc.exe start ".to_owned();
    line.append(name);
    text::add_line(&mut lines, line);
    assert(text::texts(lines@) == head + problem_lines(found) + next_step_lines(name@, config_path@));
    Report { lines, outcome: Ok(()) }
}

/// Registration of the event log source, so that Event Viewer shows readable
/// entries: what has to be done next.
#[derive(Copy, Clone, PartialEq, Eq, Debug, Structural)]
pub enum SourceStep {
    /// Create the key [`event_source_key`].
    CreateKey,
    /// Write `EventMessageFile`.
    WriteMessageFile,
    /// Write `TypesSupported`.
    WriteTypes,
    /// Close the key.
    CloseKey,
    /// Nothing.
    Over,
}

/// State of the registration of the event log source.
pub struct SourceView {
    pub step: SourceStep,
    /// Text of the first failure.
    pub failure: Option<Seq<char>>,
}

impl SourceView {
    /// The state behind this one, given the code that the call of its step
    /// returned. Nothing more is written behind a failure, and a key that was
    /// opened is closed.
    pub open spec fn after(self, rc: u32) -> SourceView {
        match self.step {
            SourceStep::CreateKey => if rc == 0 {
                SourceView { step: SourceStep::WriteMessageFile, ..self }
            } else {
                SourceView {
                    step: SourceStep::Over,
                    failure: Some(error::os_text("RegCreateKeyExW"@, rc)),
                }
            },
            SourceStep::WriteMessageFile => if rc == 0 {
                SourceView { step: SourceStep::WriteTypes, ..self }
            } else {
                SourceView {
                    step: SourceStep::CloseKey,
                    failure: Some(error::os_text("RegSetValueExW(EventMessageFile)"@, rc)),
                }
            },
            SourceStep::WriteTypes => if rc == 0 {
                SourceView { step: SourceStep::CloseKey, ..self }
            } else {
                SourceView {
                    step: SourceStep::CloseKey,
                    failure: Some(error::os_text("RegSetValueExW(TypesSupported)"@, rc)),
                }
            },
            SourceStep::CloseKey => SourceView { step: SourceStep::Over, ..self },
            SourceStep::Over => self,
        }
    }
}

/// Registration of the event log source.
pub struct SourceSetup {
    pub step: SourceStep,
    pub result: Result<(), Error>,
}

impl View for SourceSetup {
    type V = SourceView;

    open spec fn view(&self) -> SourceView {
        SourceView {
            step: self.step,
            failure: match self.result {
                Ok(_) => None,
                Err(e) => Some(e.said()),
            },
        }
    }
}

/// Begins the registration of the event log source.
pub fn register_event_source() -> (setup: SourceSetup)
    ensures
        setup@ == (SourceView { step: SourceStep::CreateKey, failure: None }),
{
    SourceSetup { step: SourceStep::CreateKey, result: Ok(()) }
}

impl SourceSetup {
    /// Takes over the code that the call of the step returned.
    pub fn advance(&mut self, rc: u32)
        ensures
            final(self)@ == old(self)@.after(rc),
            final(self).result matches Err(e) ==> e is Message || old(self).result
                == Err::<(), Error>(e),
    {
        match self.step {
            SourceStep::CreateKey => match checked("RegCreateKeyExW", rc) {
                Ok(_) => {
                    self.step = SourceStep::WriteMessageFile;
                },
                Err(e) => {
                    self.step = SourceStep::Over;
                    self.result = Err(e);
                },
            },
            SourceStep::WriteMessageFile => match checked("RegSetValueExW(EventMessageFile)", rc) {
                Ok(_) => {
                    self.step = SourceStep::WriteTypes;
                },
                Err(e) => {
                    self.step = SourceStep::CloseKey;
                    self.result = Err(e);
                },
            },
            SourceStep::WriteTypes => {
                self.step = SourceStep::CloseKey;
                match checked("RegSetValueExW(TypesSupported)", rc) {
                    Ok(_) => {},
                    Err(e) => {
                        self.result = Err(e);
                    },
                }
            },
            SourceStep::CloseKey => {
                self.step = SourceStep::Over;
            },
            SourceStep::Over => {},
        }
    }
}

/// A registration ends, whatever the calls return: after at most four of them. A
/// key that could be created is closed, right before the end.
pub proof fn an_opened_key_is_closed(first: u32, second: u32, third: u32, fourth: u32)
    ensures
        ({
            let start = SourceView { step: SourceStep::CreateKey, failure: None };
            let created = start.after(first);
            let message = created.after(second);
            let types = message.after(third);
            let end = types.after(fourth);
            &&& end.step is Over
            &&& first != 0 ==> created.step is Over
            &&& first == 0 ==> (message.step is CloseKey && types.step is Over) || (types.step
                is CloseKey && end.step is Over)
            &&& end.failure is None <==> first == 0 && second == 0 && third == 0
        }),
{
}

/// Judges the removal of the event log source.
pub fn remove_event_source(rc: u32) -> (out: Result<(), Error>)
    ensures
        if rc == 0 {
            out is Ok
        } else {
            out matches Err(e) && e is Message && e.said() == error::os_text("RegDeleteKeyW"@, rc)
        },
{
    checked("RegDeleteKeyW", rc)
}

/// Key of the event log source, below the local machine.
pub fn event_source_key(name: &str) -> (out: String)
    ensures
        out@ == "SYSTEM\\CurrentControlSet\\Services\\EventLog\\Application\\"@ + name@,
{
    let mut out = "SYSTEM\\CurrentControlSet\\Services\\EventLog\\Application\\".to_owned();
    out.append(name);
    out
}

/// The bytes of code units as they lie in memory, low byte first.
pub fn wide_as_bytes(wide: &[u16]) -> (out: Vec<u8>)
    ensures
        out@ == crate::config::bytes_of(wide@, true),
{
    let ghost all = crate::config::bytes_of(wide@, true);
    let mut out: Vec<u8> = Vec::new();
    let mut i: usize = 0;
    while i < wide.len()
        invariant
            i <= wide@.len(),
            all == crate::config::bytes_of(wide@, true),
            out@ == all.take(2 * i),
        decreases wide@.len() - i,
    {
        let unit = wide[i];
        out.push((unit % 256) as u8);
        out.push((unit / 256) as u8);
        proof {
            assert((2 * i) / 2 == i && (2 * i) % 2 == 0);
            assert((2 * i + 1) / 2 == i && (2 * i + 1) % 2 == 1);
            assert(out@ == all.take(2 * i + 2));
        }
        i += 1;
    }
    assert(out@ == all);
    out
}

/// Bytes of the `EventMessageFile` value.
pub fn message_file_value() -> (out: Vec<u8>)
    ensures
        out@ == crate::config::bytes_of(ras::terminated(EVENT_MESSAGE_FILE@), true),
{
    let wide = to_wide(EVENT_MESSAGE_FILE);
    wide_as_bytes(wide.as_slice())
}

/// Bytes of the `TypesSupported` value, low byte first.
pub fn types_value() -> (out: Vec<u8>)
    ensures
        out@ == seq![EVENT_TYPES_SUPPORTED as u8, 0u8, 0u8, 0u8],
{
    vec![EVENT_TYPES_SUPPORTED as u8, 0, 0, 0]
}

/// What to do about a service that was asked to stop.
#[derive(Copy, Clone, PartialEq, Eq, Debug, Structural)]
pub enum StopStep {
    /// It has stopped.
    Stopped,
    /// It did not stop in time and is deleted anyway.
    Overdue,
    /// Look again after [`STOP_POLL_MS`].
    Wait,
}

/// Waits for a service that was asked to stop. Stopping may take up to
/// `dial.dial_timeout_secs`: the service never aborts an in-flight dial attempt on
/// purpose.
pub fn stop_step(config: &Config, state: u32, elapsed_nanos: u128) -> (step: StopStep)
    ensures
        step == if state == SERVICE_STOPPED {
            StopStep::Stopped
        } else if elapsed_nanos >= (config.dial.dial_timeout_secs + STOP_GRACE_SECS)
            * 1_000_000_000 {
            StopStep::Overdue
        } else {
            StopStep::Wait
        },
{
    if state == SERVICE_STOPPED {
        return StopStep::Stopped;
    }
    let limit: u128 = (config.dial.dial_timeout_secs as u128 + STOP_GRACE_SECS as u128)
        * 1_000_000_000;
    if elapsed_nanos >= limit {
        StopStep::Overdue
    } else {
        StopStep::Wait
    }
}

/// Reports on the removal of the service, given what the deletion came to and what
/// the removal of the event log source came to, where the deletion worked.
pub fn uninstall(
    name: &str,
    deleted: &Result<(), SystemError>,
    source_removed: &Result<(), Error>,
) -> (out: Result<Vec<String>, Error>)
    ensures
        match *deleted {
            Err(e) => out matches Err(x) && x is Message && x.said() == if code_in(e.hresult)
                == ERROR_SERVICE_DOES_NOT_EXIST {
                about("the service \""@, name@, "\" is not installed"@)
            } else {
                told("DeleteServiceW failed: "@, e, ""@)
            },
            Ok(_) => out matches Ok(lines) && text::texts(lines@) == match *source_removed {
                Ok(_) => Seq::empty(),
                Err(e) => seq!["warning: could not remove the event log source: "@ + e.said()],
            } + seq![
                "service \""@ + name@ + "\" removed"@,
                "note: the broadband connection was left online; hang it up manually if needed"@,
            ],
        },
{
    match deleted {
        Err(e) => {
            if win32_code(e.hresult) == ERROR_SERVICE_DOES_NOT_EXIST {
                return Err(
                    Error::Message(text::joined("the service \"", name, "\" is not installed")),
                );
            }
            return Err(failed("DeleteServiceW failed: ", e, ""));
        },
        Ok(_) => {},
    }
    let mut lines: Vec<String> = Vec::new();
    assert(text::texts(lines@) == Seq::<Seq<char>>::empty());
    match source_removed {
        Ok(_) => {},
        Err(e) => {
            let mut line = "warning: could not remove the event log source: ".to_owned();
            line.append(e.message().as_str());
            text::add_line(&mut lines, line);
        },
    }
    text::add_line(&mut lines, text::joined("service \"", name, "\" removed"));
    text::add_line(
        &mut lines,
        "note: the broadband connection was left online; hang it up manually if needed".to_owned(),
    );
    assert(text::texts(lines@) == match *source_removed {
        Ok(_) => Seq::empty(),
        Err(e) => seq!["warning: could not remove the event log source: "@ + e.said()],
    } + seq![
        "service \""@ + name@ + "\" removed"@,
        "note: the broadband connection was left online; hang it up manually if needed"@,
    ]);
    Ok(lines)
}

/// Judges the start of the installed service; a service that runs already is fine.
pub fn start(name: &str, outcome: &Result<(), SystemError>) -> (out: Result<String, Error>)
    ensures
        match *outcome {
            Ok(_) => out matches Ok(line) && line@ == about(
                "service \""@,
                name@,
                "\": start requested"@,
            ),
            Err(e) => if code_in(e.hresult) == ERROR_SERVICE_ALREADY_RUNNING {
                out matches Ok(line) && line@ == about(
                    "service \""@,
                    name@,
                    "\" is already running"@,
                )
            } else {
                out matches Err(x) && x is Message && x.said() == told(
                    "StartServiceW failed: "@,
                    e,
                    ""@,
                )
            },
        },
{
    match outcome {
        Ok(_) => Ok(text::joined("service \"", name, "\": start requested")),
        Err(e) => if win32_code(e.hresult) == ERROR_SERVICE_ALREADY_RUNNING {
            Ok(text::joined("service \"", name, "\" is already running"))
        } else {
            Err(failed("StartServiceW failed: ", e, ""))
        },
    }
}

/// Judges the stop of the running service; a service that does not run is fine.
/// The broadband connection stays online.
pub fn stop(name: &str, outcome: &Result<(), SystemError>) -> (out: Result<String, Error>)
    ensures
        match *outcome {
            Ok(_) => out matches Ok(line) && line@ == about(
                "service \""@,
                name@,
                "\": stop requested (the connection is kept online)"@,
            ),
            Err(e) => if code_in(e.hresult) == ERROR_SERVICE_NOT_ACTIVE {
                out matches Ok(line) && line@ == about("service \""@, name@, "\" is not running"@)
            } else {
                out matches Err(x) && x is Message && x.said() == told(
                    "ControlService(STOP) failed: "@,
                    e,
                    ""@,
                )
            },
        },
{
    match outcome {
        Ok(_) => Ok(
            text::joined("service \"", name, "\": stop requested (the connection is kept online)"),
        ),
        Err(e) => if win32_code(e.hresult) == ERROR_SERVICE_NOT_ACTIVE {
            Ok(text::joined("service \"", name, "\" is not running"))
        } else {
            Err(failed("ControlService(STOP) failed: ", e, ""))
        },
    }
}

/// State of the service, as far as it is shown.
pub struct ServiceState {
    pub state: u32,
    pub process_id: u32,
    pub controls_accepted: u32,
}

/// The state of the service, where it could be read.
pub fn query_state(outcome: Result<ServiceState, SystemError>) -> (out: Result<
    ServiceState,
    Error,
>)
    ensures
        match outcome {
            Ok(state) => out == Ok::<ServiceState, Error>(state),
            Err(e) => out matches Err(x) && x is Message && x.said() == told(
                "QueryServiceStatusEx failed: "@,
                e,
                ""@,
            ),
        },
{
    match outcome {
        Ok(state) => Ok(state),
        Err(e) => Err(failed("QueryServiceStatusEx failed: ", &e, "")),
    }
}

/// Name of a service state.
pub open spec fn state_text(state: u32) -> Seq<char> {
    if state == 1 {
        "STOPPED"@
    } else if state == 2 {
        "START_PENDING"@
    } else if state == 3 {
        "STOP_PENDING"@
    } else if state == 4 {
        "RUNNING"@
    } else if state == 5 {
        "CONTINUE_PENDING"@
    } else if state == 6 {
        "PAUSE_PENDING"@
    } else if state == 7 {
        "PAUSED"@
    } else {
        "UNKNOWN"@
    }
}

/// Name of a service state.
pub fn state_name(state: u32) -> (name: &'static str)
    ensures
        name@ == state_text(state),
{
    match state {
        1 => "STOPPED",
        2 => "START_PENDING",
        3 => "STOP_PENDING",
        4 => "RUNNING",
        5 => "CONTINUE_PENDING",
        6 => "PAUSE_PENDING",
        7 => "PAUSED",
        _ => "UNKNOWN",
    }
}

/// Shows the state of the service.
pub fn query(name: &str, outcome: Result<ServiceState, SystemError>) -> (out: Result<String, Error>)
    ensures
        match outcome {
            Ok(s) => out matches Ok(line) && line@ == "service \""@ + name@ + "\": state="@
                + state_text(s.state) + " process_id="@ + text::decimal(s.process_id as nat)
                + " controls_accepted=0x"@ + text::hexadecimal(s.controls_accepted as nat),
            Err(e) => out matches Err(x) && x is Message && x.said() == told(
                "QueryServiceStatusEx failed: "@,
                e,
                ""@,
            ),
        },
{
    match query_state(outcome) {
        Err(e) => Err(e),
        Ok(s) => {
            let mut line = text::joined("service \"", name, "\": state=");
            line.append(state_name(s.state));
            line.append(" process_id=");
            line.append(text::number(s.process_id as u64).as_str());
            line.append(" controls_accepted=0x");
            line.append(text::hex(s.controls_accepted).as_str());
            Ok(line)
        },
    }
}

/// A Win32 error reads back from the `HRESULT` that carries it; every other code stands for
/// itself, so no two failures are taken for one another there.
pub proof fn a_win32_code_reads_back(code: u16, hresult: i32, carried: u32, other: i32, kept: u32)
    requires
        hresult == -0x7FF9_0000 + code,
        call_ensures(win32_code, (hresult,), carried),
        call_ensures(win32_code, (other,), kept),
    ensures
        carried == code,
        other >= 0 ==> kept == other,
        other < 0 && !(-0x7FF9_0000 <= other <= -0x7FF8_0001) ==> kept == other + 0x1_0000_0000,
{
}

/// A service is registered under the built-in name alone; a configured name may have white
/// space around it and nothing else.
pub proof fn only_the_built_in_name_is_registered(config: &Config, out: Result<String, Error>)
    requires
        call_ensures(service_name, (config,), out),
    ensures
        out is Ok <==> text::trimmed(config.service.name@) == "PppoeDialer"@,
        out matches Ok(name) ==> name@ == "PppoeDialer"@,
        out matches Err(e) ==> text::has_text(e.said(), text::trimmed(config.service.name@)),
{
    if out is Err {
        let name = text::trimmed(config.service.name@);
        let head = "[service] name = \""@;
        let tail = "\" does not match the built-in service name \""@ + SERVICE_NAME@
            + "\"; fix the configuration file (or rebuild the binary)"@;
        assert(out->Err_0.said() == head + name + tail);
        text::lemma_stands_between(head, name, tail);
    }
}

/// The service is created to start by itself, in a process of its own, behind the RAS
/// manager, from the given executable and under the given names.
pub proof fn a_service_is_created_to_start_by_itself(
    name: &str,
    config: &Config,
    exe: &str,
    request: InstallRequest,
)
    requires
        call_ensures(install_request, (name, config, exe), request),
        !name@.contains('\0') && !exe@.contains('\0') && !config.service.display_name@.contains('\0'),
    ensures
        crate::utf16::decoded(crate::utf16::before_nul(request.name@)) == name@,
        crate::utf16::decoded(crate::utf16::before_nul(request.binary@)) == exe@,
        crate::utf16::decoded(crate::utf16::before_nul(request.display_name@)) == config.service.display_name@,
        crate::utf16::decoded(crate::utf16::before_nul(request.dependencies@)) == "RasMan"@,
        request.dependencies@.len() >= 2 && request.dependencies@.last() == 0
            && request.dependencies@[request.dependencies@.len() - 2] == 0,
        request.start_type == 2 && request.service_type == 16,
{
    crate::link::a_wide_text_reads_back(name@);
    crate::link::a_wide_text_reads_back(exe@);
    crate::link::a_wide_text_reads_back(config.service.display_name@);
    reveal_strlit("RasMan");
    let tail = seq![0u16, 0u16];
    assert(request.dependencies@ == crate::utf16::encoded("RasMan"@) + tail);
    crate::utf16::lemma_terminated("RasMan"@, tail);
    assert(!"RasMan"@.contains('\0'));
    crate::utf16::lemma_no_nul("RasMan"@);
    crate::utf16::decoding_undoes_encoding("RasMan"@);
}

/// A service that is missing, or there already, is told as such; every other failure is
/// told with what the system said.
pub proof fn a_failure_is_told_by_its_code(
    name: &str,
    e: &SystemError,
    opened: Error,
    created: Error,
)
    requires
        call_ensures(open_service, (name, e), opened),
        call_ensures(not_created, (name, e), created),
    ensures
        e.hresult == -0x7FF9_0000 + 1060 ==> text::has_text(opened.said(), "not installed"@)
            && text::has_text(opened.said(), name@),
        e.hresult != -0x7FF9_0000 + 1060 && e.hresult != 1060 ==> text::has_text(
            opened.said(),
            e.text@,
        ),
        e.hresult == -0x7FF9_0000 + 1073 ==> text::has_text(created.said(), "already exists"@)
            && text::has_text(created.said(), name@),
        e.hresult != -0x7FF9_0000 + 1073 && e.hresult != 1073 ==> text::has_text(
            created.said(),
            e.text@,
        ),
{
    reveal_strlit("\" is not installed - run 'install' first");
    reveal_strlit("\" is ");
    reveal_strlit("not installed");
    reveal_strlit(" - run 'install' first");
    reveal_strlit("\" already exists - run 'uninstall' first");
    reveal_strlit("\" ");
    reveal_strlit("already exists");
    reveal_strlit(" - run 'uninstall' first");
    let head = "the service \""@;
    let missing = "\" is not installed - run 'install' first"@;
    let there = "\" already exists - run 'uninstall' first"@;
    text::lemma_stands_between(head, name@, missing);
    text::lemma_stands_between(head, name@, there);
    assert(missing == "\" is "@ + "not installed"@ + " - run 'install' first"@);
    assert(there == "\" "@ + "already exists"@ + " - run 'uninstall' first"@);
    assert(head + name@ + missing == (head + name@ + "\" is "@) + "not installed"@
        + " - run 'install' first"@);
    text::lemma_stands_between(
        head + name@ + "\" is "@,
        "not installed"@,
        " - run 'install' first"@,
    );
    assert(head + name@ + there == (head + name@ + "\" "@) + "already exists"@
        + " - run 'uninstall' first"@);
    text::lemma_stands_between(
        head + name@ + "\" "@,
        "already exists"@,
        " - run 'uninstall' first"@,
    );
    text::lemma_stands_between("OpenServiceW failed: "@, e.text@, ""@);
    text::lemma_stands_between(
        "CreateServiceW failed: "@,
        e.text@,
        " (this command needs administrator rights)"@,
    );
}

/// A step that failed is told with what the system said, and only then.
pub proof fn a_failed_step_is_told(
    outcome: &Result<(), SystemError>,
    description: Result<(), Error>,
    recovery: Result<(), Error>,
    rc: u32,
    removed: Result<(), Error>,
)
    requires
        call_ensures(set_description, (outcome,), description),
        call_ensures(set_recovery, (outcome,), recovery),
        call_ensures(remove_event_source, (rc,), removed),
    ensures
        description is Ok <==> *outcome is Ok,
        recovery is Ok <==> *outcome is Ok,
        removed is Ok <==> rc == 0,
        *outcome matches Err(e) ==> text::has_text(description->Err_0.said(), e.text@)
            && text::has_text(recovery->Err_0.said(), e.text@),
{
    if let Err(e) = *outcome {
        text::lemma_stands_between("ChangeServiceConfig2W(description) failed: "@, e.text@, ""@);
        text::lemma_stands_between("ChangeServiceConfig2W(recovery) failed: "@, e.text@, ""@);
    }
}

/// The service is restarted after every one of three crashes, each time later than the time
/// before, and the count starts over after a day.
pub proof fn restarts_come_later_each_time(plan: RecoveryPlan)
    requires
        call_ensures(recovery_plan, (), plan),
    ensures
        plan.delays_ms@.len() == 3,
        forall|i: int, j: int|
            0 <= i < j < 3 ==> 0 < #[trigger] plan.delays_ms@[i] < #[trigger] plan.delays_ms@[j],
        plan.reset_secs == 24 * 60 * 60,
{
}

/// An installation reports where the executable, the configuration and the log are. A
/// failing step of it is listed and never fails it; without failing steps no warning stands
/// in the report.
pub proof fn an_installation_lists_its_problems(
    name: &str,
    exe: &str,
    config_path: &str,
    logs: String,
    description: &Result<(), Error>,
    recovery: &Result<(), Error>,
    event_source: &Result<(), Error>,
    report: Report,
)
    requires
        call_ensures(
            install,
            (name, exe, config_path, Ok(logs), description, recovery, event_source),
            report,
        ),
    ensures
        ({
            let lines = text::texts(report.lines@);
            let failed = (if *description is Err {
                1int
            } else {
                0int
            }) + (if *recovery is Err {
                1int
            } else {
                0int
            }) + (if *event_source is Err {
                1int
            } else {
                0int
            });
            &&& report.outcome is Ok
            &&& lines.len() == 10 + (if failed > 0 {
                failed + 1
            } else {
                0
            })
            &&& text::has_text(lines[0], name@)
            &&& text::has_text(lines[1], exe@)
            &&& text::has_text(lines[2], config_path@)
            &&& text::has_text(lines[3], logs@)
            &&& *description matches Err(e) ==> text::has_text(lines[5], e.said())
            &&& *recovery matches Err(e) ==> text::has_text(
                lines[if *description is Err {
                    6
                } else {
                    5
                }],
                e.said(),
            )
            &&& *event_source matches Err(e) ==> text::has_text(lines[4 + failed], e.said())
            &&& text::has_text(lines[lines.len() - 4], config_path@)
            &&& text::has_text(lines[lines.len() - 1], name@)
        }),
{
    let none = Seq::<char>::empty();
    let found = problem("description"@, *description) + problem("recovery actions"@, *recovery)
        + problem("event log source"@, *event_source);
    let lines = text::texts(report.lines@);
    let head = installed_lines(name@, exe@, config_path@);
    text::lemma_stands_between("service \""@, name@, "\" installed with automatic start"@);
    assert("  binary : "@ + exe@ + none == "  binary : "@ + exe@);
    text::lemma_stands_between("  binary : "@, exe@, none);
    assert("  config : "@ + config_path@ + none == "  config : "@ + config_path@);
    text::lemma_stands_between("  config : "@, config_path@, none);
    assert("  logs   : "@ + logs@ + none == "  logs   : "@ + logs@);
    text::lemma_stands_between("  logs   : "@, logs@, none);
    assert(lines[0] == head[0] && lines[1] == head[1] && lines[2] == head[2]);
    let listed = found.map_values(|p: Seq<char>| "  - "@ + p);
    if let Err(e) = *description {
        let mark = "  - "@ + ("description"@ + ": "@);
        assert(lines[5] == listed[0]);
        assert(listed[0] == mark + e.said() + none);
        text::lemma_stands_between(mark, e.said(), none);
    }
    if let Err(e) = *recovery {
        let mark = "  - "@ + ("recovery actions"@ + ": "@);
        let at: int = if *description is Err {
            1
        } else {
            0
        };
        assert(lines[5 + at] == listed[at]);
        assert(listed[at] == mark + e.said() + none);
        text::lemma_stands_between(mark, e.said(), none);
    }
    let steps = next_step_lines(name@, config_path@);
    assert(lines[lines.len() - 4] == steps[2]);
    text::lemma_stands_between("  1. edit "@, config_path@, " and fill in the connection details"@);
    assert(lines[lines.len() - 1] == steps[5]);
    assert("  3. start it: sc.exe start "@ + name@ + none == "  3. start it: sc.exe start "@ + name@);
    text::lemma_stands_between("  3. start it: sc.exe start "@, name@, none);
    if let Err(e) = *event_source {
        let mark = "  - "@ + ("event log source"@ + ": "@);
        let last = found.len() - 1;
        assert(lines[5 + last] == listed[last]);
        assert(listed[last] == mark + e.said() + none);
        text::lemma_stands_between(mark, e.said(), none);
    }
}

/// An installation whose log directory is unknown ends with that error.
pub proof fn an_unknown_log_directory_ends_the_installation(
    name: &str,
    exe: &str,
    config_path: &str,
    e: Error,
    description: &Result<(), Error>,
    recovery: &Result<(), Error>,
    event_source: &Result<(), Error>,
    report: Report,
)
    requires
        call_ensures(
            install,
            (name, exe, config_path, Err(e), description, recovery, event_source),
            report,
        ),
    ensures
        report.outcome == Err::<(), Error>(e),
{
}

/// A stop is waited for until the service has stopped, or until a dial and twenty seconds
/// more have passed; a service that has stopped is never overdue.
pub proof fn a_stop_is_waited_for(config: &Config, state: u32, elapsed_nanos: u128, step: StopStep)
    requires
        call_ensures(stop_step, (config, state, elapsed_nanos), step),
    ensures
        step is Stopped <==> state == 1,
        step is Overdue <==> state != 1 && elapsed_nanos >= config.dial.dial_timeout_secs
            * 1_000_000_000 + 20_000_000_000,
        step is Wait <==> state != 1 && elapsed_nanos < config.dial.dial_timeout_secs
            * 1_000_000_000 + 20_000_000_000,
{
}

/// A removal succeeds exactly where the deletion worked; an event log source that could not
/// be removed is only a warning.
pub proof fn a_removal_needs_the_deletion(
    name: &str,
    deleted: &Result<(), SystemError>,
    source_removed: &Result<(), Error>,
    out: Result<Vec<String>, Error>,
)
    requires
        call_ensures(uninstall, (name, deleted, source_removed), out),
    ensures
        out is Ok <==> *deleted is Ok,
        out matches Ok(lines) ==> lines@.len() == if *source_removed is Ok {
            2nat
        } else {
            3nat
        },
        out matches Ok(lines) ==> (*source_removed matches Err(e) ==> text::has_text(
            lines@[0]@,
            e.said(),
        )),
        out matches Ok(lines) ==> text::has_text(lines@[lines@.len() - 2]@, name@),
{
    if let Ok(lines) = out {
        let all = text::texts(lines@);
        assert(all.len() == lines@.len());
        assert(all[all.len() - 2] == lines@[lines@.len() - 2]@);
        text::lemma_stands_between("service \""@, name@, "\" removed"@);
        if let Err(e) = *source_removed {
            let head = "warning: could not remove the event log source: "@;
            let none = Seq::<char>::empty();
            assert(all[0] == lines@[0]@);
            assert(head + e.said() + none == head + e.said());
            text::lemma_stands_between(head, e.said(), none);
        }
    }
}

/// Starting succeeds where the start worked or the service runs already, stopping where the
/// stop worked or the service does not run; every other failure is told with what the system
/// said.
pub proof fn starting_and_stopping_twice_is_fine(
    name: &str,
    outcome: &Result<(), SystemError>,
    started: Result<String, Error>,
    stopped: Result<String, Error>,
)
    requires
        call_ensures(start, (name, outcome), started),
        call_ensures(stop, (name, outcome), stopped),
        *outcome matches Err(e) ==> e.hresult < 0,
    ensures
        started is Ok <==> (*outcome matches Err(e) ==> e.hresult == -0x7FF9_0000 + 1056),
        stopped is Ok <==> (*outcome matches Err(e) ==> e.hresult == -0x7FF9_0000 + 1062),
        *outcome matches Err(e) ==> (started matches Err(x) ==> text::has_text(x.said(), e.text@)),
        *outcome matches Err(e) ==> (stopped matches Err(x) ==> text::has_text(x.said(), e.text@)),
{
    if let Err(e) = *outcome {
        text::lemma_stands_between("StartServiceW failed: "@, e.text@, ""@);
        text::lemma_stands_between("ControlService(STOP) failed: "@, e.text@, ""@);
    }
}

/// A state is shown with its name, its process and the controls it accepts; a state that
/// could not be read is an error.
pub proof fn a_state_is_shown(
    name: &str,
    outcome: Result<ServiceState, SystemError>,
    out: Result<String, Error>,
)
    requires
        call_ensures(query, (name, outcome), out),
    ensures
        out is Ok <==> outcome is Ok,
        outcome matches Ok(s) ==> (out matches Ok(line) && {
            &&& text::has_text(line@, name@)
            &&& text::has_text(line@, "state="@ + state_text(s.state))
            &&& text::has_text(line@, "process_id="@ + text::decimal(s.process_id as nat))
            &&& text::has_text(line@, "0x"@ + text::hexadecimal(s.controls_accepted as nat))
        }),
        outcome matches Err(e) ==> (out matches Err(x) ==> text::has_text(x.said(), e.text@)),
{
    match outcome {
        Ok(s) => {
            reveal_strlit("\": state=");
            reveal_strlit("\": ");
            reveal_strlit("state=");
            reveal_strlit(" process_id=");
            reveal_strlit(" ");
            reveal_strlit("process_id=");
            reveal_strlit(" controls_accepted=0x");
            reveal_strlit(" controls_accepted=");
            reveal_strlit("0x");
            assert("\": state="@ == "\": "@ + "state="@);
            assert(" process_id="@ == " "@ + "process_id="@);
            assert(" controls_accepted=0x"@ == " controls_accepted="@ + "0x"@);
            lemma_shown(
                name@,
                state_text(s.state),
                text::decimal(s.process_id as nat),
                text::hexadecimal(s.controls_accepted as nat),
            );
        },
        Err(e) => {
            text::lemma_stands_between("QueryServiceStatusEx failed: "@, e.text@, ""@);
        },
    }
}

proof fn lemma_shown(name: Seq<char>, state: Seq<char>, process: Seq<char>, controls: Seq<char>)
    ensures
        ({
            let line = "service \""@ + name + ("\": "@ + "state="@) + state + (" "@
                + "process_id="@) + process + (" controls_accepted="@ + "0x"@) + controls;
            &&& text::has_text(line, name)
            &&& text::has_text(line, "state="@ + state)
            &&& text::has_text(line, "process_id="@ + process)
            &&& text::has_text(line, "0x"@ + controls)
        }),
{
    let none = Seq::<char>::empty();
    let line = "service \""@ + name + ("\": "@ + "state="@) + state + (" "@ + "process_id="@)
        + process + (" controls_accepted="@ + "0x"@) + controls;
    let last = " controls_accepted="@ + ("0x"@ + controls);
    let middle = " "@ + ("process_id="@ + process) + last;
    let tail = "\": "@ + ("state="@ + state) + middle;
    assert(line == "service \""@ + name + tail);
    text::lemma_stands_between("service \""@, name, tail);
    let a = "service \""@ + name + "\": "@;
    assert(line == a + ("state="@ + state) + middle);
    text::lemma_stands_between(a, "state="@ + state, middle);
    let b = a + ("state="@ + state) + " "@;
    assert(line == b + ("process_id="@ + process) + last);
    text::lemma_stands_between(b, "process_id="@ + process, last);
    let c = b + ("process_id="@ + process) + " controls_accepted="@;
    assert(line == c + ("0x"@ + controls) + none);
    text::lemma_stands_between(c, "0x"@ + controls, none);
}

/// Each of the seven states of a service has a name of its own, and no other number has one.
pub proof fn states_are_told_apart(state: u32, name: &str)
    requires
        call_ensures(state_name, (state,), name),
    ensures
        name@ == "STOPPED"@ <==> state == 1,
        name@ == "START_PENDING"@ <==> state == 2,
        name@ == "STOP_PENDING"@ <==> state == 3,
        name@ == "RUNNING"@ <==> state == 4,
        name@ == "CONTINUE_PENDING"@ <==> state == 5,
        name@ == "PAUSE_PENDING"@ <==> state == 6,
        name@ == "PAUSED"@ <==> state == 7,
        name@ == "UNKNOWN"@ <==> state == 0 || state > 7,
{
    reveal_strlit("STOPPED");
    reveal_strlit("START_PENDING");
    reveal_strlit("STOP_PENDING");
    reveal_strlit("RUNNING");
    reveal_strlit("CONTINUE_PENDING");
    reveal_strlit("PAUSE_PENDING");
    reveal_strlit("PAUSED");
    reveal_strlit("UNKNOWN");
    assert("STOPPED"@.len() == 7 && "STOPPED"@[0] == 'S');
    assert("START_PENDING"@.len() == 13 && "START_PENDING"@[0] == 'S');
    assert("STOP_PENDING"@.len() == 12 && "STOP_PENDING"@[0] == 'S');
    assert("RUNNING"@.len() == 7 && "RUNNING"@[0] == 'R');
    assert("CONTINUE_PENDING"@.len() == 16 && "CONTINUE_PENDING"@[0] == 'C');
    assert("PAUSE_PENDING"@.len() == 13 && "PAUSE_PENDING"@[0] == 'P');
    assert("PAUSED"@.len() == 6 && "PAUSED"@[0] == 'P');
    assert("UNKNOWN"@.len() == 7 && "UNKNOWN"@[0] == 'U');
}

/// The value of the event log source reads back as the path it was made of.
pub proof fn a_wide_value_reads_back(wide: &[u16], out: Vec<u8>)
    requires
        call_ensures(wide_as_bytes, (wide,), out),
    ensures
        out@.len() == 2 * wide@.len(),
        forall|i: int|
            0 <= i < wide@.len() ==> out@[2 * i] + 256 * out@[2 * i + 1] == #[trigger] wide@[i],
{
    assert forall|i: int| 0 <= i < wide@.len() implies out@[2 * i] + 256 * out@[2 * i + 1]
        == #[trigger] wide@[i] by {
        let unit: u16 = wide@[i];
        assert((2 * i) / 2 == i && (2 * i) % 2 == 0);
        assert((2 * i + 1) / 2 == i && (2 * i + 1) % 2 == 1);
        assert(out@[2 * i] == (unit % 256) as u8);
        assert(out@[2 * i + 1] == (unit / 256) as u8);
    }
}

/// A failed connection to the service control manager is told with what the system said, and
/// so is a failed deletion, unless the service is not there.
pub proof fn a_refused_manager_is_told(
    e: &SystemError,
    refused: Error,
    name: &str,
    source_removed: &Result<(), Error>,
    kept: Result<Vec<String>, Error>,
)
    requires
        call_ensures(open_scm, (e,), refused),
        call_ensures(uninstall, (name, &Err(*e), source_removed), kept),
    ensures
        text::has_text(refused.said(), e.text@),
        kept matches Err(x) && {
            &&& e.hresult == -0x7FF9_0000 + 1060 ==> text::has_text(x.said(), name@)
            &&& e.hresult < 0 && e.hresult != -0x7FF9_0000 + 1060 ==> text::has_text(
                x.said(),
                e.text@,
            )
        },
{
    text::lemma_stands_between(
        "OpenSCManagerW failed: "@,
        e.text@,
        " - this command needs administrator rights"@,
    );
    text::lemma_stands_between("the service \""@, name@, "\" is not installed"@);
    text::lemma_stands_between("DeleteServiceW failed: "@, e.text@, ""@);
}

/// Starting and stopping is told by the name of the service.
pub proof fn a_control_is_told_by_the_name(
    name: &str,
    outcome: &Result<(), SystemError>,
    started: Result<String, Error>,
    stopped: Result<String, Error>,
)
    requires
        call_ensures(start, (name, outcome), started),
        call_ensures(stop, (name, outcome), stopped),
    ensures
        started matches Ok(line) ==> text::has_text(line@, name@),
        stopped matches Ok(line) ==> text::has_text(line@, name@),
{
    let head = "service \""@;
    text::lemma_stands_between(head, name@, "\": start requested"@);
    text::lemma_stands_between(head, name@, "\" is already running"@);
    text::lemma_stands_between(
        head,
        name@,
        "\": stop requested (the connection is kept online)"@,
    );
    text::lemma_stands_between(head, name@, "\" is not running"@);
}

/// The registration of the event log source goes on while nothing fails: the key, the message
/// file, the types, and the end. The first failure is kept, with the code that came back, and
/// nothing more is written behind it.
pub proof fn a_registration_stops_at_the_first_failure(setup: &mut SourceSetup, rc: u32, done: ())
    requires
        call_ensures(SourceSetup::advance, (setup, rc), done),
    ensures
        old(setup).step is CreateKey ==> final(setup).step == if rc == 0 {
            SourceStep::WriteMessageFile
        } else {
            SourceStep::Over
        },
        old(setup).step is WriteMessageFile ==> final(setup).step == if rc == 0 {
            SourceStep::WriteTypes
        } else {
            SourceStep::CloseKey
        },
        old(setup).step is WriteTypes ==> final(setup).step is CloseKey,
        old(setup).step is CloseKey ==> final(setup).step is Over,
        old(setup).step is Over ==> final(setup).step is Over,
        (old(setup).step is CloseKey || old(setup).step is Over || rc == 0) ==> final(setup)@.failure
            == old(setup)@.failure,
        !(old(setup).step is CloseKey) && !(old(setup).step is Over) && rc != 0 ==> (final(
            setup
        )@.failure matches Some(told) && text::has_text(told, text::decimal(rc as nat))),
{
    let none = Seq::<char>::empty();
    let number = text::decimal(rc as nat);
    let a = "RegCreateKeyExW"@ + " failed with error code "@;
    let b = "RegSetValueExW(EventMessageFile)"@ + " failed with error code "@;
    let c = "RegSetValueExW(TypesSupported)"@ + " failed with error code "@;
    assert(a + number + none == a + number);
    assert(b + number + none == b + number);
    assert(c + number + none == c + number);
    text::lemma_stands_between(a, number, none);
    text::lemma_stands_between(b, number, none);
    text::lemma_stands_between(c, number, none);
}

/// The key of the event log source is named after the service, and its values name the
/// message file and the three supported types.
pub proof fn the_event_source_is_named_after_the_service(
    name: &str,
    key: String,
    setup: SourceSetup,
    types: Vec<u8>,
    file: Vec<u8>,
)
    requires
        call_ensures(event_source_key, (name,), key),
        call_ensures(register_event_source, (), setup),
        call_ensures(types_value, (), types),
        call_ensures(message_file_value, (), file),
    ensures
        exists|head: Seq<char>| key@ == #[trigger] (head + name@),
        setup.step is CreateKey && setup.result is Ok,
        types@ == seq![7u8, 0u8, 0u8, 0u8],
        file@.len() == 2 * ras::terminated("%SystemRoot%\\System32\\EventCreate.exe"@).len(),
{
    let head = "SYSTEM\\CurrentControlSet\\Services\\EventLog\\Application\\"@;
    assert(key@ == head + name@);
    assert(setup@.failure is None);
}

} // verus!
