//! Event driven dial state machine.
//!
//! The worker owns the whole "keep the connection up" logic.
//!
//! ```text
//!   +---------------------------------------------------------------+
//!   |  wait for a system notification (or a back-off deadline)      |
//!   +---------------------------------------------------------------+
//!                 |                          ^
//!                 v                          |
//!   evaluate: cable?  -> down  -> wait ------+
//!             already online? -> wait -------+
//!             otherwise dial
//!                 |  ok  -> wait (connection is up, owned by RasMan)
//!                 |  err -> back-off, then wait
//! ```
//!
//! The machine names the next action; the caller performs it and hands back the
//! event it came to, together with which the machine hands out the records for the
//! log. Nothing here polls: the caller blocks on the stop event, the IP interface
//! change event and the RAS connection change event, and the interface table and
//! the connection table are evaluated **once per wake-up**.
//!
//! A connection that is up is never hung up. It is owned by the `RasMan` service,
//! so it survives the service (and even a crash) - by design.

use vstd::prelude::*;

use crate::backoff::{Backoff, BackoffView};
use crate::config::Config;
use crate::config;
use crate::error::Error;
use crate::link::{describe_candidates, LinkStatus};
use crate::link;
use crate::logger::Level;
use crate::notice::{add_to, Notice, Said};
use crate::notice;
use crate::ras::{describe_connections, describe_error, error_code, ConnectionInfo};
use crate::ras;
use crate::text;

verus! {

/// "Event driven only": a wait without a deadline.
pub const INFINITE: u32 = 0xFFFF_FFFF;

/// `ERROR_DIAL_ALREADY_IN_PROGRESS`: an earlier attempt keeps the port busy.
pub const DIAL_ALREADY_IN_PROGRESS: u32 = 756;

/// Blocked attempts without an abort after which the way out is named.
pub const BLOCKED_LIMIT: u32 = 3;

/// Shortest delay behind a failure that looks like a configuration problem:
/// those are not worth hammering the server for.
pub const CONFIGURATION_DELAY_SECS: u64 = 60;

/// Why the worker woke up.
#[derive(Copy, Clone, PartialEq, Eq, Debug, Structural)]
pub enum Wake {
    /// The service is stopping.
    Stop,
    /// A system notification arrived.
    Signal,
    /// The optional safety re-check (or a back-off deadline) elapsed.
    Timeout,
    /// The wait itself failed.
    Failed,
}

/// Meaning of what the wait for the stop event, the IP interface change event and
/// the RAS connection change event, in this order, returned.
pub open spec fn wake_for(rc: u32) -> Wake {
    if rc == 0 {
        Wake::Stop
    } else if rc == 1 || rc == 2 {
        Wake::Signal
    } else if rc == ras::WAIT_TIMEOUT {
        Wake::Timeout
    } else {
        Wake::Failed
    }
}

/// Meaning of what a wait returned. The stop event must be the first handle of the
/// wait: the lowest signalled index is reported, so a stop request always wins.
pub fn wake_of(rc: u32) -> (wake: Wake)
    ensures
        wake == wake_for(rc),
{
    if rc == 0 {
        Wake::Stop
    } else if rc == 1 || rc == 2 {
        Wake::Signal
    } else if rc == ras::WAIT_TIMEOUT {
        Wake::Timeout
    } else {
        Wake::Failed
    }
}

/// Milliseconds as the wait functions take them; the largest value means "no
/// deadline".
pub fn millis32(millis: u128) -> (out: u32)
    ensures
        out == if millis >= u32::MAX {
            u32::MAX as int
        } else {
            millis as int
        },
{
    if millis >= u32::MAX as u128 {
        u32::MAX
    } else {
        millis as u32
    }
}

/// Seconds in milliseconds, as far as the wait functions take them.
pub open spec fn wait_millis(secs: int) -> int {
    if secs * 1000 >= u32::MAX {
        u32::MAX as int
    } else {
        secs * 1000
    }
}

/// Deadline of the waits that no back-off sets.
pub open spec fn safety_wait(safety_recheck_secs: u64) -> int {
    if safety_recheck_secs == 0 {
        INFINITE as int
    } else {
        wait_millis(safety_recheck_secs as int)
    }
}

/// Deadline of the waits that no back-off sets, from the configuration.
pub fn safety_timeout_ms(cfg: &Config) -> (out: u32)
    ensures
        out == safety_wait(cfg.monitor.safety_recheck_secs),
{
    if cfg.monitor.safety_recheck_secs == 0 {
        INFINITE
    } else {
        millis32(cfg.monitor.safety_recheck_secs as u128 * 1000)
    }
}

/// Length of the coalescing window, from the configuration.
pub fn debounce_ms(cfg: &Config) -> (out: u32)
    ensures
        out == if cfg.monitor.event_debounce_ms > u32::MAX {
            u32::MAX as int
        } else {
            cfg.monitor.event_debounce_ms as int
        },
{
    if cfg.monitor.event_debounce_ms > u32::MAX as u64 {
        u32::MAX
    } else {
        cfg.monitor.event_debounce_ms as u32
    }
}

/// What has to be done next to wait for a change.
#[derive(Copy, Clone, PartialEq, Eq, Debug, Structural)]
pub enum Waiting {
    /// Wait for a notification.
    First { timeout_ms: u32 },
    /// Wait for further notifications of the same burst: a single cable event
    /// produces several interface updates.
    Burst { timeout_ms: u32 },
    /// Sleep for a second, in order not to spin on a broken wait.
    Pause,
    /// Nothing: this is why the wait ended.
    Over(Wake),
}

impl Waiting {
    /// A burst is swallowed until `debounce_ms` have passed since its first
    /// notification; `elapsed_nanos` have.
    pub open spec fn burst(debounce_ms: u32, elapsed_nanos: u128) -> Waiting {
        let left = debounce_ms * 1_000_000 - elapsed_nanos;
        if left <= 0 {
            Waiting::Over(Wake::Signal)
        } else if left < 1_000_000 {
            Waiting::Burst { timeout_ms: 1 }
        } else {
            Waiting::Burst { timeout_ms: (left / 1_000_000) as u32 }
        }
    }

    /// The step behind this one, which ended with the given wake-up.
    pub open spec fn after(self, wake: Wake, debounce_ms: u32, elapsed_nanos: u128) -> Waiting {
        match self {
            Waiting::First { .. } => match wake {
                Wake::Signal => Waiting::burst(debounce_ms, elapsed_nanos),
                Wake::Failed => Waiting::Pause,
                Wake::Stop => Waiting::Over(Wake::Stop),
                Wake::Timeout => Waiting::Over(Wake::Timeout),
            },
            Waiting::Burst { .. } => match wake {
                Wake::Signal => Waiting::burst(debounce_ms, elapsed_nanos),
                Wake::Stop => Waiting::Over(Wake::Stop),
                Wake::Timeout | Wake::Failed => Waiting::Over(Wake::Signal),
            },
            Waiting::Pause => Waiting::Over(Wake::Failed),
            Waiting::Over(_) => self,
        }
    }

    fn swallow(debounce_ms: u32, elapsed_nanos: u128) -> (step: Waiting)
        ensures
            step == Waiting::burst(debounce_ms, elapsed_nanos),
    {
        let window: u128 = debounce_ms as u128 * 1_000_000;
        if elapsed_nanos >= window {
            return Waiting::Over(Wake::Signal);
        }
        let left: u128 = (window - elapsed_nanos) / 1_000_000;
        if left < 1 {
            Waiting::Burst { timeout_ms: 1 }
        } else {
            Waiting::Burst { timeout_ms: left as u32 }
        }
    }

    /// The step behind this one: coalesces bursts of notifications into one
    /// evaluation. `elapsed_nanos` is the time since the first notification of the
    /// burst. A step behind [`Waiting::Pause`] needs no wake-up; whatever is given
    /// for it is not looked at.
    pub fn next(self, wake: Wake, debounce_ms: u32, elapsed_nanos: u128) -> (step: Waiting)
        ensures
            step == self.after(wake, debounce_ms, elapsed_nanos),
    {
        match self {
            Waiting::First { .. } => match wake {
                Wake::Signal => Waiting::swallow(debounce_ms, elapsed_nanos),
                Wake::Failed => Waiting::Pause,
                Wake::Stop => Waiting::Over(Wake::Stop),
                Wake::Timeout => Waiting::Over(Wake::Timeout),
            },
            Waiting::Burst { .. } => match wake {
                Wake::Signal => Waiting::swallow(debounce_ms, elapsed_nanos),
                Wake::Stop => Waiting::Over(Wake::Stop),
                Wake::Timeout | Wake::Failed => Waiting::Over(Wake::Signal),
            },
            Waiting::Pause => Waiting::Over(Wake::Failed),
            Waiting::Over(_) => self,
        }
    }

    /// Record that goes with this step, if any.
    pub fn warning(self) -> (out: Option<Notice>)
        ensures
            match self {
                Waiting::Pause => out matches Some(n) && n@ == notice::warn(
                    "WaitForMultipleObjects failed; retrying in 1s"@,
                ),
                _ => out is None,
            },
    {
        match self {
            Waiting::Pause => Some(
                Notice {
                    level: Level::Warn,
                    text: "WaitForMultipleObjects failed; retrying in 1s".to_owned(),
                },
            ),
            _ => None,
        }
    }
}

/// Whenever a wait reports a stop request, the whole wait ends with it, also in
/// the middle of a burst.
pub proof fn a_stop_request_ends_every_wait(step: Waiting, debounce_ms: u32, elapsed_nanos: u128)
    requires
        step is First || step is Burst,
    ensures
        step.after(Wake::Stop, debounce_ms, elapsed_nanos) == Waiting::Over(Wake::Stop),
{
}

/// A burst is swallowed for no longer than the coalescing window: once that has
/// passed the wait is over, and until then no step waits beyond it, but for the
/// granularity of a millisecond.
pub proof fn a_burst_ends_with_its_window(step: Waiting, wake: Wake, debounce_ms: u32, elapsed: u128)
    requires
        step is First || step is Burst,
    ensures
        elapsed >= debounce_ms * 1_000_000 ==> !(step.after(wake, debounce_ms, elapsed) is Burst),
        step.after(wake, debounce_ms, elapsed) matches Waiting::Burst { timeout_ms } ==> {
            &&& 1 <= timeout_ms <= debounce_ms
            &&& timeout_ms == 1 || elapsed + timeout_ms * 1_000_000 <= debounce_ms * 1_000_000
        },
{
}

/// What the caller of the machine has to do next.
#[derive(Copy, Clone, PartialEq, Eq, Debug, Structural)]
pub enum Action {
    /// Make sure that the phone book entry exists, see
    /// [`crate::ras::ensure_entry`].
    EnsureEntry,
    /// Check the cable, see [`crate::link::check`].
    CheckCable,
    /// Look whether the connection is online, see [`crate::ras::is_connected`].
    CheckOnline,
    /// Dial, see [`crate::ras::dial`].
    Dial,
    /// List the connections for the log.
    ListConnections,
    /// Hang up the stale attempts of the entry, see
    /// [`crate::ras::abort_stale_attempts`].
    AbortStale,
    /// Wait for a change, see [`Waiting`].
    Wait { timeout_ms: u32 },
    /// Return.
    Stop,
}

/// What an action came to.
pub enum Event {
    Entry(Result<bool, Error>),
    Cable(Result<LinkStatus, Error>),
    Online(Result<bool, Error>),
    Dialed(Result<(), Error>),
    Listed(Result<Vec<ConnectionInfo>, Error>),
    /// How many stale attempts were hung up, see [`crate::ras::aborted_count`].
    Aborted(Result<usize, Error>),
    Woken(Wake),
}

/// Record for the outcome of making sure of the phone book entry.
pub open spec fn entry_said(entry: Seq<char>, outcome: Result<bool, Error>) -> Said {
    match outcome {
        Ok(true) => notice::info("created the phone book entry \""@ + entry + "\""@),
        Ok(false) => notice::debug("phone book entry \""@ + entry + "\" already exists"@),
        Err(e) => notice::warn(
            "cannot verify the phone book entry \""@ + entry + "\": "@ + e.said()
                + " (check dial.pbk_path and its permissions; dialling may fail with code 623)"@,
        ),
    }
}

/// Record for the outcome of making sure of the phone book entry.
///
/// A failure is never fatal: the dial attempt that follows reports the real RAS
/// error and the retry logic takes over from there.
pub fn prepare_entry(entry: &str, outcome: &Result<bool, Error>) -> (out: Notice)
    ensures
        out@ == entry_said(entry@, *outcome),
{
    match outcome {
        Ok(created) => if *created {
            Notice {
                level: Level::Info,
                text: text::joined("created the phone book entry \"", entry, "\""),
            }
        } else {
            Notice {
                level: Level::Debug,
                text: text::joined("phone book entry \"", entry, "\" already exists"),
            }
        },
        Err(e) => {
            let mut text = text::joined("cannot verify the phone book entry \"", entry, "\": ");
            text.append(e.message().as_str());
            text.append(
                " (check dial.pbk_path and its permissions; dialling may fail with code 623)",
            );
            Notice { level: Level::Warn, text }
        },
    }
}

/// Verdict of a cable check in a record.
pub open spec fn verdict_text(status: LinkStatus) -> Seq<char> {
    "cable check: usable="@ + text::truth(status.up) + " fallback="@ + text::truth(status.fallback)
        + " reason=\""@ + status.reason@ + "\""@
}

/// Usable adapters of a cable check in a record.
pub open spec fn candidates_text(status: LinkStatus) -> Seq<char> {
    "["@ + link::entries_text(
        status.adapters@.filter(|a: link::AdapterInfo| !a.is_filter),
    ) + "]"@
}

/// Adapter that decided a cable check in a record.
pub open spec fn decided_text(adapter: link::AdapterInfo) -> Seq<char> {
    "cable verdict decided by \""@ + adapter.alias@ + "\" (hardware="@ + text::truth(
        adapter.hardware,
    ) + ", connector_present="@ + text::truth(adapter.connector_present) + ")"@
}

/// Verdict of a cable check in a record.
pub fn verdict_line(status: &LinkStatus) -> (out: String)
    ensures
        out@ == verdict_text(*status),
{
    let mut out = "cable check: usable=".to_owned();
    out.append(text::flag(status.up).as_str());
    out.append(" fallback=");
    out.append(text::flag(status.fallback).as_str());
    out.append(" reason=\"");
    out.append(status.reason.as_str());
    out.append("\"");
    out
}

fn decided_line(adapter: &link::AdapterInfo) -> (out: String)
    ensures
        out@ == decided_text(*adapter),
{
    let mut out = text::joined("cable verdict decided by \"", adapter.alias.as_str(), "\" (hardware=");
    out.append(text::flag(adapter.hardware).as_str());
    out.append(", connector_present=");
    out.append(text::flag(adapter.connector_present).as_str());
    out.append(")");
    out
}

/// Record for a failed dial.
pub open spec fn failure_text(e: Error) -> Seq<char> {
    match e {
        Error::Ras(failure) => {
            let told = "dial failed: code="@ + text::decimal(failure.code as nat) + " ("@
                + ras::error_text(failure.code) + ")"@;
            if ras::is_retryable(failure.code) {
                told
            } else {
                told + " - this looks like a configuration problem"@
            }
        },
        Error::Message(_) => "dial failed: "@ + e.said(),
    }
}

fn failure_line(e: &Error) -> (out: String)
    ensures
        out@ == failure_text(*e),
{
    match error_code(e) {
        Some(code) => {
            let info = describe_error(code);
            let mut out = text::joined(
                "dial failed: code=",
                text::number(info.code as u64).as_str(),
                " (",
            );
            out.append(info.message);
            out.append(")");
            if !info.retryable {
                out.append(" - this looks like a configuration problem");
            }
            out
        },
        None => {
            let mut out = "dial failed: ".to_owned();
            out.append(e.message().as_str());
            out
        },
    }
}

/// Record for a port that stays busy although nothing is left to hang up.
pub open spec fn stuck_text(entry: Seq<char>) -> Seq<char> {
    "connection \""@ + entry
        + "\" is still blocked and no stale attempt could be aborted: the port is stuck inside the RAS manager, run `net stop RasMan` or reboot"@
}

/// State of the machine.
pub struct WorkerView {
    /// Name of the phone book entry.
    pub entry: Seq<char>,
    /// The cable is checked before dialling.
    pub check_cable: bool,
    /// Deadline of the waits that no back-off sets.
    pub safety_ms: u32,
    /// The cable was found unplugged.
    pub cable_down: bool,
    /// The connection was found online.
    pub online: bool,
    /// Consecutive blocked attempts for which nothing could be aborted.
    pub blocked: u32,
    /// Code of the last failed dial.
    pub failure: Option<u32>,
    pub backoff: BackoffView,
    /// What has to be done next.
    pub action: Action,
}

/// Delay behind a failed dial, in seconds.
pub open spec fn retry_delay(backoff: BackoffView, failure: Option<u32>) -> int {
    let delay = backoff.delay();
    if failure matches Some(code) && !ras::is_retryable(code) && delay < CONFIGURATION_DELAY_SECS {
        CONFIGURATION_DELAY_SECS as int
    } else {
        delay
    }
}

impl WorkerView {
    /// First action of an evaluation.
    pub open spec fn top(self) -> Action {
        if self.check_cable {
            Action::CheckCable
        } else {
            Action::CheckOnline
        }
    }

    /// The same state with another action.
    pub open spec fn at(self, action: Action) -> WorkerView {
        WorkerView { action, ..self }
    }

    /// The same state, waiting for a notification or the safety re-check.
    pub open spec fn waiting(self) -> WorkerView {
        self.at(Action::Wait { timeout_ms: self.safety_ms })
    }

    /// A check of the cable. An unplugged cable is waited out; a failed check
    /// never stops the service.
    pub open spec fn after_cable(self, outcome: Result<LinkStatus, Error>) -> (
        WorkerView,
        Seq<Said>,
    ) {
        match outcome {
            Err(e) => (
                self.at(Action::CheckOnline),
                seq![notice::warn("cannot read the interface table: "@ + e.said())],
            ),
            Ok(status) => {
                let told = seq![
                    notice::debug(
                        verdict_text(status) + " candidates="@ + candidates_text(status),
                    ),
                ];
                if !status.up {
                    (
                        (WorkerView { cable_down: true, ..self }).waiting(),
                        told + notice::only_if(
                            !self.cable_down,
                            notice::warn("network cable is not connected: "@ + status.reason@),
                        ),
                    )
                } else {
                    (
                        (WorkerView { cable_down: false, ..self }).at(Action::CheckOnline),
                        told + notice::only_if(
                            self.cable_down,
                            notice::info("network cable is connected: "@ + status.reason@),
                        ) + match status.decided_by {
                            Some(adapter) => seq![notice::debug(decided_text(adapter))],
                            None => Seq::empty(),
                        } + notice::only_if(
                            status.fallback,
                            notice::warn(
                                "no adapter reports a media state; continuing on operational status"@,
                            ),
                        ),
                    )
                }
            },
        }
    }

    /// A look at the connection: it is left alone when it is online, and dialled
    /// otherwise.
    pub open spec fn after_online(self, outcome: Result<bool, Error>) -> (WorkerView, Seq<Said>) {
        let dialling = notice::only_if(
            self.backoff.attempts == 0,
            notice::info("dialling \""@ + self.entry + "\""@),
        );
        match outcome {
            Ok(true) => (
                (WorkerView { online: true, ..self }).waiting(),
                notice::only_if(
                    !self.online,
                    notice::info(
                        "connection \""@ + self.entry
                            + "\" is already online - no dial needed, waiting for events"@,
                    ),
                ),
            ),
            Ok(false) => (
                (WorkerView { online: false, ..self }).at(Action::Dial),
                notice::only_if(
                    self.online,
                    notice::warn("connection \""@ + self.entry + "\" went offline"@),
                ) + dialling,
            ),
            Err(e) => (
                self.at(Action::Dial),
                seq![notice::warn("cannot enumerate RAS connections: "@ + e.said())] + dialling,
            ),
        }
    }

    /// A dial. Its success ends the back-off.
    pub open spec fn after_dial(self, outcome: Result<(), Error>) -> (WorkerView, Seq<Said>) {
        match outcome {
            Ok(_) => (
                (WorkerView {
                    online: true,
                    blocked: 0,
                    backoff: BackoffView { attempts: 0, ..self.backoff },
                    ..self
                }).at(self.top()),
                seq![
                    notice::info("dial succeeded, connection \""@ + self.entry + "\" is up"@),
                ],
            ),
            Err(e) => (
                (WorkerView {
                    failure: match e {
                        Error::Ras(failure) => Some(failure.code),
                        Error::Message(_) => None,
                    },
                    ..self
                }).at(Action::ListConnections),
                seq![notice::error(failure_text(e))],
            ),
        }
    }

    /// The wait behind a failed dial.
    pub open spec fn backed_off(self) -> (WorkerView, Said) {
        let delay = retry_delay(self.backoff, self.failure);
        let backoff = self.backoff.advanced();
        (
            (WorkerView { backoff, ..self }).at(
                Action::Wait { timeout_ms: wait_millis(delay) as u32 },
            ),
            notice::warn(
                "retrying in "@ + text::decimal(delay as nat) + "s (attempt "@ + text::decimal(
                    backoff.attempts as nat,
                ) + ")"@,
            ),
        )
    }

    /// The connection table behind a failed dial. An attempt that was blocked by
    /// an earlier one has the stale attempts hung up; every other failure is
    /// backed off from.
    pub open spec fn after_list(self, outcome: Result<Vec<ConnectionInfo>, Error>) -> (
        WorkerView,
        Seq<Said>,
    ) {
        let told = match outcome {
            Ok(list) => notice::debug(
                "RAS connections: "@ + ("["@ + ras::connections_text(list@) + "]"@),
            ),
            Err(e) => notice::debug("cannot enumerate RAS connections: "@ + e.said()),
        };
        if self.failure == Some(DIAL_ALREADY_IN_PROGRESS) {
            (self.at(Action::AbortStale), seq![told])
        } else {
            let (state, retry) = (WorkerView { blocked: 0, ..self }).backed_off();
            (state, seq![told, retry])
        }
    }

    /// Hanging up the stale attempts. When there were some, the back-off is
    /// dropped and the next evaluation follows at once. After three blocked
    /// attempts in a row for which nothing could be aborted the way out is named.
    pub open spec fn after_abort(self, outcome: Result<usize, Error>) -> (WorkerView, Seq<Said>) {
        match outcome {
            Ok(0) => {
                let blocked = if self.blocked == u32::MAX {
                    u32::MAX
                } else {
                    (self.blocked + 1) as u32
                };
                let (state, retry) = (WorkerView { blocked, ..self }).backed_off();
                (
                    state,
                    notice::only_if(
                        blocked == BLOCKED_LIMIT,
                        notice::warn(stuck_text(self.entry)),
                    ).push(retry),
                )
            },
            Ok(count) => (
                (WorkerView {
                    blocked: 0,
                    backoff: BackoffView { attempts: 0, ..self.backoff },
                    ..self
                }).at(self.top()),
                seq![
                    notice::info(
                        "stale dial attempts aborted: "@ + text::decimal(count as nat)
                            + " - dialling again"@,
                    ),
                ],
            ),
            Err(e) => {
                let (state, retry) = self.backed_off();
                (
                    state,
                    seq![notice::warn("cannot abort stale dial attempts: "@ + e.said()), retry],
                )
            },
        }
    }

    /// The end of a wait. Everything but a stop request is a reason for the next
    /// evaluation.
    pub open spec fn after_wait(self, wake: Wake) -> (WorkerView, Seq<Said>) {
        if wake is Stop {
            (
                self.at(Action::Stop),
                seq![
                    notice::info(
                        "worker stopped; the broadband connection is left online (RasHangUp is never called)"@,
                    ),
                ],
            )
        } else {
            (self.at(self.top()), Seq::empty())
        }
    }

    /// Next state, and the records that go with it. An event that does not answer
    /// the action in question changes nothing.
    pub open spec fn after(self, event: Event) -> (WorkerView, Seq<Said>) {
        match (self.action, event) {
            (Action::EnsureEntry, Event::Entry(outcome)) => (
                self.at(self.top()),
                seq![entry_said(self.entry, outcome)],
            ),
            (Action::CheckCable, Event::Cable(outcome)) => self.after_cable(outcome),
            (Action::CheckOnline, Event::Online(outcome)) => self.after_online(outcome),
            (Action::Dial, Event::Dialed(outcome)) => self.after_dial(outcome),
            (Action::ListConnections, Event::Listed(outcome)) => self.after_list(outcome),
            (Action::AbortStale, Event::Aborted(outcome)) => self.after_abort(outcome),
            (Action::Wait { .. }, Event::Woken(wake)) => self.after_wait(wake),
            _ => (self, Seq::empty()),
        }
    }
}

/// The dial state machine.
pub struct Worker {
    entry: String,
    check_cable: bool,
    safety_ms: u32,
    cable_down: bool,
    online: bool,
    blocked: u32,
    failure: Option<u32>,
    backoff: Backoff,
    action: Action,
}

impl View for Worker {
    type V = WorkerView;

    closed spec fn view(&self) -> WorkerView {
        WorkerView {
            entry: self.entry@,
            check_cable: self.check_cable,
            safety_ms: self.safety_ms,
            cable_down: self.cable_down,
            online: self.online,
            blocked: self.blocked,
            failure: self.failure,
            backoff: self.backoff@,
            action: self.action,
        }
    }
}

impl WorkerView {
    /// The state that the machine begins with.
    pub open spec fn is_initial(self, cfg: Config) -> bool {
        &&& self.entry == cfg.dial.entry_name@
        &&& self.check_cable == cfg.link_check.enabled
        &&& self.safety_ms == safety_wait(cfg.monitor.safety_recheck_secs)
        &&& !self.cable_down
        &&& !self.online
        &&& self.blocked == 0
        &&& self.failure is None
        &&& self.backoff.is_sound()
        &&& self.backoff.is_fresh(cfg.monitor)
        &&& self.action == if cfg.dial.create_entry_if_missing {
            Action::EnsureEntry
        } else {
            self.top()
        }
    }
}

/// Begins the dial state machine. The caller registers the notifications, writes the
/// record that came back, performs [`Worker::action`] and hands what it came to to
/// [`Worker::advance`], until the action is to stop.
///
/// Fails as [`Config::interface_types`] does, before anything is registered.
pub fn run(cfg: &Config) -> (out: Result<(Worker, Notice), Error>)
    ensures
        ({
            let names = text::texts(cfg.link_check.interface_types@);
            if names.len() == 0 {
                out matches Err(e) && e is Message && e.said()
                    == "link_check.interface_types must not be empty"@
            } else {
                match config::unsupported(names) {
                    Some(other) => out matches Err(e) && e is Message && e.said()
                        == "link_check.interface_types contains unsupported value '"@ + other
                        + "' (supported: ethernet)"@,
                    None => {
                        &&& out matches Ok(begun)
                        &&& begun.0@.is_initial(*cfg)
                        &&& begun.1@ == notice::info(
                            "notifications registered: IP interface changes + all RAS connection events"@,
                        )
                    },
                }
            }
        }),
{
    match cfg.interface_types() {
        Ok(_) => {},
        Err(e) => return Err(e),
    }
    let check_cable = cfg.link_check.enabled;
    let action = if cfg.dial.create_entry_if_missing {
        Action::EnsureEntry
    } else if check_cable {
        Action::CheckCable
    } else {
        Action::CheckOnline
    };
    let worker = Worker {
        entry: cfg.dial.entry_name.clone(),
        check_cable,
        safety_ms: safety_timeout_ms(cfg),
        cable_down: false,
        online: false,
        blocked: 0,
        failure: None,
        backoff: Backoff::new(&cfg.monitor),
        action,
    };
    let registered = Notice {
        level: Level::Info,
        text:
            "notifications registered: IP interface changes + all RAS connection events".to_owned(),
    };
    Ok((worker, registered))
}

impl Worker {
    /// What has to be done next.
    pub fn action(&self) -> (action: Action)
        ensures
            action == self@.action,
    {
        self.action
    }

    fn top(&self) -> (action: Action)
        ensures
            action == self@.top(),
    {
        if self.check_cable {
            Action::CheckCable
        } else {
            Action::CheckOnline
        }
    }

    /// Takes over what the action came to, and hands out the records for the log.
    pub fn advance(&mut self, event: &Event) -> (notices: Vec<Notice>)
        ensures
            final(self)@ == old(self)@.after(*event).0,
            notice::said(notices@) == old(self)@.after(*event).1,
    {
        let mut notices: Vec<Notice> = Vec::new();
        assert(notice::said(notices@) == Seq::<Said>::empty());
        match (self.action, event) {
            (Action::EnsureEntry, Event::Entry(outcome)) => {
                let record = prepare_entry(self.entry.as_str(), outcome);
                add_to(&mut notices, record.level, record.text);
                self.action = self.top();
                assert(notice::said(notices@) == old(self)@.after(*event).1);
            },
            (Action::CheckCable, Event::Cable(outcome)) => self.cable(outcome, &mut notices),
            (Action::CheckOnline, Event::Online(outcome)) => self.connection(
                outcome,
                &mut notices,
            ),
            (Action::Dial, Event::Dialed(outcome)) => self.dialed(outcome, &mut notices),
            (Action::ListConnections, Event::Listed(outcome)) => self.listed(
                outcome,
                &mut notices,
            ),
            (Action::AbortStale, Event::Aborted(outcome)) => self.aborted(outcome, &mut notices),
            (Action::Wait { .. }, Event::Woken(wake)) => {
                if *wake == Wake::Stop {
                    self.action = Action::Stop;
                    add_to(
                        &mut notices,
                        Level::Info,
                        "worker stopped; the broadband connection is left online (RasHangUp is never called)".to_owned(),
                    );
                    assert(notice::said(notices@) == old(self)@.after(*event).1);
                } else {
                    self.action = self.top();
                }
            },
            _ => {},
        }
        notices
    }

    fn cable(&mut self, outcome: &Result<LinkStatus, Error>, notices: &mut Vec<Notice>)
        requires
            notice::said(old(notices)@) == Seq::<Said>::empty(),
        ensures
            final(self)@ == old(self)@.after_cable(*outcome).0,
            notice::said(final(notices)@) == old(self)@.after_cable(*outcome).1,
    {
        match outcome {
            Err(e) => {
                let mut text = "cannot read the interface table: ".to_owned();
                text.append(e.message().as_str());
                add_to(notices, Level::Warn, text);
                self.action = Action::CheckOnline;
            },
            Ok(status) => {
                let mut told = verdict_line(status);
                told.append(" candidates=");
                told.append(describe_candidates(status.adapters.as_slice()).as_str());
                add_to(notices, Level::Debug, told);
                if !status.up {
                    if !self.cable_down {
                        self.cable_down = true;
                        let mut text = "network cable is not connected: ".to_owned();
                        text.append(status.reason.as_str());
                        add_to(notices, Level::Warn, text);
                    }
                    self.action = Action::Wait { timeout_ms: self.safety_ms };
                } else {
                    if self.cable_down {
                        self.cable_down = false;
                        let mut text = "network cable is connected: ".to_owned();
                        text.append(status.reason.as_str());
                        add_to(notices, Level::Info, text);
                    }
                    match &status.decided_by {
                        Some(adapter) => add_to(notices, Level::Debug, decided_line(adapter)),
                        None => {},
                    }
                    if status.fallback {
                        add_to(
                            notices,
                            Level::Warn,
                            "no adapter reports a media state; continuing on operational status".to_owned(),
                        );
                    }
                    self.action = Action::CheckOnline;
                }
            },
        }
        assert(notice::said(notices@) == old(self)@.after_cable(*outcome).1);
    }

    fn connection(&mut self, outcome: &Result<bool, Error>, notices: &mut Vec<Notice>)
        requires
            notice::said(old(notices)@) == Seq::<Said>::empty(),
        ensures
            final(self)@ == old(self)@.after_online(*outcome).0,
            notice::said(final(notices)@) == old(self)@.after_online(*outcome).1,
    {
        match outcome {
            Ok(online) => {
                if *online {
                    if !self.online {
                        self.online = true;
                        add_to(
                            notices,
                            Level::Info,
                            text::joined(
                                "connection \"",
                                self.entry.as_str(),
                                "\" is already online - no dial needed, waiting for events",
                            ),
                        );
                    }
                    self.action = Action::Wait { timeout_ms: self.safety_ms };
                    assert(notice::said(notices@) == old(self)@.after_online(*outcome).1);
                    return;
                }
                if self.online {
                    self.online = false;
                    add_to(
                        notices,
                        Level::Warn,
                        text::joined("connection \"", self.entry.as_str(), "\" went offline"),
                    );
                }
            },
            Err(e) => {
                let mut text = "cannot enumerate RAS connections: ".to_owned();
                text.append(e.message().as_str());
                add_to(notices, Level::Warn, text);
            },
        }
        if self.backoff.attempts() == 0 {
            add_to(notices, Level::Info, text::joined("dialling \"", self.entry.as_str(), "\""));
        }
        self.action = Action::Dial;
        assert(notice::said(notices@) == old(self)@.after_online(*outcome).1);
    }

    fn dialed(&mut self, outcome: &Result<(), Error>, notices: &mut Vec<Notice>)
        requires
            notice::said(old(notices)@) == Seq::<Said>::empty(),
        ensures
            final(self)@ == old(self)@.after_dial(*outcome).0,
            notice::said(final(notices)@) == old(self)@.after_dial(*outcome).1,
    {
        match outcome {
            Ok(_) => {
                self.online = true;
                self.blocked = 0;
                self.backoff.reset();
                add_to(
                    notices,
                    Level::Info,
                    text::joined("dial succeeded, connection \"", self.entry.as_str(), "\" is up"),
                );
                self.action = self.top();
            },
            Err(e) => {
                self.failure = error_code(e);
                add_to(notices, Level::Error, failure_line(e));
                self.action = Action::ListConnections;
            },
        }
        assert(notice::said(notices@) == old(self)@.after_dial(*outcome).1);
    }

    fn back_off(&mut self, notices: &mut Vec<Notice>)
        ensures
            final(self)@ == old(self)@.backed_off().0,
            notice::said(final(notices)@) == notice::said(old(notices)@).push(
                old(self)@.backed_off().1,
            ),
    {
        let mut delay: u64 = self.backoff.next_delay();
        match self.failure {
            Some(code) => {
                if !describe_error(code).retryable && delay < CONFIGURATION_DELAY_SECS {
                    delay = CONFIGURATION_DELAY_SECS;
                }
            },
            None => {},
        }
        let mut text = text::joined("retrying in ", text::number(delay).as_str(), "s (attempt ");
        text.append(text::number(self.backoff.attempts() as u64).as_str());
        text.append(")");
        add_to(notices, Level::Warn, text);
        self.action = Action::Wait { timeout_ms: millis32(delay as u128 * 1000) };
    }

    fn listed(&mut self, outcome: &Result<Vec<ConnectionInfo>, Error>, notices: &mut Vec<Notice>)
        requires
            notice::said(old(notices)@) == Seq::<Said>::empty(),
        ensures
            final(self)@ == old(self)@.after_list(*outcome).0,
            notice::said(final(notices)@) == old(self)@.after_list(*outcome).1,
    {
        let told = match outcome {
            Ok(list) => {
                let mut text = "RAS connections: ".to_owned();
                text.append(describe_connections(list.as_slice()).as_str());
                text
            },
            Err(e) => {
                let mut text = "cannot enumerate RAS connections: ".to_owned();
                text.append(e.message().as_str());
                text
            },
        };
        add_to(notices, Level::Debug, told);
        let blocked = match self.failure {
            Some(code) => code == DIAL_ALREADY_IN_PROGRESS,
            None => false,
        };
        if blocked {
            self.action = Action::AbortStale;
        } else {
            self.blocked = 0;
            self.back_off(notices);
        }
        assert(notice::said(notices@) == old(self)@.after_list(*outcome).1);
    }

    fn aborted(&mut self, outcome: &Result<usize, Error>, notices: &mut Vec<Notice>)
        requires
            notice::said(old(notices)@) == Seq::<Said>::empty(),
        ensures
            final(self)@ == old(self)@.after_abort(*outcome).0,
            notice::said(final(notices)@) == old(self)@.after_abort(*outcome).1,
    {
        match outcome {
            Ok(count) => {
                if *count == 0 {
                    self.blocked = self.blocked.saturating_add(1);
                    if self.blocked == BLOCKED_LIMIT {
                        add_to(
                            notices,
                            Level::Warn,
                            text::joined(
                                "connection \"",
                                self.entry.as_str(),
                                "\" is still blocked and no stale attempt could be aborted: the port is stuck inside the RAS manager, run `net stop RasMan` or reboot",
                            ),
                        );
                    }
                    self.back_off(notices);
                } else {
                    self.blocked = 0;
                    self.backoff.reset();
                    add_to(
                        notices,
                        Level::Info,
                        text::joined(
                            "stale dial attempts aborted: ",
                            text::number(*count as u64).as_str(),
                            " - dialling again",
                        ),
                    );
                    self.action = self.top();
                }
            },
            Err(e) => {
                let mut text = "cannot abort stale dial attempts: ".to_owned();
                text.append(e.message().as_str());
                add_to(notices, Level::Warn, text);
                self.back_off(notices);
            },
        }
        assert(notice::said(notices@) == old(self)@.after_abort(*outcome).1);
    }
}

/// An online connection is never dialled again: the machine turns to dialling only
/// when it has just looked and has not found the connection online.
pub proof fn dialling_follows_a_look_at_the_connection(w: WorkerView, event: Event)
    requires
        !(w.action is Dial),
        w.after(event).0.action is Dial,
    ensures
        w.action is CheckOnline,
        event matches Event::Online(outcome) && outcome != Ok::<bool, Error>(true),
{
}

/// With the cable check enabled, the machine looks at the connection, and so comes
/// to dial, only when it has just checked the cable and has not found it
/// unplugged.
pub proof fn nothing_is_dialled_without_a_cable(w: WorkerView, event: Event)
    requires
        w.check_cable,
        !(w.action is CheckOnline),
        w.after(event).0.action is CheckOnline,
    ensures
        w.action is CheckCable,
        event matches Event::Cable(outcome) && (outcome matches Ok(status) ==> status.up),
{
}

/// An unplugged cable and an online connection are waited on without a dial, until
/// a notification arrives or the safety re-check is due.
pub proof fn a_settled_line_is_left_alone(w: WorkerView, event: Event)
    requires
        ({
            ||| w.action is CheckCable && (event matches Event::Cable(Ok(status)) && !status.up)
            ||| w.action is CheckOnline && event == Event::Online(Ok(true))
        }),
    ensures
        w.after(event).0.action == (Action::Wait { timeout_ms: w.safety_ms }),
        w.after(event).0.backoff == w.backoff,
{
}

/// A stop request during a wait stops the machine, nothing else does, and stopping
/// is final.
pub proof fn only_a_stop_request_stops(w: WorkerView, event: Event)
    ensures
        w.action is Wait && event == Event::Woken(Wake::Stop) ==> w.after(event).0.action is Stop,
        !(w.action is Stop) && w.after(event).0.action is Stop ==> w.action is Wait && event
            == Event::Woken(Wake::Stop),
        w.action is Stop ==> w.after(event) == (w, Seq::<Said>::empty()),
{
}

/// Connections are hung up only behind a dial that was rejected because an earlier
/// attempt keeps the port busy.
pub proof fn attempts_are_aborted_only_when_blocked(w: WorkerView, event: Event)
    requires
        !(w.action is AbortStale),
        w.after(event).0.action is AbortStale,
    ensures
        w.failure == Some(DIAL_ALREADY_IN_PROGRESS),
        w.action is ListConnections,
{
}

/// Behind a failed dial the machine always waits at least a second, and at least a
/// minute when the failure looks like a configuration problem. The one exception
/// is a blocked dial whose stale attempts could be hung up: it starts over at once,
/// with the back-off dropped.
pub proof fn failures_are_backed_off_from(w: WorkerView, event: Event)
    requires
        w.backoff.is_sound(),
        w.action is ListConnections && event is Listed || w.action is AbortStale && event is Aborted,
    ensures
        w.after(event).0.action matches Action::Wait { timeout_ms } ==> {
            &&& timeout_ms >= 1_000
            &&& w.failure matches Some(code) ==> ras::is_retryable(code) || timeout_ms >= 60_000
            &&& w.after(event).0.backoff == w.backoff.advanced()
        },
        !(w.after(event).0.action is Wait) && !(w.after(event).0.action is AbortStale) ==> {
            &&& event matches Event::Aborted(Ok(count))
            &&& count > 0
            &&& w.after(event).0.action == w.top()
            &&& w.after(event).0.backoff.attempts == 0
        },
{
    crate::backoff::a_delay_is_never_empty(w.backoff);
}

/// Whatever happens, the entry and the settings stay, and the back-off stays sound.
pub proof fn the_machine_stays_sound(w: WorkerView, event: Event)
    requires
        w.backoff.is_sound(),
    ensures
        w.after(event).0.backoff.is_sound(),
        w.after(event).0.entry == w.entry,
        w.after(event).0.check_cable == w.check_cable,
        w.after(event).0.safety_ms == w.safety_ms,
        w.after(event).0.backoff.base == w.backoff.base,
        w.after(event).0.backoff.max == w.backoff.max,
        w.after(event).0.backoff.jitter == w.backoff.jitter,
{
    crate::backoff::xorshift_never_stalls(w.backoff.seed);
}

/// A blocked attempt for which nothing could be aborted is counted, and the way out is
/// named with the third one in a row; a success, another failure or an aborted
/// attempt starts the count over.
pub proof fn the_third_blocked_attempt_names_the_way_out(w: WorkerView)
    requires
        w.action is AbortStale,
        w.blocked == BLOCKED_LIMIT - 1,
    ensures
        w.after(Event::Aborted(Ok(0))).0.blocked == BLOCKED_LIMIT,
        w.after(Event::Aborted(Ok(0))).1.contains(notice::warn(stuck_text(w.entry))),
        forall|count: usize| count > 0 ==> (#[trigger] w.after(Event::Aborted(Ok(count)))).0.blocked
            == 0,
        forall|outcome: Result<Vec<ConnectionInfo>, Error>|
            w.failure != Some(DIAL_ALREADY_IN_PROGRESS) ==> (#[trigger] w.after_list(
                outcome,
            )).0.blocked == 0,
        w.after_dial(Ok(())).0.blocked == 0,
{
    let told = w.after(Event::Aborted(Ok(0))).1;
    assert(told[0] == notice::warn(stuck_text(w.entry)));
}

/// The event tells what the action came to.
pub open spec fn answers(action: Action, event: Event) -> bool {
    match action {
        Action::EnsureEntry => event is Entry,
        Action::CheckCable => event is Cable,
        Action::CheckOnline => event is Online,
        Action::Dial => event is Dialed,
        Action::ListConnections => event is Listed,
        Action::AbortStale => event is Aborted,
        Action::Wait { .. } => event is Woken,
        Action::Stop => false,
    }
}

/// The state reached from another one with a sequence of events.
pub open spec fn reached(w: WorkerView, events: Seq<Event>) -> WorkerView
    decreases events.len(),
{
    if events.len() == 0 {
        w
    } else {
        reached(w, events.drop_last()).after(events.last()).0
    }
}

/// Each event of the sequence answers the action that it finds.
pub open spec fn is_run(w: WorkerView, events: Seq<Event>) -> bool
    decreases events.len(),
{
    events.len() > 0 ==> {
        &&& is_run(w, events.drop_last())
        &&& answers(reached(w, events.drop_last()).action, events.last())
    }
}

/// The event says that the cable is unplugged.
pub open spec fn says_unplugged(event: Event) -> bool {
    event matches Event::Cable(Ok(status)) && !status.up
}

proof fn lemma_settings_stay(w: WorkerView, events: Seq<Event>)
    ensures
        reached(w, events).check_cable == w.check_cable,
    decreases events.len(),
{
    if events.len() > 0 {
        lemma_settings_stay(w, events.drop_last());
    }
}

/// Of a whole run: whenever the machine asks to dial, the event right before is a
/// look at the connection that did not find it online, and, with the cable check
/// enabled, the one before that is a check of the cable that did not find it
/// unplugged.
pub proof fn every_dial_was_checked(w: WorkerView, events: Seq<Event>)
    requires
        w.action is EnsureEntry || w.action == w.top(),
        is_run(w, events),
        reached(w, events).action is Dial,
    ensures
        events.len() >= 1,
        events.last() matches Event::Online(outcome) && outcome != Ok::<bool, Error>(true),
        w.check_cable ==> events.len() >= 2 && events[events.len() - 2] is Cable && !says_unplugged(
            events[events.len() - 2],
        ),
{
    let before = events.drop_last();
    lemma_settings_stay(w, before);
    if w.check_cable {
        assert(reached(w, before).action is CheckOnline);
        assert(before.len() > 0);
        let earlier = reached(w, before.drop_last());
        lemma_settings_stay(w, before.drop_last());
        assert(before.last() == events[events.len() - 2]);
        assert(reached(w, before) == earlier.after(before.last()).0);
        assert(is_run(w, before));
        assert(answers(earlier.action, before.last()));
    }
}

/// The two states are those of machines with the same settings.
pub open spec fn same_settings(a: WorkerView, b: WorkerView) -> bool {
    &&& a.entry == b.entry
    &&& a.check_cable == b.check_cable
    &&& a.safety_ms == b.safety_ms
    &&& a.backoff.base == b.backoff.base
    &&& a.backoff.max == b.backoff.max
    &&& a.backoff.jitter == b.backoff.jitter
}

/// A successful dial starts the retries over, however many attempts failed before: the
/// machine has no failed attempt left and the connection counts as online. With the
/// cable check enabled the next look is at the cable, otherwise at the connection.
pub proof fn a_success_starts_the_retries_over(worker: &mut Worker, notices: Vec<Notice>)
    requires
        old(worker)@.action is Dial,
        call_ensures(Worker::advance, (worker, &Event::Dialed(Ok(()))), notices),
    ensures
        final(worker)@.backoff.attempts == 0,
        final(worker)@.blocked == 0,
        final(worker)@.online,
        final(worker)@.cable_down == old(worker)@.cable_down,
        same_settings(final(worker)@, old(worker)@),
        old(worker)@.check_cable ==> final(worker)@.action is CheckCable,
        !old(worker)@.check_cable ==> final(worker)@.action is CheckOnline,
        notices@.len() == 1,
        notices@[0].level == Level::Info,
        text::has_text(notices@[0].text@, old(worker)@.entry),
{
    let told = notice::said(notices@);
    assert(told.len() == 1 && told[0] == notices@[0]@);
    text::lemma_stands_between(
        "dial succeeded, connection \""@,
        old(worker)@.entry,
        "\" is up"@,
    );
}

/// From a successful dial on no attempt is counted until a dial fails again, over any
/// number of events.
pub proof fn nothing_is_counted_behind_a_success(w: WorkerView, events: Seq<Event>)
    requires
        w.action is Dial,
        events.len() > 0,
        events[0] == Event::Dialed(Ok(())),
        forall|i: int| 0 < i < events.len() ==> !(#[trigger] events[i] matches Event::Dialed(Err(_))),
    ensures
        reached(w, events).backoff.attempts == 0,
        !(reached(w, events).action is ListConnections),
        !(reached(w, events).action is AbortStale),
    decreases events.len(),
{
    let before = events.drop_last();
    if events.len() == 1 {
        assert(reached(w, before) == w);
        assert(events.last() == events[0]);
    } else {
        assert(before[0] == events[0]);
        assert forall|i: int| 0 < i < before.len() implies !(
        #[trigger] before[i] matches Event::Dialed(Err(_))) by {
            assert(before[i] == events[i]);
        }
        nothing_is_counted_behind_a_success(w, before);
        let last = events[events.len() - 1];
        assert(events.last() == last);
    }
}

/// The first failed dial behind a success, or behind the start, is waited out with the
/// configured first delay, moved by the jitter only, and is told as the first attempt.
/// Left out are failures that look like a configuration problem, and the blocked dials.
pub proof fn the_first_retry_waits_the_first_delay(
    w: WorkerView,
    outcome: Result<Vec<ConnectionInfo>, Error>,
)
    requires
        w.action is ListConnections,
        w.backoff.is_sound(),
        w.backoff.attempts == 0,
        w.backoff.base + w.backoff.jitter <= 4_000_000,
        w.failure matches Some(code) ==> code != 756 && code != 691 && code != 739 && !(621 <= code
            <= 624),
    ensures
        ({
            let (next, told) = w.after(Event::Listed(outcome));
            &&& next.backoff.attempts == 1
            &&& next.action matches Action::Wait { timeout_ms }
            &&& (w.backoff.base - w.backoff.jitter) * 1000 <= timeout_ms
            &&& timeout_ms <= (w.backoff.base + w.backoff.jitter) * 1000
            &&& w.backoff.jitter == 0 ==> timeout_ms == w.backoff.base * 1000
            &&& told.last() == notice::warn(
                "retrying in "@ + text::decimal((timeout_ms / 1000) as nat) + "s (attempt "@
                    + text::decimal(1) + ")"@,
            )
        }),
{
    crate::backoff::delays_double_up_to_the_cap(w.backoff.base, w.backoff.max, 1);
    crate::backoff::a_reset_starts_over(w.backoff);
    crate::backoff::jitter_moves_the_plain_delay(w.backoff);
    crate::backoff::each_failure_doubles_the_delay(BackoffView { jitter: 0, ..w.backoff });
}

/// Whenever a failed dial is backed off from, the wait is the next delay of the
/// back-off, or a minute where that is longer and the failure looks like a
/// configuration problem; one attempt more is counted, and the record tells both the
/// delay and the attempt.
pub proof fn the_wait_is_the_delay_of_the_back_off(w: WorkerView, event: Event)
    requires
        w.backoff.is_sound(),
        ({
            ||| w.action is ListConnections && event is Listed && w.failure != Some(756u32)
            ||| w.action is AbortStale && ((event matches Event::Aborted(Err(_))) || event
                == Event::Aborted(Ok(0)))
        }),
    ensures
        ({
            let (next, told) = w.after(event);
            let hopeless = w.failure matches Some(code) && (code == 691 || code == 739 || 621
                <= code <= 624);
            let delay = if hopeless && w.backoff.delay() < 60 {
                60
            } else {
                w.backoff.delay()
            };
            &&& next.action matches Action::Wait { timeout_ms }
            &&& timeout_ms == if delay * 1000 < 0xFFFF_FFFF {
                delay * 1000
            } else {
                0xFFFF_FFFF
            }
            &&& next.backoff == w.backoff.advanced()
            &&& w.backoff.attempts < u32::MAX ==> next.backoff.attempts == w.backoff.attempts + 1
            &&& told.len() > 0
            &&& told.last() == notice::warn(
                "retrying in "@ + text::decimal(delay as nat) + "s (attempt "@ + text::decimal(
                    next.backoff.attempts as nat,
                ) + ")"@,
            )
            &&& next.online == w.online
            &&& next.cable_down == w.cable_down
        }),
{
    crate::backoff::a_delay_is_never_empty(w.backoff);
}

/// The attempts, and with them the delays, change only behind a dial: a success and an
/// aborted attempt forget them, a failure counts one. No other event touches them.
pub proof fn only_dials_move_the_back_off(w: WorkerView, event: Event)
    ensures
        w.after(event).0.backoff != w.backoff ==> {
            ||| w.action is Dial && (event matches Event::Dialed(Ok(_)))
            ||| w.action is ListConnections && event is Listed && w.failure != Some(756u32)
            ||| w.action is AbortStale && event is Aborted
        },
        w.after(event).0.backoff.attempts > w.backoff.attempts ==> w.after(event).0.action is Wait,
        w.after(event).0.backoff.attempts < w.backoff.attempts ==> w.after(
            event,
        ).0.backoff.attempts == 0 && ((event matches Event::Dialed(Ok(_))) || (event matches Event::Aborted(
            Ok(count),
        ) && count > 0)),
{
}

/// A failed dial keeps its code for what follows and has the connections listed; the
/// attempts are not touched yet. It is told as an error that names the code.
pub proof fn a_failed_dial_is_looked_into(w: WorkerView, e: Error)
    requires
        w.action is Dial,
    ensures
        ({
            let (next, told) = w.after(Event::Dialed(Err(e)));
            &&& next.action is ListConnections
            &&& next.failure == match e {
                Error::Ras(failure) => Some(failure.code),
                Error::Message(_) => None,
            }
            &&& next.backoff == w.backoff
            &&& next.blocked == w.blocked
            &&& next.online == w.online
            &&& next.cable_down == w.cable_down
            &&& same_settings(next, w)
            &&& told.len() == 1
            &&& told[0].level == Level::Error
            &&& e matches Error::Ras(failure) ==> text::has_text(
                told[0].text,
                "code="@ + text::decimal(failure.code as nat),
            )
            &&& e matches Error::Message(text) ==> text::has_text(told[0].text, text@)
        }),
{
    let told = w.after(Event::Dialed(Err(e))).1;
    match e {
        Error::Ras(failure) => {
            let code = text::decimal(failure.code as nat);
            let tail = if ras::is_retryable(failure.code) {
                " ("@ + ras::error_text(failure.code) + ")"@
            } else {
                " ("@ + ras::error_text(failure.code) + ")"@
                    + " - this looks like a configuration problem"@
            };
            reveal_strlit("dial failed: code=");
            reveal_strlit("dial failed: ");
            reveal_strlit("code=");
            assert("dial failed: code="@ == "dial failed: "@ + "code="@);
            assert(told[0].text == "dial failed: "@ + ("code="@ + code) + tail);
            text::lemma_stands_between("dial failed: "@, "code="@ + code, tail);
        },
        Error::Message(text) => {
            assert("dial failed: "@ + text@ + Seq::<char>::empty() == "dial failed: "@ + text@);
            text::lemma_stands_between("dial failed: "@, text@, Seq::empty());
        },
    }
}

/// A dial that an earlier attempt blocks has the stale attempts hung up; every other
/// failed dial is waited out, and starts the count of blocked attempts over.
pub proof fn a_blocked_dial_is_freed(w: WorkerView, outcome: Result<Vec<ConnectionInfo>, Error>)
    requires
        w.action is ListConnections,
    ensures
        ({
            let next = w.after(Event::Listed(outcome)).0;
            &&& next.action is AbortStale <==> w.failure == Some(756u32)
            &&& next.action is Wait <==> w.failure != Some(756u32)
            &&& w.failure == Some(756u32) ==> next.blocked == w.blocked && next.backoff == w.backoff
            &&& w.failure != Some(756u32) ==> next.blocked == 0
            &&& next.failure == w.failure
            &&& next.online == w.online
            &&& next.cable_down == w.cable_down
            &&& same_settings(next, w)
        }),
{
}

/// Where stale attempts were hung up the machine starts over at once, from the first
/// check, with nothing counted. Where there was nothing to hang up, one more blocked
/// attempt is counted; a failure to hang up is waited out and counts as none.
pub proof fn hanging_up_starts_over(w: WorkerView, outcome: Result<usize, Error>)
    requires
        w.action is AbortStale,
    ensures
        ({
            let (next, told) = w.after(Event::Aborted(outcome));
            &&& (outcome matches Ok(count) && count > 0) ==> {
                &&& next.backoff.attempts == 0
                &&& next.blocked == 0
                &&& w.check_cable ==> next.action is CheckCable
                &&& !w.check_cable ==> next.action is CheckOnline
            }
            &&& outcome == Ok::<usize, Error>(0) ==> {
                &&& next.action is Wait
                &&& next.blocked == if w.blocked < u32::MAX {
                    w.blocked + 1
                } else {
                    u32::MAX as int
                }
                &&& told.len() == if w.blocked == 2 {
                    2nat
                } else {
                    1nat
                }
            }
            &&& outcome is Err ==> next.action is Wait && next.blocked == w.blocked
            &&& next.online == w.online
            &&& next.cable_down == w.cable_down
            &&& same_settings(next, w)
        }),
{
}

/// Whatever making sure of the phone book entry came to, the checks of the line follow,
/// and nothing else changes. A failure is told as a warning.
pub proof fn the_entry_never_stops_the_machine(w: WorkerView, outcome: Result<bool, Error>)
    requires
        w.action is EnsureEntry,
    ensures
        ({
            let (next, told) = w.after(Event::Entry(outcome));
            &&& w.check_cable ==> next == (WorkerView { action: Action::CheckCable, ..w })
            &&& !w.check_cable ==> next == (WorkerView { action: Action::CheckOnline, ..w })
            &&& told.len() == 1
            &&& told[0].level == match outcome {
                Ok(true) => Level::Info,
                Ok(false) => Level::Debug,
                Err(_) => Level::Warn,
            }
            &&& text::has_text(told[0].text, w.entry)
            &&& outcome matches Err(e) ==> text::has_text(told[0].text, e.said())
        }),
{
    let told = w.after(Event::Entry(outcome)).1[0].text;
    match outcome {
        Ok(true) => {
            text::lemma_stands_between("created the phone book entry \""@, w.entry, "\""@);
        },
        Ok(false) => {
            text::lemma_stands_between("phone book entry \""@, w.entry, "\" already exists"@);
        },
        Err(e) => {
            let head = "cannot verify the phone book entry \""@;
            let tail
                = " (check dial.pbk_path and its permissions; dialling may fail with code 623)"@;
            let behind = "\": "@ + e.said() + tail;
            assert(told == head + w.entry + behind);
            text::lemma_stands_between(head, w.entry, behind);
            assert(told == (head + w.entry + "\": "@) + e.said() + tail);
            text::lemma_stands_between(head + w.entry + "\": "@, e.said(), tail);
        },
    }
}

/// The machine goes on behind a cable that is in, and behind a check that failed; it
/// waits behind one that is out. That the cable went out or came back is remembered, and
/// told at the moment of the change only.
pub proof fn a_change_of_the_cable_is_told_once(w: WorkerView, outcome: Result<LinkStatus, Error>)
    requires
        w.action is CheckCable,
    ensures
        ({
            let (next, told) = w.after(Event::Cable(outcome));
            let out = outcome matches Ok(status) && !status.up;
            &&& out ==> next.action == (Action::Wait { timeout_ms: w.safety_ms }) && next.cable_down
            &&& !out ==> next.action is CheckOnline
            &&& outcome is Err ==> next.cable_down == w.cable_down
            &&& outcome matches Ok(status) ==> next.cable_down == !status.up
            &&& outcome matches Ok(status) ==> {
                let unplugged = notice::warn("network cable is not connected: "@ + status.reason@);
                let plugged = notice::info("network cable is connected: "@ + status.reason@);
                &&& told.len() >= 1
                &&& told[0].level == Level::Debug
                &&& text::has_text(told[0].text, status.reason@)
                &&& status.up ==> told.len() == 1 + (if w.cable_down {
                    1int
                } else {
                    0int
                }) + (if status.decided_by is Some {
                    1int
                } else {
                    0int
                }) + (if status.fallback {
                    1int
                } else {
                    0int
                })
                &&& status.up ==> (told.last().level == Level::Warn <==> status.fallback)
                &&& !status.up ==> told.len() == if w.cable_down {
                    1nat
                } else {
                    2nat
                }
                &&& !status.up && !w.cable_down ==> told[1] == unplugged
                &&& status.up && w.cable_down ==> told[1] == plugged
                &&& status.up && !w.cable_down ==> forall|i: int|
                    0 <= i < told.len() ==> (#[trigger] told[i]).level != Level::Info
            }
            &&& outcome matches Err(e) ==> told == seq![
                notice::warn("cannot read the interface table: "@ + e.said()),
            ]
            &&& next.backoff == w.backoff
            &&& next.blocked == w.blocked
            &&& next.failure == w.failure
            &&& next.online == w.online
            &&& same_settings(next, w)
        }),
{
    if let Ok(status) = outcome {
        let head = "cable check: usable="@ + text::truth(status.up) + " fallback="@ + text::truth(
            status.fallback,
        ) + " reason=\""@;
        let tail = "\""@ + " candidates="@ + candidates_text(status);
        let told = w.after(Event::Cable(outcome)).1[0].text;
        assert(told == head + status.reason@ + tail);
        text::lemma_stands_between(head, status.reason@, tail);
    }
}

/// A connection that is online is waited on, any other is dialled. That it went offline
/// is told at the moment of the change, and the dial is announced unless an attempt
/// failed right before.
pub proof fn a_change_of_the_connection_is_told_once(w: WorkerView, outcome: Result<bool, Error>)
    requires
        w.action is CheckOnline,
    ensures
        ({
            let (next, told) = w.after(Event::Online(outcome));
            let offline = notice::warn("connection \""@ + w.entry + "\" went offline"@);
            let dialling = notice::info("dialling \""@ + w.entry + "\""@);
            &&& outcome == Ok::<bool, Error>(true) ==> next.action == (Action::Wait {
                timeout_ms: w.safety_ms,
            }) && next.online && told.len() == if w.online {
                0nat
            } else {
                1nat
            }
            &&& outcome == Ok::<bool, Error>(true) && !w.online ==> told[0].level == Level::Info
            &&& outcome != Ok::<bool, Error>(true) ==> next.action is Dial
            &&& outcome == Ok::<bool, Error>(false) ==> !next.online && (w.online ==> told.len() > 0
                && told[0] == offline) && told.len() == (if w.online {
                1nat
            } else {
                0nat
            }) + (if w.backoff.attempts == 0 {
                1nat
            } else {
                0nat
            })
            &&& outcome matches Err(e) ==> next.online == w.online && told.len() > 0 && told[0]
                == notice::warn("cannot enumerate RAS connections: "@ + e.said())
            &&& outcome != Ok::<bool, Error>(true) && w.backoff.attempts == 0 ==> told.len() > 0
                && told.last() == dialling
            &&& next.backoff == w.backoff
            &&& next.blocked == w.blocked
            &&& next.failure == w.failure
            &&& next.cable_down == w.cable_down
            &&& same_settings(next, w)
        }),
{
}

/// Every end of a wait but a stop request leads to a new evaluation, from its first
/// check on, with everything else as it was and nothing to tell.
pub proof fn every_wake_up_is_a_new_evaluation(w: WorkerView, wake: Wake)
    requires
        w.action is Wait,
        wake != Wake::Stop,
    ensures
        ({
            let (next, told) = w.after(Event::Woken(wake));
            &&& w.check_cable ==> next.action is CheckCable
            &&& !w.check_cable ==> next.action is CheckOnline
            &&& next.backoff == w.backoff
            &&& next.blocked == w.blocked
            &&& next.failure == w.failure
            &&& next.online == w.online
            &&& next.cable_down == w.cable_down
            &&& same_settings(next, w)
            &&& told.len() == 0
        }),
{
}

/// Stopping changes nothing about what is known of the line, and is told.
pub proof fn a_stop_leaves_the_line_alone(w: WorkerView)
    requires
        w.action is Wait,
    ensures
        ({
            let (next, told) = w.after(Event::Woken(Wake::Stop));
            &&& next.action is Stop
            &&& next.online == w.online
            &&& next.backoff == w.backoff
            &&& told.len() == 1
            &&& told[0].level == Level::Info
        }),
{
}

/// An event that does not tell what the action came to changes nothing and tells
/// nothing.
pub proof fn a_stray_event_is_ignored(w: WorkerView, event: Event)
    requires
        !(w.action is EnsureEntry && event is Entry),
        !(w.action is CheckCable && event is Cable),
        !(w.action is CheckOnline && event is Online),
        !(w.action is Dial && event is Dialed),
        !(w.action is ListConnections && event is Listed),
        !(w.action is AbortStale && event is Aborted),
        !(w.action is Wait && event is Woken),
    ensures
        w.after(event) == (w, Seq::<Said>::empty()),
{
}

/// The executable machine takes the steps that the laws speak of, and hands out the
/// records that go with them.
pub proof fn the_machine_takes_these_steps(worker: &mut Worker, event: &Event, notices: Vec<Notice>)
    requires
        call_ensures(Worker::advance, (worker, event), notices),
    ensures
        final(worker)@ == old(worker)@.after(*event).0,
        notices@.len() == old(worker)@.after(*event).1.len(),
        forall|i: int|
            0 <= i < notices@.len() ==> (#[trigger] notices@[i]).level == old(worker)@.after(
                *event,
            ).1[i].level && notices@[i].text@ == old(worker)@.after(*event).1[i].text,
{
    let told = notice::said(notices@);
    assert forall|i: int| 0 <= i < notices@.len() implies (#[trigger] notices@[i]).level == old(
        worker,
    )@.after(*event).1[i].level && notices@[i].text@ == old(worker)@.after(*event).1[i].text by {
        assert(told[i] == notices@[i]@);
    }
}

/// A machine for a configuration begins with nothing known, with the back-off of the
/// configuration, and with the phone book entry where that may be created.
pub proof fn the_machine_begins_with_nothing_known(cfg: &Config, begun: (Worker, Notice))
    requires
        call_ensures(run, (cfg,), Ok(begun)),
    ensures
        ({
            let w = begun.0@;
            &&& w.entry == cfg.dial.entry_name@
            &&& w.check_cable == cfg.link_check.enabled
            &&& !w.online && !w.cable_down && w.blocked == 0
            &&& w.backoff.attempts == 0
            &&& w.backoff.is_sound()
            &&& cfg.monitor.reconnect_delay_secs >= 1 ==> w.backoff.base
                == cfg.monitor.reconnect_delay_secs
            &&& 1 <= cfg.monitor.reconnect_delay_secs <= cfg.monitor.max_backoff_secs
                ==> w.backoff.max == cfg.monitor.max_backoff_secs
            &&& w.backoff.jitter == cfg.monitor.backoff_jitter_secs
            &&& w.action is EnsureEntry <==> cfg.dial.create_entry_if_missing
            &&& w.action is CheckCable <==> !cfg.dial.create_entry_if_missing
                && cfg.link_check.enabled
            &&& w.action is CheckOnline <==> !cfg.dial.create_entry_if_missing
                && !cfg.link_check.enabled
            &&& cfg.monitor.safety_recheck_secs == 0 ==> w.safety_ms == 0xFFFF_FFFF
            &&& 0 < cfg.monitor.safety_recheck_secs < 4_000_000 ==> w.safety_ms
                == cfg.monitor.safety_recheck_secs * 1000
        }),
{
}

/// A machine is begun exactly where every configured interface type is known and there
/// is one.
pub proof fn the_machine_needs_known_interface_types(
    cfg: &Config,
    out: Result<(Worker, Notice), Error>,
)
    requires
        call_ensures(run, (cfg,), out),
    ensures
        out is Ok <==> cfg.link_check.interface_types@.len() > 0 && forall|i: int|
            0 <= i < cfg.link_check.interface_types@.len() ==> text::ascii_lower(
                text::trimmed((#[trigger] cfg.link_check.interface_types@[i])@),
            ) == "ethernet"@,
{
    config::every_interface_type_has_to_be_known(*cfg);
}

/// The first handle is the stop event, the next two are the notifications, and the
/// deadline has a code of its own; whatever else comes back is a failure of the wait.
pub proof fn the_order_of_the_handles_tells_the_reason(rc: u32, wake: Wake)
    requires
        call_ensures(wake_of, (rc,), wake),
    ensures
        wake is Stop <==> rc == 0,
        wake is Signal <==> rc == 1 || rc == 2,
        wake is Timeout <==> rc == 258,
        wake is Failed <==> rc > 2 && rc != 258,
{
}

/// A wait ends for the reason that it was ended by: a notification is never lost, a
/// deadline is one only where nothing was notified, and a broken wait is paused for
/// before it is given up. A burst is waited on until its window has passed.
pub proof fn a_wait_ends_for_its_reason(
    step: Waiting,
    wake: Wake,
    window_ms: u32,
    elapsed: u128,
    next: Waiting,
)
    requires
        call_ensures(Waiting::next, (step, wake, window_ms, elapsed), next),
    ensures
        step is First && wake is Timeout ==> next == Waiting::Over(Wake::Timeout),
        step is First && wake is Failed ==> next is Pause,
        step is Pause ==> next == Waiting::Over(Wake::Failed),
        step is Over ==> next == step,
        (step is First || step is Burst) && wake is Stop ==> next == Waiting::Over(Wake::Stop),
        step is Burst && (wake is Timeout || wake is Failed) ==> next == Waiting::Over(Wake::Signal),
        (step is First || step is Burst) && wake is Signal ==> (next is Burst <==> elapsed
            < window_ms * 1_000_000),
        (step is First || step is Burst) && wake is Signal && elapsed >= window_ms * 1_000_000
            ==> next == Waiting::Over(Wake::Signal),
        next matches Waiting::Burst { timeout_ms } ==> wake is Signal && timeout_ms >= 1 && (
        timeout_ms == 1 || elapsed + timeout_ms * 1_000_000 <= window_ms * 1_000_000) && elapsed + (
        timeout_ms + 1) * 1_000_000 > window_ms * 1_000_000,
        !(next is First),
{
}

/// The limits of the wait functions: no deadline where none is configured, the window as
/// configured, and neither ever wraps around.
pub proof fn waits_are_as_long_as_configured(cfg: &Config, safety: u32, window: u32)
    requires
        call_ensures(safety_timeout_ms, (cfg,), safety),
        call_ensures(debounce_ms, (cfg,), window),
    ensures
        cfg.monitor.safety_recheck_secs == 0 ==> safety == 0xFFFF_FFFF,
        0 < cfg.monitor.safety_recheck_secs <= 4_294_967 ==> safety
            == cfg.monitor.safety_recheck_secs * 1000,
        cfg.monitor.safety_recheck_secs > 4_294_967 ==> safety == 0xFFFF_FFFF,
        cfg.monitor.event_debounce_ms <= 0xFFFF_FFFF ==> window == cfg.monitor.event_debounce_ms,
        cfg.monitor.event_debounce_ms > 0xFFFF_FFFF ==> window == 0xFFFF_FFFF,
{
}

/// What hanging the stale attempts up came to is told: how many were aborted, why it failed,
/// and, with the third blocked attempt in a row, the entry that stays blocked.
pub proof fn hanging_up_is_told(w: WorkerView, outcome: Result<usize, Error>)
    requires
        w.action is AbortStale,
    ensures
        ({
            let told = w.after(Event::Aborted(outcome)).1;
            &&& (outcome matches Ok(count) && count > 0) ==> told.len() == 1 && told[0].level
                is Info && text::has_text(
                told[0].text,
                text::decimal((outcome->Ok_0) as nat) + " - dialling again"@,
            )
            &&& outcome matches Err(e) ==> told.len() == 2 && told[0].level is Warn
                && text::has_text(told[0].text, e.said())
            &&& outcome == Ok::<usize, Error>(0) && w.blocked == 2 ==> told[0].level is Warn
                && text::has_text(told[0].text, w.entry) && text::has_text(
                told[0].text,
                "net stop RasMan"@,
            )
        }),
{
    let told = w.after(Event::Aborted(outcome)).1;
    let none = Seq::<char>::empty();
    match outcome {
        Ok(count) => {
            if count > 0 {
                let number = text::decimal(count as nat) + " - dialling again"@;
                let head = "stale dial attempts aborted: "@;
                assert(told[0].text == head + number + none);
                text::lemma_stands_between(head, number, none);
            } else if w.blocked == 2 {
                let head = "connection \""@;
                let tail
                    = "\" is still blocked and no stale attempt could be aborted: the port is stuck inside the RAS manager, run `net stop RasMan` or reboot"@;
                assert(told[0].text == head + w.entry + tail);
                text::lemma_stands_between(head, w.entry, tail);
                let first
                    = "\" is still blocked and no stale attempt could be aborted: the port is stuck inside the RAS manager, run `"@;
                reveal_strlit(
                    "\" is still blocked and no stale attempt could be aborted: the port is stuck inside the RAS manager, run `net stop RasMan` or reboot",
                );
                reveal_strlit(
                    "\" is still blocked and no stale attempt could be aborted: the port is stuck inside the RAS manager, run `",
                );
                reveal_strlit("net stop RasMan");
                reveal_strlit("` or reboot");
                assert(tail == first + "net stop RasMan"@ + "` or reboot"@);
                text::lemma_stands_between(first, "net stop RasMan"@, "` or reboot"@);
                text::lemma_still_stands(head + w.entry, tail, none, "net stop RasMan"@);
                assert(head + w.entry + tail + none == head + w.entry + tail);
            }
        },
        Err(e) => {
            let head = "cannot abort stale dial attempts: "@;
            assert(told[0].text == head + e.said() + none);
            text::lemma_stands_between(head, e.said(), none);
        },
    }
}

/// A failed dial has the connection table told, each connection in it, or why it could not
/// be read.
pub proof fn the_connections_behind_a_failure_are_told(
    w: WorkerView,
    outcome: Result<Vec<ConnectionInfo>, Error>,
    i: int,
)
    requires
        w.action is ListConnections,
    ensures
        ({
            let told = w.after(Event::Listed(outcome)).1;
            &&& told.len() == if w.failure == Some(756u32) {
                1nat
            } else {
                2nat
            }
            &&& told[0].level is Debug
            &&& outcome matches Err(e) ==> text::has_text(told[0].text, e.said())
            &&& (outcome matches Ok(list) && 0 <= i < list@.len()) ==> text::has_text(
                told[0].text,
                ras::connection_text(outcome->Ok_0@[i]),
            )
        }),
{
    let told = w.after(Event::Listed(outcome)).1;
    let none = Seq::<char>::empty();
    match outcome {
        Ok(list) => {
            if 0 <= i < list@.len() {
                ras::every_connection_is_told(list@, i);
                let inner = ras::connections_text(list@);
                let item = ras::connection_text(list@[i]);
                assert(told[0].text == ("RAS connections: "@ + "["@) + inner + "]"@);
                text::lemma_still_stands("RAS connections: "@ + "["@, inner, "]"@, item);
            }
        },
        Err(e) => {
            let head = "cannot enumerate RAS connections: "@;
            assert(told[0].text == head + e.said() + none);
            text::lemma_stands_between(head, e.said(), none);
        },
    }
}

/// A failed dial is told with what its code means; that it looks like a configuration
/// problem is told exactly where dialling again does not help.
pub proof fn a_hopeless_dial_is_told_as_one(code: u32, context: &'static str)
    ensures
        ({
            let told = failure_text(Error::Ras(ras::RasFailure { code, context }));
            let plain = "dial failed: code="@ + text::decimal(code as nat) + " ("@
                + ras::error_text(code) + ")"@;
            let hopeless = code == 691 || code == 739 || 621 <= code <= 624;
            &&& text::has_text(told, ras::error_text(code))
            &&& !hopeless ==> told == plain
            &&& hopeless ==> told == plain + " - this looks like a configuration problem"@
        }),
{
    let head = "dial failed: code="@ + text::decimal(code as nat) + " ("@;
    text::lemma_stands_between(head, ras::error_text(code), ")"@);
    let plain = head + ras::error_text(code) + ")"@;
    let none = Seq::<char>::empty();
    text::lemma_still_stands(
        none,
        plain,
        " - this looks like a configuration problem"@,
        ras::error_text(code),
    );
    assert(none + plain + " - this looks like a configuration problem"@ == plain
        + " - this looks like a configuration problem"@);
}

/// That a connection is online, goes offline or is dialled is told by its entry, and a check
/// of the cable by its result, the adapter that decided it and the usable adapters.
pub proof fn records_name_what_they_are_about(
    w: WorkerView,
    status: LinkStatus,
)
    ensures
        w.action is CheckOnline && !w.online ==> text::has_text(
            w.after(Event::Online(Ok(true))).1[0].text,
            w.entry,
        ),
        w.action is CheckCable ==> text::begins_with(
            w.after(Event::Cable(Ok(status))).1[0].text,
            "cable check: usable="@ + text::truth(status.up),
        ) && text::has_text(
            w.after(Event::Cable(Ok(status))).1[0].text,
            " fallback="@ + text::truth(status.fallback),
        ) && text::has_text(
            w.after(Event::Cable(Ok(status))).1[0].text,
            link::entries_text(status.adapters@.filter(|a: link::AdapterInfo| !a.is_filter)),
        ),
        status.decided_by matches Some(a) ==> text::has_text(decided_text(a), a.alias@),
{
    let first = "connection \""@;
    let last = "\" is already online - no dial needed, waiting for events"@;
    text::lemma_stands_between(first, w.entry, last);
    let listed = link::entries_text(status.adapters@.filter(|a: link::AdapterInfo| !a.is_filter));
    let head = "cable check: usable="@ + text::truth(status.up);
    let fallback = " fallback="@ + text::truth(status.fallback);
    let reason = " reason=\""@ + status.reason@ + "\""@;
    let told = verdict_text(status) + " candidates="@ + candidates_text(status);
    let tail = reason + " candidates="@ + ("["@ + listed + "]"@);
    assert(told == head + fallback + tail);
    text::lemma_stands_between(head, fallback, tail);
    assert(told.subrange(0, head.len() as int) == head);
    let front = head + fallback + reason + " candidates="@ + "["@;
    assert(told == front + listed + "]"@);
    text::lemma_stands_between(front, listed, "]"@);
    if let Some(a) = status.decided_by {
        let behind = "\" (hardware="@ + text::truth(a.hardware) + ", connector_present="@
            + text::truth(a.connector_present) + ")"@;
        assert(decided_text(a) == "cable verdict decided by \""@ + a.alias@ + behind);
        text::lemma_stands_between("cable verdict decided by \""@, a.alias@, behind);
    }
}

} // verus!
