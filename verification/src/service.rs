//! Windows service lifecycle.
//!
//! State transitions reported to the service control manager:
//!
//! ```text
//! START_PENDING --(config + logger up)--> RUNNING
//! RUNNING --(stop or shutdown control)--> STOP_PENDING --(worker exit)--> STOPPED
//! ```
//!
//! **Stopping never hangs the broadband connection up.** The connection is
//! owned by the `RasMan` service, so it survives the service and is picked up
//! again ("already online") on the next start.
//!
//! What has to be done is handed out as a list of effects, which the caller
//! performs in order.

use vstd::prelude::*;

use crate::config::{Config, Loaded};
use crate::error::Error;
use crate::lists;
use crate::logger::{Level, Rotation, Settings};
use crate::logger;
use crate::text;
use crate::utf16;

verus! {

/// Name of the service.
///
/// The service control manager needs the name before it can read any configuration
/// file, so it is built in. `install` verifies that `[service] name` matches it
/// instead of silently creating a second, differently named service.
pub const SERVICE_NAME: &'static str = "PppoeDialer";

/// Log file base name (the suffix `.YYYY-MM-DD` is added when rotating daily).
pub const LOG_FILE_NAME: &'static str = "pppoe.log";

/// `ERROR_CALL_NOT_IMPLEMENTED`, returned for unsupported control codes.
pub const ERROR_CALL_NOT_IMPLEMENTED: u32 = 120;

/// `SERVICE_STOPPED`.
pub const STATE_STOPPED: u32 = 1;

/// `SERVICE_START_PENDING`.
pub const STATE_START_PENDING: u32 = 2;

/// `SERVICE_STOP_PENDING`.
pub const STATE_STOP_PENDING: u32 = 3;

/// `SERVICE_RUNNING`.
pub const STATE_RUNNING: u32 = 4;

/// `SERVICE_ACCEPT_STOP | SERVICE_ACCEPT_SHUTDOWN`.
pub const ACCEPT_STOP_AND_SHUTDOWN: u32 = 5;

/// `SERVICE_CONTROL_STOP`.
pub const CONTROL_STOP: u32 = 1;

/// `SERVICE_CONTROL_INTERROGATE`.
pub const CONTROL_INTERROGATE: u32 = 4;

/// `SERVICE_CONTROL_SHUTDOWN`.
pub const CONTROL_SHUTDOWN: u32 = 5;

/// Time asked for while starting, in milliseconds.
pub const START_HINT_MS: u32 = 10_000;

/// Time asked for while stopping, in milliseconds.
pub const STOP_HINT_MS: u32 = 15_000;

/// Event id of errors.
pub const EVENT_ERROR: u32 = 1000;

/// Event id of information, such as that the service has started or stopped.
pub const EVENT_INFORMATION: u32 = 1002;

/// What the service control manager is told.
#[derive(Copy, Clone, PartialEq, Eq, Debug, Structural)]
pub struct Status {
    pub state: u32,
    /// Controls are accepted only while the service runs.
    pub controls_accepted: u32,
    pub checkpoint: u32,
    pub wait_hint: u32,
}

/// What the service control manager is told about a state.
pub open spec fn status_of(state: u32, checkpoint: u32, wait_hint: u32) -> Status {
    Status {
        state,
        controls_accepted: if state == STATE_RUNNING {
            ACCEPT_STOP_AND_SHUTDOWN
        } else {
            0
        },
        checkpoint,
        wait_hint,
    }
}

/// What the service and its control handler know of each other.
#[derive(Copy, Clone, PartialEq, Eq, Debug, Structural)]
pub struct Lifecycle {
    /// There is a handle to report to.
    pub registered: bool,
    /// State that was reported last.
    pub state: u32,
    /// A stop was asked for.
    pub stop_requested: bool,
}

/// What a control code asks for.
#[derive(Copy, Clone, PartialEq, Eq, Debug, Structural)]
pub struct Control {
    /// Code to return.
    pub answer: u32,
    pub report: Option<Status>,
    /// Signal the stop event.
    pub signal_stop: bool,
}

impl Lifecycle {
    /// State of a process that has just been started.
    pub fn new() -> (life: Lifecycle)
        ensures
            life == (Lifecycle {
                registered: false,
                state: STATE_START_PENDING,
                stop_requested: false,
            }),
    {
        Lifecycle { registered: false, state: STATE_START_PENDING, stop_requested: false }
    }

    /// What is known after a report, which needs a handle to report to.
    pub open spec fn reported(self, state: u32) -> Lifecycle {
        if self.registered {
            Lifecycle { state, ..self }
        } else {
            self
        }
    }

    /// Reports a status. Nothing can be reported before there is a handle to
    /// report to.
    pub fn report(&mut self, state: u32, checkpoint: u32, wait_hint: u32) -> (out: Option<Status>)
        ensures
            *final(self) == old(self).reported(state),
            out == if old(self).registered {
                Some(status_of(state, checkpoint, wait_hint))
            } else {
                None
            },
    {
        if !self.registered {
            return None;
        }
        self.state = state;
        let controls_accepted: u32 = if state == STATE_RUNNING {
            ACCEPT_STOP_AND_SHUTDOWN
        } else {
            0
        };
        Some(Status { state, controls_accepted, checkpoint, wait_hint })
    }

    /// Handles a control code. It is called on a thread of the service control
    /// manager and must return quickly: a stop is announced right away, because
    /// the worker may still be dialling.
    pub fn control_handler(&mut self, control: u32) -> (out: Control)
        ensures
            if control == CONTROL_STOP || control == CONTROL_SHUTDOWN {
                &&& *final(self) == (Lifecycle { stop_requested: true, ..*old(self) }).reported(
                    STATE_STOP_PENDING,
                )
                &&& out.answer == 0
                &&& out.signal_stop
                &&& out.report == if old(self).registered {
                    Some(status_of(STATE_STOP_PENDING, 1, STOP_HINT_MS))
                } else {
                    None
                }
            } else if control == CONTROL_INTERROGATE {
                &&& *final(self) == *old(self)
                &&& out.answer == 0
                &&& !out.signal_stop
                &&& out.report == if old(self).registered {
                    Some(status_of(old(self).state, 0, 0))
                } else {
                    None
                }
            } else {
                &&& *final(self) == *old(self)
                &&& out == (Control {
                    answer: ERROR_CALL_NOT_IMPLEMENTED,
                    report: None,
                    signal_stop: false,
                })
            },
    {
        if control == CONTROL_STOP || control == CONTROL_SHUTDOWN {
            self.stop_requested = true;
            let report = self.report(STATE_STOP_PENDING, 1, STOP_HINT_MS);
            Control { answer: 0, report, signal_stop: true }
        } else if control == CONTROL_INTERROGATE {
            let report = self.report(self.state, 0, 0);
            Control { answer: 0, report, signal_stop: false }
        } else {
            Control { answer: ERROR_CALL_NOT_IMPLEMENTED, report: None, signal_stop: false }
        }
    }
}

/// Controls are accepted while the service runs, and in no other state.
pub proof fn only_a_running_service_accepts_controls(state: u32, checkpoint: u32, wait_hint: u32)
    ensures
        status_of(state, checkpoint, wait_hint).controls_accepted == ACCEPT_STOP_AND_SHUTDOWN
            <==> state == STATE_RUNNING,
        status_of(state, checkpoint, wait_hint).controls_accepted == 0 <==> state
            != STATE_RUNNING,
{
}

/// Keeps the service control manager informed while a stop is in flight, because
/// stopping can legitimately take up to `dial.dial_timeout_secs`: a dial that is
/// under way is not aborted on purpose.
pub struct Supervisor {
    pub checkpoint: u32,
}

impl Supervisor {
    /// The checkpoints of a stop follow the one that announced it.
    pub fn new() -> (s: Supervisor)
        ensures
            s.checkpoint == 2,
    {
        Supervisor { checkpoint: 2 }
    }

    /// Called once per second while the worker runs: the checkpoint to report, if
    /// any. Each report of a stop carries a higher checkpoint than the one before.
    pub fn tick(&mut self, stop_requested: bool) -> (out: Option<u32>)
        ensures
            if stop_requested {
                &&& final(self).checkpoint == if old(self).checkpoint == u32::MAX {
                    u32::MAX as int
                } else {
                    old(self).checkpoint + 1
                }
                &&& out == Some(final(self).checkpoint)
            } else {
                out is None && *final(self) == *old(self)
            },
    {
        if stop_requested {
            self.checkpoint = self.checkpoint.saturating_add(1);
            Some(self.checkpoint)
        } else {
            None
        }
    }
}

/// Something the caller has to do.
pub enum Effect {
    /// Report a state, see [`Lifecycle::report`].
    Report { state: u32, checkpoint: u32, wait_hint: u32 },
    /// Set the logger up with the default configuration.
    DefaultLogger,
    /// Set the logger up with the configuration. A logger that cannot be set up
    /// does not take the service down.
    ConfiguredLogger,
    /// Write a record.
    Record(Level, String),
    /// Write a record with an explicit event id.
    Event(Level, u32, String),
    /// Shut the logger down.
    ShutDownLogger,
}

/// What an [`Effect`] asks for.
pub enum EffectView {
    Report { state: u32, checkpoint: u32, wait_hint: u32 },
    DefaultLogger,
    ConfiguredLogger,
    Record(Level, Seq<char>),
    Event(Level, u32, Seq<char>),
    ShutDownLogger,
}

impl View for Effect {
    type V = EffectView;

    open spec fn view(&self) -> EffectView {
        match *self {
            Effect::Report { state, checkpoint, wait_hint } => EffectView::Report {
                state,
                checkpoint,
                wait_hint,
            },
            Effect::DefaultLogger => EffectView::DefaultLogger,
            Effect::ConfiguredLogger => EffectView::ConfiguredLogger,
            Effect::Record(level, text) => EffectView::Record(level, text@),
            Effect::Event(level, id, text) => EffectView::Event(level, id, text@),
            Effect::ShutDownLogger => EffectView::ShutDownLogger,
        }
    }
}

/// What a list of effects asks for.
pub open spec fn asked(effects: Seq<Effect>) -> Seq<EffectView> {
    effects.map_values(|e: Effect| e@)
}

/// The report that the service has stopped.
pub open spec fn stopped_report() -> EffectView {
    EffectView::Report { state: STATE_STOPPED, checkpoint: 0, wait_hint: 0 }
}

fn add_effect(effects: &mut Vec<Effect>, effect: Effect)
    ensures
        asked(final(effects)@) == asked(old(effects)@).push(effect@),
{
    effects.push(effect);
    assert(asked(effects@) == asked(old(effects)@).push(effect@));
}

/// What is done first, once the control handler is registered: more time is asked
/// for.
pub fn starting() -> (effects: Vec<Effect>)
    ensures
        asked(effects@) == seq![
            EffectView::Report {
                state: STATE_START_PENDING,
                checkpoint: 1,
                wait_hint: START_HINT_MS,
            },
        ],
{
    let mut effects: Vec<Effect> = Vec::new();
    assert(asked(effects@) == Seq::<EffectView>::empty());
    add_effect(
        &mut effects,
        Effect::Report { state: STATE_START_PENDING, checkpoint: 1, wait_hint: START_HINT_MS },
    );
    assert(asked(effects@) == seq![
        EffectView::Report { state: STATE_START_PENDING, checkpoint: 1, wait_hint: START_HINT_MS },
    ]);
    effects
}

/// What is done about the configuration before the service runs.
pub open spec fn loading(outcome: Result<Loaded, Error>) -> Seq<EffectView> {
    match outcome {
        Ok(loaded) => seq![
            EffectView::Record(Level::Info, "configuration loaded from "@ + loaded.path@),
            EffectView::ConfiguredLogger,
        ],
        Err(e) => seq![
            EffectView::DefaultLogger,
            EffectView::Record(Level::Error, "configuration error: "@ + e.said()),
            EffectView::Event(
                Level::Error,
                EVENT_ERROR,
                "the service cannot start: "@ + e.said(),
            ),
            EffectView::ShutDownLogger,
            stopped_report(),
        ],
    }
}

/// What is done about the configuration: with a broken one the service does not
/// start. The logger is not up then, so it is started with defaults to make sure
/// the reason lands in a file and in the event log.
pub fn configured(outcome: &Result<Loaded, Error>) -> (effects: Vec<Effect>)
    ensures
        asked(effects@) == loading(*outcome),
{
    let mut effects: Vec<Effect> = Vec::new();
    assert(asked(effects@) == Seq::<EffectView>::empty());
    match outcome {
        Ok(loaded) => {
            let mut text = "configuration loaded from ".to_owned();
            text.append(loaded.path.as_str());
            add_effect(&mut effects, Effect::Record(Level::Info, text));
            add_effect(&mut effects, Effect::ConfiguredLogger);
        },
        Err(e) => {
            let reason = e.message();
            add_effect(&mut effects, Effect::DefaultLogger);
            let mut text = "configuration error: ".to_owned();
            text.append(reason.as_str());
            add_effect(&mut effects, Effect::Record(Level::Error, text));
            let mut text = "the service cannot start: ".to_owned();
            text.append(reason.as_str());
            add_effect(&mut effects, Effect::Event(Level::Error, EVENT_ERROR, text));
            add_effect(&mut effects, Effect::ShutDownLogger);
            add_effect(
                &mut effects,
                Effect::Report { state: STATE_STOPPED, checkpoint: 0, wait_hint: 0 },
            );
        },
    }
    assert(asked(effects@) == loading(*outcome));
    effects
}

/// What is done when the service runs, given the summary of its configuration.
pub open spec fn running_effects(exe_dir: Seq<char>, summary: Seq<char>) -> Seq<EffectView> {
    seq![
        EffectView::Record(Level::Info, "service starting, executable dir = "@ + exe_dir),
        EffectView::Record(Level::Info, "effective configuration: "@ + summary),
        EffectView::Record(
            Level::Info,
            "credentials are never written to the log (user name and password are masked)"@,
        ),
        EffectView::Report { state: STATE_RUNNING, checkpoint: 0, wait_hint: 0 },
        EffectView::Event(Level::Info, EVENT_INFORMATION, "PPPoE dialer service started"@),
    ]
}

/// What is done when the service runs, right before the worker is started.
/// `summary` is [`Config::summary`].
pub fn running(exe_dir: &str, summary: &str) -> (effects: Vec<Effect>)
    ensures
        asked(effects@) == running_effects(exe_dir@, summary@),
{
    let mut effects: Vec<Effect> = Vec::new();
    assert(asked(effects@) == Seq::<EffectView>::empty());
    let mut text = "service starting, executable dir = ".to_owned();
    text.append(exe_dir);
    add_effect(&mut effects, Effect::Record(Level::Info, text));
    let mut text = "effective configuration: ".to_owned();
    text.append(summary);
    add_effect(&mut effects, Effect::Record(Level::Info, text));
    add_effect(
        &mut effects,
        Effect::Record(
            Level::Info,
            "credentials are never written to the log (user name and password are masked)".to_owned(),
        ),
    );
    add_effect(&mut effects, Effect::Report { state: STATE_RUNNING, checkpoint: 0, wait_hint: 0 });
    add_effect(
        &mut effects,
        Effect::Event(Level::Info, EVENT_INFORMATION, "PPPoE dialer service started".to_owned()),
    );
    assert(asked(effects@) == running_effects(exe_dir@, summary@));
    effects
}

/// How the worker ended.
pub enum WorkerEnd {
    Stopped,
    Failed(Error),
    Panicked,
}

/// Record for the end of the worker, if any.
pub open spec fn worker_end(end: WorkerEnd) -> Seq<EffectView> {
    match end {
        WorkerEnd::Stopped => Seq::empty(),
        WorkerEnd::Failed(e) => seq![
            EffectView::Record(Level::Error, "worker terminated with an error: "@ + e.said()),
        ],
        WorkerEnd::Panicked => seq![
            EffectView::Record(Level::Error, "the worker thread panicked"@),
        ],
    }
}

/// What is done when the worker has ended.
pub open spec fn stopping(end: WorkerEnd) -> Seq<EffectView> {
    worker_end(end) + seq![
        EffectView::Record(
            Level::Info,
            "service stopped; the broadband connection was left online by design"@,
        ),
        EffectView::Event(Level::Info, EVENT_INFORMATION, "PPPoE dialer service stopped"@),
        stopped_report(),
        EffectView::ShutDownLogger,
    ]
}

/// What is done when the worker has ended, in whatever way.
pub fn finished(end: &WorkerEnd) -> (effects: Vec<Effect>)
    ensures
        asked(effects@) == stopping(*end),
{
    let mut effects: Vec<Effect> = Vec::new();
    assert(asked(effects@) == Seq::<EffectView>::empty());
    match end {
        WorkerEnd::Stopped => {},
        WorkerEnd::Failed(e) => {
            let mut text = "worker terminated with an error: ".to_owned();
            text.append(e.message().as_str());
            add_effect(&mut effects, Effect::Record(Level::Error, text));
        },
        WorkerEnd::Panicked => {
            add_effect(
                &mut effects,
                Effect::Record(Level::Error, "the worker thread panicked".to_owned()),
            );
        },
    }
    add_effect(
        &mut effects,
        Effect::Record(
            Level::Info,
            "service stopped; the broadband connection was left online by design".to_owned(),
        ),
    );
    add_effect(
        &mut effects,
        Effect::Event(Level::Info, EVENT_INFORMATION, "PPPoE dialer service stopped".to_owned()),
    );
    add_effect(&mut effects, Effect::Report { state: STATE_STOPPED, checkpoint: 0, wait_hint: 0 });
    add_effect(&mut effects, Effect::ShutDownLogger);
    assert(asked(effects@) == stopping(*end));
    effects
}

/// What is done when the service could not be run to its end.
pub open spec fn failing(e: Error) -> Seq<EffectView> {
    seq![
        EffectView::Record(Level::Error, "service stopped with an error: "@ + e.said()),
        stopped_report(),
    ]
}

/// What is done when the service could not be run to its end.
pub fn failed(e: &Error) -> (effects: Vec<Effect>)
    ensures
        asked(effects@) == failing(*e),
{
    let mut effects: Vec<Effect> = Vec::new();
    assert(asked(effects@) == Seq::<EffectView>::empty());
    let mut text = "service stopped with an error: ".to_owned();
    text.append(e.message().as_str());
    add_effect(&mut effects, Effect::Record(Level::Error, text));
    add_effect(&mut effects, Effect::Report { state: STATE_STOPPED, checkpoint: 0, wait_hint: 0 });
    assert(asked(effects@) == failing(*e));
    effects
}

/// However the service ends - with a broken configuration, with any other error or
/// with its worker - that it has stopped is reported, and no report follows.
pub proof fn every_end_is_reported(e: Error, outcome: Result<Loaded, Error>, end: WorkerEnd)
    requires
        outcome is Err,
    ensures
        loading(outcome).last() == stopped_report(),
        failing(e).last() == stopped_report(),
        stopping(end)[stopping(end).len() - 2] == stopped_report(),
        !(stopping(end).last() is Report),
{
}

/// The id of an event is the one of its level.
pub open spec fn is_well_numbered(effect: EffectView) -> bool {
    effect matches EffectView::Event(level, id, _) ==> id == 1000 + level.position()
}

/// Every event that the service writes carries the id of its level.
pub proof fn event_ids_tell_the_level(
    outcome: Result<Loaded, Error>,
    exe_dir: Seq<char>,
    summary: Seq<char>,
    end: WorkerEnd,
)
    ensures
        forall|i: int| 0 <= i < loading(outcome).len() ==> is_well_numbered(loading(outcome)[i]),
        forall|i: int|
            0 <= i < running_effects(exe_dir, summary).len() ==> is_well_numbered(
                running_effects(exe_dir, summary)[i],
            ),
        forall|i: int| 0 <= i < stopping(end).len() ==> is_well_numbered(stopping(end)[i]),
{
}

/// A service with a broken configuration never reports that it runs.
pub proof fn a_broken_configuration_never_runs(outcome: Result<Loaded, Error>)
    requires
        outcome is Err,
    ensures
        !loading(outcome).contains(
            EffectView::Report { state: STATE_RUNNING, checkpoint: 0, wait_hint: 0 },
        ),
{
}

/// Settings of the logger for the configuration. In the foreground, where records
/// go to the console, the event log is left alone: debugging must not spam it.
pub fn logger_settings<'a>(
    config: &'a Config,
    dir: &'a str,
    secrets: &'a [String],
    console: bool,
) -> (settings: Settings<'a>)
    ensures
        settings.level == match Level::of_name(config.log.level@) {
            Some(l) => l,
            None => Level::Info,
        },
        settings.dir@ == dir@,
        settings.file_name@ == LOG_FILE_NAME@,
        settings.rotation == match Rotation::of_name(config.log.rotation@) {
            Some(r) => r,
            None => Rotation::Daily,
        },
        settings.max_files == config.log.max_files,
        settings.console == console,
        settings.event_log == (config.log.event_log && !console),
        settings.source_name@ == config.service.name@,
        settings.secrets@ == secrets@,
{
    Settings {
        level: config.level(),
        dir,
        file_name: LOG_FILE_NAME,
        rotation: config.rotation(),
        max_files: config.log.max_files,
        console,
        event_log: config.log.event_log && !console,
        source_name: config.service.name.as_str(),
        secrets,
    }
}

/// With the logger set up for a configuration, whose secrets are the account and
/// the password, neither of them stands in the text of any record that reaches a
/// sink. Left out are those that are too short to be searched for, and those that
/// the mask could be taken for a part of.
pub proof fn the_credentials_never_reach_the_log(config: Config, record: Seq<char>)
    ensures
        ({
            let user = config.dial.username@;
            let password = config.dial.password@;
            let clean = logger::redacted(record, logger::guarded(seq![user, password]));
            &&& user.len() >= logger::MIN_SECRET_LEN && logger::unlike_mask(user)
                ==> !text::has_text(clean, user)
            &&& password.len() >= logger::MIN_SECRET_LEN && logger::unlike_mask(password)
                ==> !text::has_text(clean, password)
        }),
{
    let user = config.dial.username@;
    let password = config.dial.password@;
    let secrets = seq![user, password];
    let long = |s: Seq<char>| s.len() >= logger::MIN_SECRET_LEN;
    let guards = logger::guarded(secrets);
    logger::secrets_never_survive(record, guards);
    assert(secrets[0] == user && secrets[1] == password);
    if long(user) {
        lists::lemma_filter_keeps(secrets, long, user);
        let i = choose|i: int| 0 <= i < guards.len() && guards[i] == user;
        assert(guards[i] == user);
    }
    if long(password) {
        lists::lemma_filter_keeps(secrets, long, password);
        let i = choose|i: int| 0 <= i < guards.len() && guards[i] == password;
        assert(guards[i] == password);
    }
}

/// The arguments that are there, as text.
pub open spec fn given(args: Seq<Option<Vec<u16>>>) -> Seq<Seq<char>>
    decreases args.len(),
{
    if args.len() == 0 {
        Seq::empty()
    } else {
        match args.last() {
            Some(units) => given(args.drop_last()).push(utf16::decoded(units@)),
            None => given(args.drop_last()),
        }
    }
}

/// Reads the arguments that the service entry point receives (the first one is the
/// name of the service), each without its terminator; missing ones are skipped.
///
/// The service control manager passes the arguments this service was registered
/// with, which lets an administrator point the service at a non default
/// configuration file.
pub fn collect_args(args: &[Option<Vec<u16>>]) -> (out: Vec<String>)
    ensures
        text::texts(out@) == given(args@),
{
    let mut out: Vec<String> = Vec::new();
    assert(text::texts(out@) == given(args@.take(0)));
    let mut i: usize = 0;
    while i < args.len()
        invariant
            i <= args@.len(),
            text::texts(out@) == given(args@.take(i as int)),
        decreases args@.len() - i,
    {
        assert(args@.take(i + 1).drop_last() == args@.take(i as int));
        match &args[i] {
            Some(units) => {
                text::add_line(&mut out, utf16::decode_lossy(units.as_slice()));
            },
            None => {},
        }
        i += 1;
    }
    assert(args@.take(args@.len() as int) == args@);
    out
}

/// A status tells the state it was made for, accepts stop and shutdown exactly while the
/// service runs, and is told only where there is a handle to tell it to; the state that
/// was told is remembered.
pub proof fn a_report_tells_its_state(
    life: &mut Lifecycle,
    state: u32,
    checkpoint: u32,
    wait_hint: u32,
    out: Option<Status>,
)
    requires
        call_ensures(Lifecycle::report, (life, state, checkpoint, wait_hint), out),
    ensures
        out is Some <==> old(life).registered,
        out matches Some(s) ==> s.state == state && s.checkpoint == checkpoint && s.wait_hint
            == wait_hint && s.controls_accepted == if state == 4 {
            5u32
        } else {
            0u32
        },
        final(life).state == if old(life).registered {
            state
        } else {
            old(life).state
        },
        final(life).registered == old(life).registered,
        final(life).stop_requested == old(life).stop_requested,
{
}

/// A stop and a shutdown are announced at once, remembered and signalled; being asked
/// changes nothing and repeats the last state; every other control is turned down. No
/// control ever takes a stop back.
pub proof fn only_a_stop_or_a_shutdown_stops(life: &mut Lifecycle, control: u32, out: Control)
    requires
        call_ensures(Lifecycle::control_handler, (life, control), out),
    ensures
        out.signal_stop <==> control == 1 || control == 5,
        out.answer == 0 <==> control == 1 || control == 5 || control == 4,
        out.answer != 0 ==> out.answer == 120 && out.report is None,
        final(life).stop_requested <==> old(life).stop_requested || control == 1 || control == 5,
        final(life).registered == old(life).registered,
        control != 1 && control != 5 ==> *final(life) == *old(life),
        (control == 1 || control == 5) && old(life).registered ==> final(life).state == 3 && (
        out.report matches Some(s) && s.state == 3 && s.controls_accepted == 0 && s.wait_hint > 0
            && s.checkpoint > 0),
        control == 4 && old(life).registered ==> (out.report matches Some(s) && s.state == old(
            life,
        ).state),
        !old(life).registered ==> out.report is None && final(life).state == old(life).state,
{
}

/// A process begins without a handle, starting, and without a stop asked for.
pub proof fn a_process_begins_starting(life: Lifecycle, supervisor: Supervisor)
    requires
        call_ensures(Lifecycle::new, (), life),
        call_ensures(Supervisor::new, (), supervisor),
    ensures
        !life.registered && life.state == 2 && !life.stop_requested,
        supervisor.checkpoint > 1,
{
}

/// While a stop is in flight every second brings a higher checkpoint, and without one
/// nothing is told.
pub proof fn checkpoints_only_rise(s: &mut Supervisor, stop_requested: bool, out: Option<u32>)
    requires
        call_ensures(Supervisor::tick, (s, stop_requested), out),
    ensures
        out is Some <==> stop_requested,
        stop_requested && old(s).checkpoint < u32::MAX ==> out == Some(
            (old(s).checkpoint + 1) as u32,
        ) && final(s).checkpoint == old(s).checkpoint + 1,
        !stop_requested ==> final(s).checkpoint == old(s).checkpoint,
{
}

/// The effects are handed out for a configuration that was loaded: its path is told, the
/// logger is set up with it, and nothing is stopped or reported.
pub proof fn a_loaded_configuration_sets_the_logger_up(
    outcome: &Result<Loaded, Error>,
    effects: Vec<Effect>,
)
    requires
        call_ensures(configured, (outcome,), effects),
        *outcome is Ok,
    ensures
        asked(effects@).contains(EffectView::ConfiguredLogger),
        forall|i: int|
            0 <= i < effects@.len() ==> !((#[trigger] effects@[i])@ is Report) && !(effects@[i]@
                is ShutDownLogger) && !(effects@[i]@ is DefaultLogger),
        exists|i: int|
            0 <= i < effects@.len() && ((#[trigger] effects@[i])@ matches EffectView::Record(
                level,
                text,
            ) && level is Info && text::has_text(text, outcome->Ok_0.path@)),
{
    let all = asked(effects@);
    let path = outcome->Ok_0.path@;
    let none = Seq::<char>::empty();
    assert(all.len() == effects@.len() && all.len() == 2);
    assert(all[1] == EffectView::ConfiguredLogger);
    assert("configuration loaded from "@ + path + none == "configuration loaded from "@ + path);
    text::lemma_stands_between("configuration loaded from "@, path, none);
    assert(effects@[0]@ == all[0]);
    assert forall|i: int| 0 <= i < effects@.len() implies !((#[trigger] effects@[i])@ is Report)
        && !(effects@[i]@ is ShutDownLogger) && !(effects@[i]@ is DefaultLogger) by {
        assert(effects@[i]@ == all[i]);
    }
}

/// With a broken configuration a logger is set up first, the reason is told in a record and
/// in an event, both as errors, the logger is shut down, and last of all the service is
/// reported as stopped.
pub proof fn a_broken_configuration_is_told_and_stops(
    outcome: &Result<Loaded, Error>,
    effects: Vec<Effect>,
)
    requires
        call_ensures(configured, (outcome,), effects),
        *outcome is Err,
    ensures
        ({
            let all = asked(effects@);
            let reason = outcome->Err_0.said();
            &&& all.len() == 5
            &&& all[0] is DefaultLogger
            &&& all[1] matches EffectView::Record(level, text) && level is Error && text::has_text(
                text,
                reason,
            )
            &&& all[2] matches EffectView::Event(level, id, text) && level is Error && id == 1000
                && text::has_text(text, reason)
            &&& all[3] is ShutDownLogger
            &&& all[4] matches EffectView::Report { state, .. } && state == 1
        }),
{
    let reason = outcome->Err_0.said();
    let none = Seq::<char>::empty();
    assert("configuration error: "@ + reason + none == "configuration error: "@ + reason);
    text::lemma_stands_between("configuration error: "@, reason, none);
    assert("the service cannot start: "@ + reason + none == "the service cannot start: "@ + reason);
    text::lemma_stands_between("the service cannot start: "@, reason, none);
}

/// A service that comes up is reported as running once, before the event that it has
/// started; its directory and its configuration are told, and nothing is stopped.
pub proof fn a_running_service_is_reported_once(exe_dir: &str, summary: &str, effects: Vec<Effect>)
    requires
        call_ensures(running, (exe_dir, summary), effects),
    ensures
        ({
            let all = asked(effects@);
            &&& exists|i: int|
                0 <= i < all.len() && (#[trigger] all[i] matches EffectView::Report { state, .. }
                    && state == 4)
            &&& forall|i: int|
                0 <= i < all.len() ==> (#[trigger] all[i] matches EffectView::Report {
                    state,
                    ..
                } ==> state == 4 && i == 3)
            &&& forall|i: int|
                0 <= i < all.len() ==> (#[trigger] all[i] matches EffectView::Event(level, id, _)
                    ==> i == 4 && level is Info && id == 1002)
            &&& all.len() == 5 && all[4] is Event
            &&& all[0] matches EffectView::Record(level, text) && text::has_text(text, exe_dir@)
            &&& all[1] matches EffectView::Record(level, text) && text::has_text(text, summary@)
        }),
{
    let all = asked(effects@);
    let none = Seq::<char>::empty();
    assert(all[3] matches EffectView::Report { state, .. } && state == 4);
    let first = "service starting, executable dir = "@;
    assert(first + exe_dir@ + none == first + exe_dir@);
    text::lemma_stands_between(first, exe_dir@, none);
    let second = "effective configuration: "@;
    assert(second + summary@ + none == second + summary@);
    text::lemma_stands_between(second, summary@, none);
}

/// However the worker ended, the service is reported as stopped once and the logger is shut
/// down behind everything else; a failure is told as an error with its reason, an orderly
/// stop as none.
pub proof fn an_ended_worker_stops_the_service(end: &WorkerEnd, effects: Vec<Effect>)
    requires
        call_ensures(finished, (end,), effects),
    ensures
        ({
            let all = asked(effects@);
            &&& all.last() is ShutDownLogger
            &&& forall|i: int|
                0 <= i < all.len() ==> (#[trigger] all[i] is Report <==> i == all.len() - 2)
            &&& all[all.len() - 2] matches EffectView::Report { state, .. } && state == 1
            &&& all[all.len() - 3] matches EffectView::Event(level, id, _) && level is Info && id
                == 1002
            &&& (exists|i: int|
                0 <= i < all.len() && (#[trigger] all[i] matches EffectView::Record(level, _)
                    && level is Error)) <==> !(*end is Stopped)
            &&& *end matches WorkerEnd::Failed(e) ==> (all[0] matches EffectView::Record(level, text)
                && level is Error && text::has_text(text, e.said()))
        }),
{
    let all = asked(effects@);
    if let WorkerEnd::Failed(e) = *end {
        let head = "worker terminated with an error: "@;
        let none = Seq::<char>::empty();
        assert(head + e.said() + none == head + e.said());
        text::lemma_stands_between(head, e.said(), none);
    }
    if !(*end is Stopped) {
        assert(all[0] matches EffectView::Record(level, _) && level is Error);
    }
}

/// A service that could not be run is told as an error with its reason and reported as
/// stopped; one that comes up asks for more time first.
pub proof fn a_failed_service_is_told_and_stopped(
    e: &Error,
    effects: Vec<Effect>,
    first: Vec<Effect>,
)
    requires
        call_ensures(failed, (e,), effects),
        call_ensures(starting, (), first),
    ensures
        asked(effects@).len() == 2,
        asked(effects@)[0] matches EffectView::Record(level, text) && level is Error
            && text::has_text(text, e.said()),
        asked(effects@)[1] matches EffectView::Report { state, .. } && state == 1,
        asked(first@).len() == 1,
        asked(first@)[0] matches EffectView::Report { state, checkpoint, wait_hint } && state == 2
            && checkpoint > 0 && wait_hint > 0,
{
    let head = "service stopped with an error: "@;
    let none = Seq::<char>::empty();
    assert(head + e.said() + none == head + e.said());
    text::lemma_stands_between(head, e.said(), none);
}

/// The logger follows the configuration: the event log is used where that is configured
/// and the records do not go to the console, and the secrets are handed on.
pub proof fn the_logger_follows_the_configuration(
    config: &Config,
    dir: &str,
    secrets: &[String],
    console: bool,
    settings: Settings<'_>,
)
    requires
        call_ensures(logger_settings, (config, dir, secrets, console), settings),
    ensures
        settings.event_log <==> config.log.event_log && !console,
        settings.console == console,
        settings.max_files == config.log.max_files,
        settings.dir@ == dir@,
        settings.source_name@ == config.service.name@,
        settings.file_name@ == "pppoe.log"@,
        settings.secrets@ == secrets@,
        Level::of_name(config.log.level@) matches Some(l) ==> settings.level == l,
        Level::of_name(config.log.level@) is None ==> settings.level is Info,
        Rotation::of_name(config.log.rotation@) matches Some(r) ==> settings.rotation == r,
        Rotation::of_name(config.log.rotation@) is None ==> settings.rotation is Daily,
{
}

/// The arguments of the service, one by one: each that is there is read, in its order, and a
/// missing one is skipped. A text reads back as it was.
pub proof fn one_more_argument_is_read_or_skipped(
    args: Seq<Option<Vec<u16>>>,
    units: Vec<u16>,
    s: Seq<char>,
)
    ensures
        given(Seq::empty()) == Seq::<Seq<char>>::empty(),
        given(args.push(None)) == given(args),
        units@ == utf16::encoded(s) ==> given(args.push(Some(units))) == given(args).push(s),
{
    assert(args.push(None).drop_last() == args);
    assert(args.push(Some(units)).drop_last() == args);
    utf16::decoding_undoes_encoding(s);
}

/// The executable function hands those arguments out.
pub proof fn the_arguments_are_handed_out(args: &[Option<Vec<u16>>], out: Vec<String>)
    requires
        call_ensures(collect_args, (args,), out),
    ensures
        out@.len() == given(args@).len(),
        forall|i: int| 0 <= i < out@.len() ==> (#[trigger] out@[i])@ == given(args@)[i],
{
    let all = text::texts(out@);
    assert(all.len() == out@.len());
    assert forall|i: int| 0 <= i < out@.len() implies (#[trigger] out@[i])@ == given(args@)[i] by {
        assert(all[i] == out@[i]@);
    }
}

} // verus!
