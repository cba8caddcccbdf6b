//! The `dial-once` command: dial a single time and, unless told otherwise, hang the
//! connection up again.
//!
//! The same order as in the service is kept: the phone book entry is made sure of
//! first, so a setup problem is reported before anything touches the line. The
//! machine names the next action; the caller performs it and hands back what it
//! came to.

use vstd::prelude::*;

use crate::config::Config;
use crate::config;
use crate::error::Error;
use crate::link::{describe_candidates, LinkStatus};
use crate::logger::Level;
use crate::notice::{add_to, Notice, Said};
use crate::notice;
use crate::ras::{ConnectionInfo, Dialed};
use crate::text;
use crate::worker::{prepare_entry, verdict_line};
use crate::worker;

verus! {

/// What the caller has to do next.
#[derive(Debug)]
pub enum OnceAction {
    EnsureEntry,
    CheckCable,
    ListConnections,
    CheckOnline,
    Dial,
    /// Hang the connection up, see [`Dialed::hang_up`].
    HangUp(Dialed),
    /// Return.
    Finish(Result<(), Error>),
}

/// What an [`OnceAction`] asks for; of an error, its text.
pub enum OnceStep {
    EnsureEntry,
    CheckCable,
    ListConnections,
    CheckOnline,
    Dial,
    HangUp(usize),
    Succeed,
    Fail(Seq<char>),
}

impl View for OnceAction {
    type V = OnceStep;

    open spec fn view(&self) -> OnceStep {
        match *self {
            OnceAction::EnsureEntry => OnceStep::EnsureEntry,
            OnceAction::CheckCable => OnceStep::CheckCable,
            OnceAction::ListConnections => OnceStep::ListConnections,
            OnceAction::CheckOnline => OnceStep::CheckOnline,
            OnceAction::Dial => OnceStep::Dial,
            OnceAction::HangUp(dialed) => OnceStep::HangUp(dialed.conn),
            OnceAction::Finish(Ok(_)) => OnceStep::Succeed,
            OnceAction::Finish(Err(e)) => OnceStep::Fail(e.said()),
        }
    }
}

/// What an action came to.
pub enum OnceEvent {
    Entry(Result<bool, Error>),
    Cable(Result<LinkStatus, Error>),
    Listed(Result<Vec<ConnectionInfo>, Error>),
    Online(Result<bool, Error>),
    /// The outcome of the dial, and how long it took, in seconds with one decimal.
    Dialed(Result<Dialed, Error>, String),
    HungUp(Result<(), Error>),
}

/// One connection in a record.
pub open spec fn existing_text(info: ConnectionInfo) -> Seq<char> {
    "existing RAS connection: entry=\""@ + info.entry@ + "\" device=\""@ + info.device@
        + "\" state="@ + text::decimal(info.state as nat) + " connected="@ + text::truth(
        info.connected,
    )
}

/// Records for the connections in the table.
pub open spec fn existing_said(list: Seq<ConnectionInfo>) -> Seq<Said> {
    list.map_values(|info: ConnectionInfo| notice::info(existing_text(info)))
}

/// Some connection is online, whatever its entry.
pub open spec fn some_online(list: Seq<ConnectionInfo>) -> bool {
    exists|i: int| 0 <= i < list.len() && (#[trigger] list[i]).connected
}

/// State of the machine.
pub struct OnceView {
    /// Name of the phone book entry.
    pub entry: Seq<char>,
    pub check_cable: bool,
    /// The connection is hung up again.
    pub hang_up: bool,
    pub step: OnceStep,
}

impl OnceView {
    /// The same state with another step.
    pub open spec fn at(self, step: OnceStep) -> OnceView {
        OnceView { step, ..self }
    }

    /// First step on the line.
    pub open spec fn line_step(self) -> OnceStep {
        if self.check_cable {
            OnceStep::CheckCable
        } else {
            OnceStep::ListConnections
        }
    }

    /// A check of the cable: it has to work, and the cable has to be usable.
    pub open spec fn after_cable(self, outcome: Result<LinkStatus, Error>) -> (
        OnceView,
        Seq<Said>,
    ) {
        match outcome {
            Err(e) => (self.at(OnceStep::Fail(e.said())), Seq::empty()),
            Ok(status) => (
                if status.up {
                    self.at(OnceStep::ListConnections)
                } else {
                    self.at(OnceStep::Fail("network cable is not connected: "@ + status.reason@))
                },
                seq![
                    notice::info(worker::verdict_text(status)),
                    notice::debug("cable candidates: "@ + worker::candidates_text(status)),
                ],
            ),
        }
    }

    /// The connection table, which is only reported.
    pub open spec fn after_list(self, outcome: Result<Vec<ConnectionInfo>, Error>) -> (
        OnceView,
        Seq<Said>,
    ) {
        (
            self.at(OnceStep::CheckOnline),
            match outcome {
                Ok(list) => existing_said(list@) + notice::only_if(
                    some_online(list@),
                    notice::warn(
                        "another RAS connection is already online; RAS may refuse a second dial"@,
                    ),
                ),
                Err(e) => seq![notice::warn("cannot enumerate RAS connections: "@ + e.said())],
            },
        )
    }

    /// A look at the connection: there is nothing to do when it is online.
    pub open spec fn after_online(self, outcome: Result<bool, Error>) -> (OnceView, Seq<Said>) {
        match outcome {
            Err(e) => (self.at(OnceStep::Fail(e.said())), Seq::empty()),
            Ok(true) => (
                self.at(OnceStep::Succeed),
                seq![
                    notice::info(
                        "connection \""@ + self.entry + "\" is already online; nothing to do"@,
                    ),
                ],
            ),
            Ok(false) => (self.at(OnceStep::Dial), Seq::empty()),
        }
    }

    /// The dial.
    pub open spec fn after_dial(self, outcome: Result<Dialed, Error>, took: Seq<char>) -> (
        OnceView,
        Seq<Said>,
    ) {
        match outcome {
            Err(e) => (self.at(OnceStep::Fail(e.said())), Seq::empty()),
            Ok(dialed) => {
                let told = notice::info(
                    "dial succeeded in "@ + took + "s (entry \""@ + self.entry + "\")"@,
                );
                if self.hang_up {
                    (self.at(OnceStep::HangUp(dialed.conn)), seq![told])
                } else {
                    (
                        self.at(OnceStep::Succeed),
                        seq![
                            told,
                            notice::info("test connection left online on request (--keep)"@),
                        ],
                    )
                }
            },
        }
    }

    /// The error that ends the command as it is, the code of a RAS failure included.
    pub open spec fn handed_on(self, event: OnceEvent) -> Option<Error> {
        match (self.step, event) {
            (OnceStep::CheckCable, OnceEvent::Cable(Err(e))) => Some(e),
            (OnceStep::CheckOnline, OnceEvent::Online(Err(e))) => Some(e),
            (OnceStep::Dial, OnceEvent::Dialed(Err(e), _)) => Some(e),
            (OnceStep::HangUp(_), OnceEvent::HungUp(Err(e))) => Some(e),
            _ => None,
        }
    }

    /// The cable was found unplugged.
    pub open spec fn finds_no_cable(self, event: OnceEvent) -> bool {
        self.step is CheckCable && (event matches OnceEvent::Cable(Ok(status)) && !status.up)
    }

    /// Next state, and the records that go with it. An event that does not answer
    /// the step in question changes nothing.
    pub open spec fn after(self, event: OnceEvent) -> (OnceView, Seq<Said>) {
        match (self.step, event) {
            (OnceStep::EnsureEntry, OnceEvent::Entry(outcome)) => (
                self.at(self.line_step()),
                seq![worker::entry_said(self.entry, outcome)],
            ),
            (OnceStep::CheckCable, OnceEvent::Cable(outcome)) => self.after_cable(outcome),
            (OnceStep::ListConnections, OnceEvent::Listed(outcome)) => self.after_list(outcome),
            (OnceStep::CheckOnline, OnceEvent::Online(outcome)) => self.after_online(outcome),
            (OnceStep::Dial, OnceEvent::Dialed(outcome, took)) => self.after_dial(outcome, took@),
            (OnceStep::HangUp(_), OnceEvent::HungUp(outcome)) => match outcome {
                Err(e) => (self.at(OnceStep::Fail(e.said())), Seq::empty()),
                Ok(_) => (
                    self.at(OnceStep::Succeed),
                    seq![
                        notice::info(
                            "test connection hung up again (--keep would have left it online)"@,
                        ),
                    ],
                ),
            },
            _ => (self, Seq::empty()),
        }
    }
}

/// The machine of the `dial-once` command.
pub struct DialOnce {
    pub entry: String,
    pub check_cable: bool,
    pub hang_up: bool,
    pub action: OnceAction,
}

impl View for DialOnce {
    type V = OnceView;

    open spec fn view(&self) -> OnceView {
        OnceView {
            entry: self.entry@,
            check_cable: self.check_cable,
            hang_up: self.hang_up,
            step: self.action@,
        }
    }
}

/// Begins the `dial-once` command, which optionally hangs the connection up again.
/// The caller performs the action of the machine and hands what it came to to
/// [`DialOnce::advance`], until the action is to finish.
///
/// Fails as [`Config::interface_types`] does.
pub fn dial_once(cfg: &Config, hang_up: bool) -> (out: Result<DialOnce, Error>)
    ensures
        ({
            let names = text::texts(cfg.link_check.interface_types@);
            if names.len() == 0 {
                out matches Err(e) && e is Message && e.said()
                    == "link_check.interface_types must not be empty"@
            } else {
                match config::unsupported(names) {
                    Some(other) => out matches Err(e) && e is Message && e.said()
                        == "link_check.interface_types contains unsupported value '"@ + other
                        + "' (supported: ethernet)"@,
                    None => {
                        &&& out matches Ok(once)
                        &&& once@.entry == cfg.dial.entry_name@
                        &&& once@.check_cable == cfg.link_check.enabled
                        &&& once@.hang_up == hang_up
                        &&& once@.step == if cfg.dial.create_entry_if_missing {
                            OnceStep::EnsureEntry
                        } else {
                            once@.line_step()
                        }
                    },
                }
            }
        }),
{
    match cfg.interface_types() {
        Ok(_) => {},
        Err(e) => return Err(e),
    }
    let check_cable = cfg.link_check.enabled;
    let action = if cfg.dial.create_entry_if_missing {
        OnceAction::EnsureEntry
    } else {
        line_action(check_cable)
    };
    Ok(DialOnce { entry: cfg.dial.entry_name.clone(), check_cable, hang_up, action })
}

fn line_action(check_cable: bool) -> (action: OnceAction)
    ensures
        action@ == if check_cable {
            OnceStep::CheckCable
        } else {
            OnceStep::ListConnections
        },
{
    if check_cable {
        OnceAction::CheckCable
    } else {
        OnceAction::ListConnections
    }
}

fn report_existing(list: &Vec<ConnectionInfo>, notices: &mut Vec<Notice>)
    requires
        notice::said(old(notices)@) == Seq::<Said>::empty(),
    ensures
        notice::said(final(notices)@) == existing_said(list@) + notice::only_if(
            some_online(list@),
            notice::warn(
                "another RAS connection is already online; RAS may refuse a second dial"@,
            ),
        ),
{
    let mut online = false;
    let mut i: usize = 0;
    while i < list.len()
        invariant
            i <= list@.len(),
            notice::said(notices@) == existing_said(list@).take(i as int),
            online ==> some_online(list@),
            !online ==> forall|j: int| 0 <= j < i ==> !(#[trigger] list@[j]).connected,
        decreases list@.len() - i,
    {
        let info = &list[i];
        let mut text = text::joined(
            "existing RAS connection: entry=\"",
            info.entry.as_str(),
            "\" device=\"",
        );
        text.append(info.device.as_str());
        text.append("\" state=");
        text.append(text::number(info.state as u64).as_str());
        text.append(" connected=");
        text.append(text::flag(info.connected).as_str());
        add_to(notices, Level::Info, text);
        if info.connected {
            assert(list@[i as int].connected);
            online = true;
        }
        i += 1;
        assert(notice::said(notices@) == existing_said(list@).take(i as int));
    }
    if online {
        add_to(
            notices,
            Level::Warn,
            "another RAS connection is already online; RAS may refuse a second dial".to_owned(),
        );
    }
    assert(notice::said(notices@) == existing_said(list@) + notice::only_if(
        some_online(list@),
        notice::warn("another RAS connection is already online; RAS may refuse a second dial"@),
    ));
}

impl DialOnce {
    /// Takes over what the action came to, and hands out the records for the log.
    pub fn advance(&mut self, event: OnceEvent) -> (notices: Vec<Notice>)
        ensures
            final(self)@ == old(self)@.after(event).0,
            notice::said(notices@) == old(self)@.after(event).1,
            old(self)@.handed_on(event) matches Some(e) ==> final(self).action
                == OnceAction::Finish(Err(e)),
            old(self)@.finds_no_cable(event) ==> (final(self).action matches OnceAction::Finish(
                Err(e),
            ) && e is Message),
    {
        let mut notices: Vec<Notice> = Vec::new();
        assert(notice::said(notices@) == Seq::<Said>::empty());
        match (&self.action, event) {
            (OnceAction::EnsureEntry, OnceEvent::Entry(outcome)) => {
                let record = prepare_entry(self.entry.as_str(), &outcome);
                add_to(&mut notices, record.level, record.text);
                self.action = line_action(self.check_cable);
            },
            (OnceAction::CheckCable, OnceEvent::Cable(outcome)) => match outcome {
                Err(e) => {
                    self.action = OnceAction::Finish(Err(e));
                },
                Ok(status) => {
                    add_to(&mut notices, Level::Info, verdict_line(&status));
                    let mut text = "cable candidates: ".to_owned();
                    text.append(describe_candidates(status.adapters.as_slice()).as_str());
                    add_to(&mut notices, Level::Debug, text);
                    if status.up {
                        self.action = OnceAction::ListConnections;
                    } else {
                        let mut text = "network cable is not connected: ".to_owned();
                        text.append(status.reason.as_str());
                        self.action = OnceAction::Finish(Err(Error::Message(text)));
                    }
                },
            },
            (OnceAction::ListConnections, OnceEvent::Listed(outcome)) => {
                match outcome {
                    Ok(list) => report_existing(&list, &mut notices),
                    Err(e) => {
                        let mut text = "cannot enumerate RAS connections: ".to_owned();
                        text.append(e.message().as_str());
                        add_to(&mut notices, Level::Warn, text);
                    },
                }
                self.action = OnceAction::CheckOnline;
            },
            (OnceAction::CheckOnline, OnceEvent::Online(outcome)) => match outcome {
                Err(e) => {
                    self.action = OnceAction::Finish(Err(e));
                },
                Ok(online) => {
                    if online {
                        add_to(
                            &mut notices,
                            Level::Info,
                            text::joined(
                                "connection \"",
                                self.entry.as_str(),
                                "\" is already online; nothing to do",
                            ),
                        );
                        self.action = OnceAction::Finish(Ok(()));
                    } else {
                        self.action = OnceAction::Dial;
                    }
                },
            },
            (OnceAction::Dial, OnceEvent::Dialed(outcome, took)) => match outcome {
                Err(e) => {
                    self.action = OnceAction::Finish(Err(e));
                },
                Ok(dialed) => {
                    let mut text = text::joined("dial succeeded in ", took.as_str(), "s (entry \"");
                    text.append(self.entry.as_str());
                    text.append("\")");
                    add_to(&mut notices, Level::Info, text);
                    if self.hang_up {
                        self.action = OnceAction::HangUp(dialed);
                    } else {
                        add_to(
                            &mut notices,
                            Level::Info,
                            "test connection left online on request (--keep)".to_owned(),
                        );
                        self.action = OnceAction::Finish(Ok(()));
                    }
                },
            },
            (OnceAction::HangUp(_), OnceEvent::HungUp(outcome)) => match outcome {
                Err(e) => {
                    self.action = OnceAction::Finish(Err(e));
                },
                Ok(_) => {
                    add_to(
                        &mut notices,
                        Level::Info,
                        "test connection hung up again (--keep would have left it online)".to_owned(),
                    );
                    self.action = OnceAction::Finish(Ok(()));
                },
            },
            _ => {},
        }
        assert(notice::said(notices@) == old(self)@.after(event).1);
        notices
    }
}

/// The command dials only when it has looked and has found the connection offline,
/// and it gets to look only behind a usable cable, where the check is enabled.
pub proof fn a_test_dial_needs_a_free_line(w: OnceView, event: OnceEvent)
    ensures
        !(w.step is Dial) && w.after(event).0.step is Dial ==> w.step is CheckOnline && event
            == OnceEvent::Online(Ok(false)),
        w.check_cable && !(w.step is ListConnections) && w.after(event).0.step is ListConnections
            ==> w.step is CheckCable && (event matches OnceEvent::Cable(Ok(status)) && status.up),
{
}

/// The connection of a test dial is hung up exactly when that was asked for, and
/// it is the one that the dial brought up.
pub proof fn a_kept_connection_is_never_hung_up(w: OnceView, event: OnceEvent)
    requires
        w.step is Dial,
        event is Dialed,
    ensures
        w.after(event).0.step is HangUp <==> w.hang_up && (event matches OnceEvent::Dialed(
            Ok(_),
            _,
        )),
        w.after(event).0.step matches OnceStep::HangUp(conn) ==> (event matches OnceEvent::Dialed(
            Ok(dialed),
            _,
        ) && dialed.conn == conn),
{
}

/// Whatever making sure of the phone book entry came to, the command goes on to the line:
/// to the cable where that is checked, otherwise to the connections. Nothing else changes.
pub proof fn the_entry_never_ends_the_command(
    once: &mut DialOnce,
    outcome: Result<bool, Error>,
    notices: Vec<Notice>,
)
    requires
        old(once)@.step is EnsureEntry,
        call_ensures(DialOnce::advance, (once, OnceEvent::Entry(outcome)), notices),
    ensures
        old(once)@.check_cable ==> final(once)@.step is CheckCable,
        !old(once)@.check_cable ==> final(once)@.step is ListConnections,
        final(once)@.entry == old(once)@.entry,
        final(once)@.check_cable == old(once)@.check_cable,
        final(once)@.hang_up == old(once)@.hang_up,
        notices@.len() == 1,
        notices@[0].level == match outcome {
            Ok(true) => Level::Info,
            Ok(false) => Level::Debug,
            Err(_) => Level::Warn,
        },
{
    let told = notice::said(notices@);
    assert(told.len() == 1 && told[0] == notices@[0]@);
}

/// The command succeeds behind three events and no other: the connection is found online,
/// a dial worked whose connection is kept, or the connection of a test dial was hung up.
pub proof fn only_a_connection_is_a_success(w: OnceView, event: OnceEvent)
    requires
        !(w.step is Succeed),
    ensures
        w.after(event).0.step is Succeed <==> {
            ||| w.step is CheckOnline && event == OnceEvent::Online(Ok(true))
            ||| w.step is Dial && !w.hang_up && (event matches OnceEvent::Dialed(Ok(_), _))
            ||| w.step is HangUp && (event matches OnceEvent::HungUp(Ok(_)))
        },
{
}

/// The command fails where a step of it failed, with what that said, and where the cable
/// is out. A phone book entry and a connection table that could not be read do not fail
/// it.
pub proof fn every_failed_step_fails_the_command(w: OnceView, event: OnceEvent)
    requires
        !(w.step is Fail),
    ensures
        w.after(event).0.step is Fail <==> {
            ||| w.step is CheckCable && (event matches OnceEvent::Cable(Err(_)))
            ||| w.step is CheckCable && (event matches OnceEvent::Cable(Ok(status)) && !status.up)
            ||| w.step is CheckOnline && (event matches OnceEvent::Online(Err(_)))
            ||| w.step is Dial && (event matches OnceEvent::Dialed(Err(_), _))
            ||| w.step is HangUp && (event matches OnceEvent::HungUp(Err(_)))
        },
        w.after(event).0.step matches OnceStep::Fail(told) ==> {
            &&& event matches OnceEvent::Cable(Err(e)) ==> told == e.said()
            &&& event matches OnceEvent::Cable(Ok(status)) ==> told
                == "network cable is not connected: "@ + status.reason@
            &&& event matches OnceEvent::Online(Err(e)) ==> told == e.said()
            &&& event matches OnceEvent::Dialed(Err(e), _) ==> told == e.said()
            &&& event matches OnceEvent::HungUp(Err(e)) ==> told == e.said()
        },
{
}

/// The way to the dial: a cable that is in leads to the connection table, that leads to
/// the look at the connection whatever it holds, and an offline connection is dialled. The
/// connection of a dial that worked is hung up where that was asked for.
pub proof fn the_command_goes_on_to_the_dial(w: OnceView, event: OnceEvent)
    ensures
        ({
            let next = w.after(event).0.step;
            &&& w.step is CheckCable && (event matches OnceEvent::Cable(Ok(status)) && status.up)
                ==> next is ListConnections
            &&& w.step is ListConnections && event is Listed ==> next is CheckOnline
            &&& w.step is CheckOnline && event == OnceEvent::Online(Ok(false)) ==> next is Dial
            &&& w.step is Dial && w.hang_up ==> (event matches OnceEvent::Dialed(Ok(dialed), _)
                ==> next == OnceStep::HangUp(dialed.conn))
        }),
        w.after(event).0.entry == w.entry,
        w.after(event).0.check_cable == w.check_cable,
        w.after(event).0.hang_up == w.hang_up,
{
}

/// The end of the command is final, and an event that does not tell what the step came to
/// changes nothing.
pub proof fn a_stray_event_is_ignored(w: OnceView, event: OnceEvent)
    requires
        !(w.step is EnsureEntry && event is Entry),
        !(w.step is CheckCable && event is Cable),
        !(w.step is ListConnections && event is Listed),
        !(w.step is CheckOnline && event is Online),
        !(w.step is Dial && event is Dialed),
        !(w.step is HangUp && event is HungUp),
    ensures
        w.after(event) == (w, Seq::<Said>::empty()),
{
}

/// The connection table is told connection by connection, and a warning follows exactly
/// where one of them is online.
pub proof fn every_existing_connection_is_told(w: OnceView, list: Vec<ConnectionInfo>)
    requires
        w.step is ListConnections,
    ensures
        ({
            let told = w.after(OnceEvent::Listed(Ok(list))).1;
            let online = exists|i: int| 0 <= i < list@.len() && (#[trigger] list@[i]).connected;
            &&& told.len() == list@.len() + (if online {
                1int
            } else {
                0int
            })
            &&& forall|i: int|
                0 <= i < list@.len() ==> (#[trigger] told[i]).level == Level::Info && text::has_text(
                    told[i].text,
                    list@[i].entry@,
                )
            &&& online ==> told.last().level == Level::Warn
        }),
{
    let told = w.after(OnceEvent::Listed(Ok(list))).1;
    assert forall|i: int| 0 <= i < list@.len() implies (#[trigger] told[i]).level == Level::Info
        && text::has_text(told[i].text, list@[i].entry@) by {
        let info = list@[i];
        let head = "existing RAS connection: entry=\""@;
        let tail = "\" device=\""@ + info.device@ + "\" state="@ + text::decimal(info.state as nat)
            + " connected="@ + text::truth(info.connected);
        assert(told[i] == notice::info(existing_text(info)));
        assert(existing_text(info) == head + info.entry@ + tail);
        text::lemma_stands_between(head, info.entry@, tail);
    }
}

/// A dial that worked is told with the time it took and the entry; that its connection is
/// kept is told as well.
pub proof fn a_dial_is_told_with_its_time(w: OnceView, dialed: Dialed, took: String)
    requires
        w.step is Dial,
    ensures
        ({
            let told = w.after(OnceEvent::Dialed(Ok(dialed), took)).1;
            &&& told.len() == if w.hang_up {
                1nat
            } else {
                2nat
            }
            &&& told[0].level == Level::Info
            &&& text::has_text(told[0].text, took@)
            &&& text::has_text(told[0].text, w.entry)
        }),
{
    let told = w.after(OnceEvent::Dialed(Ok(dialed), took)).1[0].text;
    let head = "dial succeeded in "@;
    let tail = "s (entry \""@ + w.entry + "\")"@;
    assert(told == head + took@ + tail);
    text::lemma_stands_between(head, took@, tail);
    assert(told == (head + took@ + "s (entry \""@) + w.entry + "\")"@);
    text::lemma_stands_between(head + took@ + "s (entry \""@, w.entry, "\")"@);
}

/// The executable machine takes the steps that the laws speak of. An error that ends the
/// command is the very one that the step ended with, its code included.
pub proof fn the_command_takes_these_steps(
    once: &mut DialOnce,
    event: OnceEvent,
    notices: Vec<Notice>,
)
    requires
        call_ensures(DialOnce::advance, (once, event), notices),
    ensures
        final(once)@ == old(once)@.after(event).0,
        notices@.len() == old(once)@.after(event).1.len(),
        forall|i: int|
            0 <= i < notices@.len() ==> (#[trigger] notices@[i])@ == old(once)@.after(event).1[i],
        old(once)@.step is CheckCable ==> (event matches OnceEvent::Cable(Err(e))
            ==> final(once).action == OnceAction::Finish(Err(e))),
        old(once)@.step is CheckOnline ==> (event matches OnceEvent::Online(Err(e))
            ==> final(once).action == OnceAction::Finish(Err(e))),
        old(once)@.step is Dial ==> (event matches OnceEvent::Dialed(Err(e), _)
            ==> final(once).action == OnceAction::Finish(Err(e))),
        old(once)@.step is HangUp ==> (event matches OnceEvent::HungUp(Err(e)) ==> final(once).action
            == OnceAction::Finish(Err(e))),
{
    let told = notice::said(notices@);
    assert forall|i: int| 0 <= i < notices@.len() implies (#[trigger] notices@[i])@ == old(
        once,
    )@.after(event).1[i] by {
        assert(told[i] == notices@[i]@);
    }
}

/// A command for a configuration begins with the phone book entry where that may be
/// created, otherwise with the line, and keeps what it was asked for.
pub proof fn the_command_begins_as_configured(cfg: &Config, hang_up: bool, once: DialOnce)
    requires
        call_ensures(dial_once, (cfg, hang_up), Ok(once)),
    ensures
        once@.entry == cfg.dial.entry_name@,
        once@.check_cable == cfg.link_check.enabled,
        once@.hang_up == hang_up,
        once@.step is EnsureEntry <==> cfg.dial.create_entry_if_missing,
        once@.step is CheckCable <==> !cfg.dial.create_entry_if_missing && cfg.link_check.enabled,
        once@.step is ListConnections <==> !cfg.dial.create_entry_if_missing
            && !cfg.link_check.enabled,
{
}

/// A command is begun exactly where every configured interface type is known and there is
/// one.
pub proof fn the_command_needs_known_interface_types(
    cfg: &Config,
    hang_up: bool,
    out: Result<DialOnce, Error>,
)
    requires
        call_ensures(dial_once, (cfg, hang_up), out),
    ensures
        out is Ok <==> cfg.link_check.interface_types@.len() > 0 && forall|i: int|
            0 <= i < cfg.link_check.interface_types@.len() ==> text::ascii_lower(
                text::trimmed((#[trigger] cfg.link_check.interface_types@[i])@),
            ) == "ethernet"@,
{
    config::every_interface_type_has_to_be_known(*cfg);
}

/// The state reached from another one with a sequence of events.
pub open spec fn reached(w: OnceView, events: Seq<OnceEvent>) -> OnceView
    decreases events.len(),
{
    if events.len() == 0 {
        w
    } else {
        reached(w, events.drop_last()).after(events.last()).0
    }
}

/// The event tells of a connection that is up.
pub open spec fn tells_a_connection(event: OnceEvent) -> bool {
    ||| event == OnceEvent::Online(Ok(true))
    ||| (event matches OnceEvent::Dialed(Ok(_), _))
}

/// Of a whole run: a command that succeeds has found the connection online or has dialled
/// it.
pub proof fn no_success_without_a_connection(w: OnceView, events: Seq<OnceEvent>)
    requires
        w.step is EnsureEntry || w.step is CheckCable || w.step is ListConnections,
        reached(w, events).step is Succeed || reached(w, events).step is HangUp,
    ensures
        exists|i: int| 0 <= i < events.len() && tells_a_connection(#[trigger] events[i]),
    decreases events.len(),
{
    if events.len() > 0 {
        let before = events.drop_last();
        let last = events.last();
        assert(events[events.len() - 1] == last);
        if !tells_a_connection(last) {
            no_success_without_a_connection(w, before);
            let i = choose|i: int| 0 <= i < before.len() && tells_a_connection(#[trigger] before[i]);
            assert(events[i] == before[i]);
        }
    }
}

/// A check of the cable is told with its result and its reason, a failed table of connections
/// with what was said, and everything else by what it is about.
pub proof fn the_steps_of_the_command_are_told(
    w: OnceView,
    status: LinkStatus,
    e: Error,
)
    ensures
        w.step is CheckCable ==> {
            let told = w.after(OnceEvent::Cable(Ok(status))).1;
            &&& told.len() == 2
            &&& told[0].level is Info
            &&& told[1].level is Debug
            &&& text::begins_with(told[0].text, "cable check: usable="@ + text::truth(status.up))
            &&& text::has_text(told[0].text, status.reason@)
        },
        w.step is ListConnections ==> {
            let told = w.after(OnceEvent::Listed(Err(e))).1;
            told.len() == 1 && told[0].level is Warn && text::has_text(told[0].text, e.said())
        },
        w.step is CheckOnline ==> {
            let told = w.after(OnceEvent::Online(Ok(true))).1;
            told.len() == 1 && told[0].level is Info && text::has_text(told[0].text, w.entry)
        },
        w.step is HangUp ==> w.after(OnceEvent::HungUp(Ok(()))).1.len() == 1,
{
    let none = Seq::<char>::empty();
    let head = "cable check: usable="@ + text::truth(status.up);
    let middle = " fallback="@ + text::truth(status.fallback) + " reason=\""@;
    let told = worker::verdict_text(status);
    assert(told == (head + middle) + status.reason@ + "\""@);
    text::lemma_stands_between(head + middle, status.reason@, "\""@);
    assert(told.subrange(0, head.len() as int) == head);
    let list = "cannot enumerate RAS connections: "@;
    assert(list + e.said() + none == list + e.said());
    text::lemma_stands_between(list, e.said(), none);
    text::lemma_stands_between(
        "connection \""@,
        w.entry,
        "\" is already online; nothing to do"@,
    );
}

/// An existing connection is told with its device, its state and whether it is connected.
pub proof fn an_existing_connection_is_told_with_its_state(info: ConnectionInfo)
    ensures
        text::has_text(existing_text(info), "device=\""@ + info.device@ + "\""@),
        text::has_text(
            existing_text(info),
            "state="@ + text::decimal(info.state as nat) + " connected="@ + text::truth(
                info.connected,
            ),
        ),
{
    reveal_strlit("\" device=\"");
    reveal_strlit("\" ");
    reveal_strlit("device=\"");
    reveal_strlit("\" state=");
    reveal_strlit("\"");
    reveal_strlit(" ");
    reveal_strlit("state=");
    assert("\" device=\""@ == "\" "@ + "device=\""@);
    assert("\" state="@ == "\""@ + " "@ + "state="@);
    let none = Seq::<char>::empty();
    let device = "device=\""@ + info.device@ + "\""@;
    let state = "state="@ + text::decimal(info.state as nat) + " connected="@ + text::truth(
        info.connected,
    );
    let head = "existing RAS connection: entry=\""@ + info.entry@ + "\" "@;
    assert(existing_text(info) == head + device + (" "@ + state));
    text::lemma_stands_between(head, device, " "@ + state);
    assert(existing_text(info) == (head + device + " "@) + state + none);
    text::lemma_stands_between(head + device + " "@, state, none);
}

} // verus!
