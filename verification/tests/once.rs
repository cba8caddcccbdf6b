use pppoe::config::Config;
use pppoe::error::{err, Error};
use pppoe::link::LinkStatus;
use pppoe::notice::Notice;
use pppoe::once::{dial_once, DialOnce, OnceAction, OnceEvent};
use pppoe::ras::{error_code, ConnectionInfo, Dialed, RasFailure};

fn config() -> Config {
    let mut config = Config::default();
    config.dial.entry_name = String::from("Dr.COM");
    config
}

fn status(up: bool) -> LinkStatus {
    LinkStatus {
        up,
        fallback: false,
        reason: String::from("because"),
        decided_by: None,
        adapters: vec![],
    }
}

fn texts(notices: Vec<Notice>) -> Vec<String> {
    notices.into_iter().map(|n| n.text).collect()
}

fn failure(once: &DialOnce) -> String {
    match &once.action {
        OnceAction::Finish(Err(e)) => e.message(),
        _ => panic!("the command must have failed"),
    }
}

/// Takes the command to the point where it dials.
fn dialling(hang_up: bool) -> DialOnce {
    let mut once = dial_once(&config(), hang_up).unwrap_or_else(|_| panic!("valid"));
    assert!(matches!(once.action, OnceAction::EnsureEntry));
    once.advance(OnceEvent::Entry(Ok(false)));
    assert!(matches!(once.action, OnceAction::CheckCable));
    assert_eq!(
        texts(once.advance(OnceEvent::Cable(Ok(status(true))))),
        vec![
            "cable check: usable=true fallback=false reason=\"because\"",
            "cable candidates: []",
        ]
    );
    once.advance(OnceEvent::Listed(Ok(vec![])));
    assert!(matches!(once.action, OnceAction::CheckOnline));
    assert!(once.advance(OnceEvent::Online(Ok(false))).is_empty());
    assert!(matches!(once.action, OnceAction::Dial));
    once
}

#[test]
fn a_test_dial_is_hung_up_again() {
    let mut once = dialling(true);
    assert_eq!(
        texts(once.advance(OnceEvent::Dialed(Ok(Dialed { conn: 9 }), String::from("1.5")))),
        vec!["dial succeeded in 1.5s (entry \"Dr.COM\")"]
    );
    assert!(matches!(&once.action, OnceAction::HangUp(d) if d.conn == 9));
    assert_eq!(
        texts(once.advance(OnceEvent::HungUp(Ok(())))),
        vec!["test connection hung up again (--keep would have left it online)"]
    );
    assert!(matches!(once.action, OnceAction::Finish(Ok(()))));
}

#[test]
fn a_test_dial_can_be_kept() {
    let mut once = dialling(false);
    assert_eq!(
        texts(once.advance(OnceEvent::Dialed(Ok(Dialed { conn: 9 }), String::from("1.5")))),
        vec![
            "dial succeeded in 1.5s (entry \"Dr.COM\")",
            "test connection left online on request (--keep)",
        ]
    );
    assert!(matches!(once.action, OnceAction::Finish(Ok(()))));
}

#[test]
fn every_failure_ends_the_command() {
    let mut once = dialling(true);
    once.advance(OnceEvent::Dialed(Err(err("busy")), String::new()));
    assert_eq!(failure(&once), "busy");

    let mut once = dialling(true);
    let refused = Error::Ras(RasFailure { code: 691, context: "RasDialW" });
    once.advance(OnceEvent::Dialed(Err(refused), String::new()));
    match &once.action {
        OnceAction::Finish(Err(e)) => assert_eq!(error_code(e), Some(691)),
        _ => panic!("the command must have failed"),
    }

    let mut once = dialling(true);
    once.advance(OnceEvent::Dialed(Ok(Dialed { conn: 9 }), String::from("1.5")));
    once.advance(OnceEvent::HungUp(Err(err("stuck"))));
    assert_eq!(failure(&once), "stuck");

    let mut config = config();
    config.dial.create_entry_if_missing = false;
    let mut once = dial_once(&config, true).unwrap_or_else(|_| panic!("valid"));
    once.advance(OnceEvent::Cable(Err(err("no table"))));
    assert_eq!(failure(&once), "no table");

    let mut once = dial_once(&config, true).unwrap_or_else(|_| panic!("valid"));
    once.advance(OnceEvent::Cable(Ok(status(false))));
    assert_eq!(failure(&once), "network cable is not connected: because");

    config.link_check.enabled = false;
    let mut once = dial_once(&config, true).unwrap_or_else(|_| panic!("valid"));
    assert_eq!(
        texts(once.advance(OnceEvent::Listed(Err(err("gone"))))),
        vec!["cannot enumerate RAS connections: gone"]
    );
    once.advance(OnceEvent::Online(Err(err("gone"))));
    assert_eq!(failure(&once), "gone");

    config.link_check.interface_types = vec![];
    match dial_once(&config, true) {
        Ok(_) => panic!("the command must not start"),
        Err(e) => assert_eq!(e.message(), "link_check.interface_types must not be empty"),
    }
}

#[test]
fn an_online_connection_needs_no_test_dial() {
    let mut config = config();
    config.dial.create_entry_if_missing = false;
    config.link_check.enabled = false;
    let mut once = dial_once(&config, true).unwrap_or_else(|_| panic!("valid"));
    let online = ConnectionInfo {
        entry: String::from("other"),
        state: 8192,
        connected: true,
        device: String::from("x"),
    };
    assert_eq!(
        texts(once.advance(OnceEvent::Listed(Ok(vec![online])))),
        vec![
            "existing RAS connection: entry=\"other\" device=\"x\" state=8192 connected=true",
            "another RAS connection is already online; RAS may refuse a second dial",
        ]
    );
    assert_eq!(
        texts(once.advance(OnceEvent::Online(Ok(true)))),
        vec!["connection \"Dr.COM\" is already online; nothing to do"]
    );
    assert!(matches!(once.action, OnceAction::Finish(Ok(()))));
}
