use pppoe::backoff::Backoff;
use pppoe::config::{Config, MonitorConfig};
use pppoe::error::{err, Error};
use pppoe::link::{AdapterInfo, LinkStatus, MediaState};
use pppoe::logger::Level;
use pppoe::notice::Notice;
use pppoe::ras::{ConnectionInfo, RasFailure};
use pppoe::worker::{
    debounce_ms, millis32, prepare_entry, run, safety_timeout_ms, wake_of, Action, Event, Waiting,
    Wake, Worker, INFINITE,
};

fn monitor(base: u64, max: u64, jitter: u64) -> MonitorConfig {
    MonitorConfig {
        reconnect_delay_secs: base,
        max_backoff_secs: max,
        backoff_jitter_secs: jitter,
        event_debounce_ms: 0,
        safety_recheck_secs: 0,
    }
}

fn config() -> Config {
    let mut config = Config::default();
    config.dial.entry_name = String::from("Dr.COM");
    config.dial.username = String::from("account-9");
    config.dial.password = String::from("secret-9");
    config.dial.create_entry_if_missing = false;
    config.monitor.backoff_jitter_secs = 0;
    config
}

fn start(config: &Config) -> Worker {
    run(config).unwrap().0
}

fn status(up: bool, fallback: bool) -> LinkStatus {
    let adapter = AdapterInfo {
        alias: String::from("Eth"),
        description: String::from("NIC"),
        if_type: 6,
        oper_up: up,
        media: MediaState::Connected,
        hardware: true,
        is_filter: false,
        connector_present: true,
    };
    LinkStatus {
        up,
        fallback,
        reason: String::from("because"),
        decided_by: Some(adapter.clone()),
        adapters: vec![adapter],
    }
}

fn ras(code: u32) -> Result<(), Error> {
    Err(Error::Ras(RasFailure { code, context: "RasDialW" }))
}

fn said(notices: Vec<Notice>) -> Vec<(Level, String)> {
    notices.into_iter().map(|n| (n.level, n.text)).collect()
}

fn pair(level: Level, text: &str) -> (Level, String) {
    (level, text.to_string())
}

/// Takes a fresh machine to the point where it dials.
fn dialling(config: &Config) -> Worker {
    let mut w = start(config);
    w.advance(&Event::Cable(Ok(status(true, false))));
    w.advance(&Event::Online(Ok(false)));
    assert_eq!(w.action(), Action::Dial);
    w
}

#[test]
fn backoff_doubles_and_caps() {
    let mut backoff = Backoff::new(&monitor(5, 60, 0));
    let expected = [5u64, 10, 20, 40, 60, 60, 60];
    for want in expected {
        assert_eq!(backoff.next_delay(), want);
    }
    assert_eq!(backoff.attempts(), 7);
}

#[test]
fn backoff_resets_after_success() {
    let mut backoff = Backoff::new(&monitor(5, 300, 0));
    let _ = backoff.next_delay();
    let _ = backoff.next_delay();
    assert_eq!(backoff.attempts(), 2);
    backoff.reset();
    assert_eq!(backoff.attempts(), 0);
    assert_eq!(backoff.next_delay(), 5);
}

#[test]
fn jitter_stays_within_bounds() {
    let jitter = 3;
    let mut backoff = Backoff::new(&monitor(10, 10, jitter));
    for _ in 0..200 {
        let secs = backoff.next_delay();
        assert!((10 - jitter..=10 + jitter).contains(&secs), "jitter out of range: {secs}");
    }
}

#[test]
fn jitter_never_goes_below_one_second() {
    let mut backoff = Backoff::new(&monitor(1, 1, 5));
    for _ in 0..200 {
        assert!(backoff.next_delay() >= 1);
    }
}

#[test]
fn millis_saturate() {
    assert_eq!(millis32(std::time::Duration::from_millis(10).as_millis()), 10);
    assert_eq!(millis32(std::time::Duration::from_secs(u64::MAX).as_millis()), u32::MAX);
}

#[test]
fn safety_timeout_follows_the_configuration() {
    let mut config = Config::default();
    config.dial.entry_name = String::from("x");
    config.dial.username = String::from("y");
    config.dial.password = String::from("z");
    assert_eq!(safety_timeout_ms(&config), INFINITE);
    config.monitor.safety_recheck_secs = 300;
    assert_eq!(safety_timeout_ms(&config), 300_000);
}

#[test]
fn the_jitter_follows_the_xorshift_sequence() {
    // From the seed 1 the sequence begins with 0x40822041; modulo 7 that is 6.
    let mut backoff = Backoff::with_seed(&monitor(10, 10, 3), 0);
    assert_eq!(0x4082_2041u64 % 7, 6);
    assert_eq!(backoff.next_delay(), 10 - 3 + 6);
    assert_eq!(backoff.attempts(), 1);
}

#[test]
fn a_large_jitter_stays_around_a_short_delay() {
    // From the seed 1 the place in the range is 1, which is below a second; from the
    // seed 7 it is 7.
    assert_eq!(0x4082_2041u64 % 11, 1);
    assert_eq!(Backoff::with_seed(&monitor(1, 1, 5), 1).next_delay(), 1);
    assert_eq!(Backoff::with_seed(&monitor(1, 1, 5), 7).next_delay(), 1 + 7 - 5);
    for seed in 0..50u64 {
        let mut backoff = Backoff::with_seed(&monitor(1, 1, 5), seed);
        for _ in 0..50 {
            let secs = backoff.next_delay();
            assert!((1..=6).contains(&secs), "jitter out of range: {secs}");
        }
    }
}

#[test]
fn the_delay_doubles_until_the_cap() {
    let mut backoff = Backoff::new(&monitor(1, 200_000, 0));
    for _ in 0..17 {
        backoff.next_delay();
    }
    assert_eq!(backoff.next_delay(), 131_072);
    assert_eq!(backoff.next_delay(), 200_000);
}

#[test]
fn extreme_settings_do_not_overflow() {
    let mut backoff = Backoff::with_seed(&monitor(u64::MAX, 0, u64::MAX), 7);
    assert!(backoff.next_delay() >= 1);
    let mut zero = Backoff::with_seed(&monitor(0, 0, 0), 7);
    for _ in 0..100 {
        assert_eq!(zero.next_delay(), 1);
    }
    let mut wide = Backoff::with_seed(&monitor(1, u64::MAX, 0), 7);
    for attempt in 0..64u32 {
        assert_eq!(wide.next_delay(), 1 << attempt);
    }
    for _ in 0..40 {
        assert_eq!(wide.next_delay(), u64::MAX);
    }
}

#[test]
fn wait_results_are_told_apart() {
    assert_eq!(wake_of(0), Wake::Stop);
    assert_eq!(wake_of(1), Wake::Signal);
    assert_eq!(wake_of(2), Wake::Signal);
    assert_eq!(wake_of(258), Wake::Timeout);
    assert_eq!(wake_of(u32::MAX), Wake::Failed);
}

#[test]
fn bursts_are_coalesced() {
    let first = Waiting::First { timeout_ms: 7 };
    assert_eq!(first.next(Wake::Signal, 0, 0), Waiting::Over(Wake::Signal));
    let burst = first.next(Wake::Signal, 500, 0);
    assert_eq!(burst, Waiting::Burst { timeout_ms: 500 });
    let burst = burst.next(Wake::Signal, 500, 100_500_000);
    assert_eq!(burst, Waiting::Burst { timeout_ms: 399 });
    assert_eq!(burst.next(Wake::Signal, 500, 499_999_999), Waiting::Burst { timeout_ms: 1 });
    assert_eq!(burst.next(Wake::Signal, 500, 500_000_000), Waiting::Over(Wake::Signal));
    assert_eq!(burst.next(Wake::Stop, 500, 0), Waiting::Over(Wake::Stop));
    assert_eq!(burst.next(Wake::Timeout, 500, 0), Waiting::Over(Wake::Signal));
    assert_eq!(burst.next(Wake::Failed, 500, 0), Waiting::Over(Wake::Signal));
}

#[test]
fn a_broken_wait_pauses() {
    let first = Waiting::First { timeout_ms: 7 };
    let pause = first.next(Wake::Failed, 500, 0);
    assert_eq!(pause, Waiting::Pause);
    assert_eq!(
        pause.warning().unwrap().text,
        "WaitForMultipleObjects failed; retrying in 1s"
    );
    assert!(first.warning().is_none());
    assert_eq!(pause.next(Wake::Timeout, 500, 0), Waiting::Over(Wake::Failed));
    assert_eq!(first.next(Wake::Timeout, 500, 0), Waiting::Over(Wake::Timeout));
    assert_eq!(first.next(Wake::Stop, 500, 0), Waiting::Over(Wake::Stop));
}

#[test]
fn the_window_follows_the_configuration() {
    let mut config = config();
    assert_eq!(debounce_ms(&config), 500);
    config.monitor.event_debounce_ms = u64::MAX;
    assert_eq!(debounce_ms(&config), u32::MAX);
}

#[test]
fn the_entry_comes_first() {
    let mut config = config();
    config.dial.create_entry_if_missing = true;
    let (mut w, registered) = run(&config).unwrap();
    assert_eq!(
        registered.text,
        "notifications registered: IP interface changes + all RAS connection events"
    );
    assert_eq!(w.action(), Action::EnsureEntry);
    assert_eq!(
        said(w.advance(&Event::Entry(Ok(true)))),
        vec![pair(Level::Info, "created the phone book entry \"Dr.COM\"")]
    );
    assert_eq!(w.action(), Action::CheckCable);
    assert_eq!(prepare_entry("x", &Ok(false)).text, "phone book entry \"x\" already exists");
    assert_eq!(
        prepare_entry("x", &Err(err("no"))).text,
        "cannot verify the phone book entry \"x\": no \
         (check dial.pbk_path and its permissions; dialling may fail with code 623)"
    );
}

#[test]
fn unsupported_interface_types_are_refused() {
    let mut config = config();
    config.link_check.interface_types = Vec::new();
    match run(&config) {
        Err(e) => assert_eq!(e.message(), "link_check.interface_types must not be empty"),
        Ok(_) => panic!("an empty list must be refused"),
    }
    config.link_check.interface_types = vec![String::from("Ethernet"), String::from("wifi")];
    match run(&config) {
        Err(e) => assert_eq!(
            e.message(),
            "link_check.interface_types contains unsupported value 'wifi' (supported: ethernet)"
        ),
        Ok(_) => panic!("an unknown type must be refused"),
    }
}

#[test]
fn an_unplugged_cable_is_waited_out() {
    let mut w = start(&config());
    assert_eq!(w.action(), Action::CheckCable);
    let told = said(w.advance(&Event::Cable(Ok(status(false, false)))));
    assert_eq!(
        told,
        vec![
            pair(
                Level::Debug,
                "cable check: usable=false fallback=false reason=\"because\" \
                 candidates=[{type:6, up:false, media:Connected, hw:true, filter:false, alias:\"Eth\"}]"
            ),
            pair(Level::Warn, "network cable is not connected: because"),
        ]
    );
    assert_eq!(w.action(), Action::Wait { timeout_ms: INFINITE });
    assert!(w.advance(&Event::Woken(Wake::Signal)).is_empty());
    // The warning is not repeated.
    assert_eq!(w.advance(&Event::Cable(Ok(status(false, false)))).len(), 1);
    w.advance(&Event::Woken(Wake::Timeout));
    let told = said(w.advance(&Event::Cable(Ok(status(true, true)))));
    assert_eq!(told[1], pair(Level::Info, "network cable is connected: because"));
    assert_eq!(
        told[2],
        pair(
            Level::Debug,
            "cable verdict decided by \"Eth\" (hardware=true, connector_present=true)"
        )
    );
    assert_eq!(
        told[3],
        pair(Level::Warn, "no adapter reports a media state; continuing on operational status")
    );
    assert_eq!(w.action(), Action::CheckOnline);
}

#[test]
fn a_failed_cable_check_does_not_stop_the_service() {
    let mut w = start(&config());
    assert_eq!(
        said(w.advance(&Event::Cable(Err(err("boom"))))),
        vec![pair(Level::Warn, "cannot read the interface table: boom")]
    );
    assert_eq!(w.action(), Action::CheckOnline);
}

#[test]
fn the_cable_check_can_be_disabled() {
    let mut config = config();
    config.link_check.enabled = false;
    assert_eq!(start(&config).action(), Action::CheckOnline);
}

#[test]
fn an_online_connection_is_left_alone() {
    let mut config = config();
    config.link_check.enabled = false;
    config.monitor.safety_recheck_secs = 300;
    let mut w = start(&config);
    assert_eq!(
        said(w.advance(&Event::Online(Ok(true)))),
        vec![pair(
            Level::Info,
            "connection \"Dr.COM\" is already online - no dial needed, waiting for events"
        )]
    );
    assert_eq!(w.action(), Action::Wait { timeout_ms: 300_000 });
    w.advance(&Event::Woken(Wake::Signal));
    assert!(w.advance(&Event::Online(Ok(true))).is_empty());
    w.advance(&Event::Woken(Wake::Signal));
    assert_eq!(
        said(w.advance(&Event::Online(Ok(false)))),
        vec![
            pair(Level::Warn, "connection \"Dr.COM\" went offline"),
            pair(Level::Info, "dialling \"Dr.COM\""),
        ]
    );
    assert_eq!(w.action(), Action::Dial);
}

#[test]
fn a_dial_that_works_ends_the_backoff() {
    let mut w = dialling(&config());
    assert_eq!(
        said(w.advance(&Event::Dialed(ras(678)))),
        vec![pair(
            Level::Error,
            "dial failed: code=678 (there was no answer (is the cable connected?))"
        )]
    );
    assert_eq!(w.action(), Action::ListConnections);
    assert_eq!(
        said(w.advance(&Event::Listed(Ok(vec![])))),
        vec![
            pair(Level::Debug, "RAS connections: []"),
            pair(Level::Warn, "retrying in 5s (attempt 1)"),
        ]
    );
    assert_eq!(w.action(), Action::Wait { timeout_ms: 5_000 });
    w.advance(&Event::Woken(Wake::Timeout));
    w.advance(&Event::Cable(Ok(status(true, false))));
    // Only the first attempt announces itself.
    assert!(w.advance(&Event::Online(Ok(false))).is_empty());
    assert_eq!(
        said(w.advance(&Event::Dialed(Ok(())))),
        vec![pair(Level::Info, "dial succeeded, connection \"Dr.COM\" is up")]
    );
    assert_eq!(w.action(), Action::CheckCable);
    w.advance(&Event::Cable(Ok(status(true, false))));
    assert!(w.advance(&Event::Online(Ok(true))).is_empty());
}

#[test]
fn configuration_problems_wait_a_minute() {
    let mut w = dialling(&config());
    assert_eq!(
        said(w.advance(&Event::Dialed(ras(691)))),
        vec![pair(
            Level::Error,
            "dial failed: code=691 (authentication failed - check the account or password) \
             - this looks like a configuration problem"
        )]
    );
    assert_eq!(
        said(w.advance(&Event::Listed(Err(err("gone"))))),
        vec![
            pair(Level::Debug, "cannot enumerate RAS connections: gone"),
            pair(Level::Warn, "retrying in 60s (attempt 1)"),
        ]
    );
    assert_eq!(w.action(), Action::Wait { timeout_ms: 60_000 });
}

#[test]
fn a_failure_without_a_code_is_shown_as_it_is() {
    let mut w = dialling(&config());
    assert_eq!(
        said(w.advance(&Event::Dialed(Err(err("CreateEventW failed: x"))))),
        vec![pair(Level::Error, "dial failed: CreateEventW failed: x")]
    );
    w.advance(&Event::Listed(Ok(vec![])));
    assert_eq!(w.action(), Action::Wait { timeout_ms: 5_000 });
}

#[test]
fn stale_attempts_are_aborted_and_dialled_again_at_once() {
    let mut w = dialling(&config());
    w.advance(&Event::Dialed(ras(756)));
    let attempt = ConnectionInfo {
        entry: String::from("Dr.COM"),
        state: 3,
        connected: false,
        device: String::from("x"),
    };
    assert_eq!(
        said(w.advance(&Event::Listed(Ok(vec![attempt])))),
        vec![pair(
            Level::Debug,
            "RAS connections: [{entry:\"Dr.COM\", device:\"x\", state:3, connected:false}]"
        )]
    );
    assert_eq!(w.action(), Action::AbortStale);
    assert_eq!(
        said(w.advance(&Event::Aborted(Ok(1)))),
        vec![pair(Level::Info, "stale dial attempts aborted: 1 - dialling again")]
    );
    assert_eq!(w.action(), Action::CheckCable);
}

#[test]
fn three_blocked_attempts_name_the_way_out() {
    let mut w = dialling(&config());
    for round in 1..=4u32 {
        w.advance(&Event::Dialed(ras(756)));
        w.advance(&Event::Listed(Ok(vec![])));
        let told = said(w.advance(&Event::Aborted(Ok(0))));
        let named = told.iter().any(|(l, t)| *l == Level::Warn && t.contains("net stop RasMan"));
        assert_eq!(named, round == 3);
        assert_eq!(told.last().unwrap().1, format!("retrying in {}s (attempt {round})", 5 << (round - 1)));
        w.advance(&Event::Woken(Wake::Timeout));
        w.advance(&Event::Cable(Ok(status(true, false))));
        w.advance(&Event::Online(Ok(false)));
    }
}

#[test]
fn a_failed_abort_is_reported_and_backed_off_from() {
    let mut w = dialling(&config());
    w.advance(&Event::Dialed(ras(756)));
    w.advance(&Event::Listed(Ok(vec![])));
    assert_eq!(
        said(w.advance(&Event::Aborted(Err(err("gone"))))),
        vec![
            pair(Level::Warn, "cannot abort stale dial attempts: gone"),
            pair(Level::Warn, "retrying in 5s (attempt 1)"),
        ]
    );
}

#[test]
fn a_stop_request_is_final() {
    let mut w = start(&config());
    w.advance(&Event::Cable(Ok(status(false, false))));
    assert_eq!(
        said(w.advance(&Event::Woken(Wake::Stop))),
        vec![pair(
            Level::Info,
            "worker stopped; the broadband connection is left online (RasHangUp is never called)"
        )]
    );
    assert_eq!(w.action(), Action::Stop);
    assert!(w.advance(&Event::Woken(Wake::Signal)).is_empty());
    assert_eq!(w.action(), Action::Stop);
}

#[test]
fn an_unexpected_event_changes_nothing() {
    let mut w = start(&config());
    assert!(w.advance(&Event::Online(Ok(false))).is_empty());
    assert_eq!(w.action(), Action::CheckCable);
}

#[test]
fn a_failed_look_at_the_connections_still_dials() {
    let mut config = config();
    config.link_check.enabled = false;
    let mut w = start(&config);
    assert_eq!(
        said(w.advance(&Event::Online(Err(err("gone"))))),
        vec![
            pair(Level::Warn, "cannot enumerate RAS connections: gone"),
            pair(Level::Info, "dialling \"Dr.COM\""),
        ]
    );
    assert_eq!(w.action(), Action::Dial);
}
