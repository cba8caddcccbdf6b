use pppoe::config::{Config, Loaded};
use pppoe::error::err;
use pppoe::logger::{init, Level, Rotation};
use pppoe::service::{
    collect_args, configured, failed, finished, logger_settings, running, starting, Effect,
    Lifecycle, Supervisor, WorkerEnd, STATE_RUNNING, STATE_START_PENDING, STATE_STOPPED,
    STATE_STOP_PENDING,
};

fn shown(effects: Vec<Effect>) -> Vec<String> {
    effects
        .into_iter()
        .map(|e| match e {
            Effect::Report { state, checkpoint, wait_hint } => {
                format!("report {state} {checkpoint} {wait_hint}")
            }
            Effect::DefaultLogger => String::from("default logger"),
            Effect::ConfiguredLogger => String::from("configured logger"),
            Effect::Record(level, text) => format!("{level:?}: {text}"),
            Effect::Event(level, id, text) => format!("{level:?} {id}: {text}"),
            Effect::ShutDownLogger => String::from("shut down"),
        })
        .collect()
}

#[test]
fn controls_are_accepted_only_while_running() {
    let mut life = Lifecycle::new();
    assert!(life.report(STATE_RUNNING, 0, 0).is_none());
    assert_eq!(life.state, STATE_START_PENDING);
    life.registered = true;
    let status = life.report(STATE_START_PENDING, 1, 10_000).unwrap();
    assert_eq!((status.state, status.controls_accepted), (2, 0));
    assert_eq!((status.checkpoint, status.wait_hint), (1, 10_000));
    let status = life.report(STATE_RUNNING, 0, 0).unwrap();
    // SERVICE_ACCEPT_STOP | SERVICE_ACCEPT_SHUTDOWN
    assert_eq!((status.state, status.controls_accepted), (4, 1 | 4));
    assert_eq!(life.state, STATE_RUNNING);
}

#[test]
fn a_stop_is_announced_and_signalled() {
    for control in [1, 5] {
        let mut life = Lifecycle { registered: true, state: STATE_RUNNING, stop_requested: false };
        let c = life.control_handler(control);
        assert_eq!(c.answer, 0);
        assert!(c.signal_stop && life.stop_requested);
        let status = c.report.unwrap();
        assert_eq!((status.state, status.checkpoint, status.wait_hint), (3, 1, 15_000));
        assert_eq!(status.controls_accepted, 0);
        assert_eq!(life.state, STATE_STOP_PENDING);
    }
}

#[test]
fn other_controls_change_nothing() {
    let mut life = Lifecycle { registered: true, state: STATE_RUNNING, stop_requested: false };
    let c = life.control_handler(4);
    assert_eq!((c.answer, c.signal_stop), (0, false));
    assert_eq!(c.report.unwrap().state, STATE_RUNNING);
    let c = life.control_handler(2);
    assert_eq!(c.answer, 120);
    assert!(c.report.is_none() && !life.stop_requested);
}

#[test]
fn checkpoints_rise_while_stopping() {
    let mut supervisor = Supervisor::new();
    assert_eq!(supervisor.tick(false), None);
    assert_eq!(supervisor.tick(true), Some(3));
    assert_eq!(supervisor.tick(true), Some(4));
    supervisor.checkpoint = u32::MAX;
    assert_eq!(supervisor.tick(true), Some(u32::MAX));
}

#[test]
fn a_service_comes_up_in_order() {
    assert_eq!(shown(starting()), vec!["report 2 1 10000"]);
    let loaded = Loaded { config: Config::default(), path: String::from("D:\\pppoe.toml") };
    assert_eq!(
        shown(configured(&Ok(loaded))),
        vec!["Info: configuration loaded from D:\\pppoe.toml", "configured logger"]
    );
    assert_eq!(
        shown(running("D:\\", "summary")),
        vec![
            "Info: service starting, executable dir = D:\\",
            "Info: effective configuration: summary",
            "Info: credentials are never written to the log (user name and password are masked)",
            "report 4 0 0",
            "Info 1002: PPPoE dialer service started",
        ]
    );
}

#[test]
fn a_broken_configuration_is_reported_and_ends_the_service() {
    assert_eq!(
        shown(configured(&Err(err("dial.username must not be empty")))),
        vec![
            "default logger",
            "Error: configuration error: dial.username must not be empty",
            "Error 1000: the service cannot start: dial.username must not be empty",
            "shut down",
            "report 1 0 0",
        ]
    );
    assert_eq!(
        shown(failed(&err("x"))),
        vec!["Error: service stopped with an error: x", "report 1 0 0"]
    );
    assert_eq!(STATE_STOPPED, 1);
}

#[test]
fn every_end_of_the_worker_stops_the_service() {
    let tail = vec![
        "Info: service stopped; the broadband connection was left online by design",
        "Info 1002: PPPoE dialer service stopped",
        "report 1 0 0",
        "shut down",
    ];
    assert_eq!(shown(finished(&WorkerEnd::Stopped)), tail);
    let shown_failure = shown(finished(&WorkerEnd::Failed(err("x"))));
    assert_eq!(shown_failure[0], "Error: worker terminated with an error: x");
    assert_eq!(shown_failure[1..], tail);
    let shown_panic = shown(finished(&WorkerEnd::Panicked));
    assert_eq!(shown_panic[0], "Error: the worker thread panicked");
    assert_eq!(shown_panic[1..], tail);
}

#[test]
fn the_foreground_leaves_the_event_log_alone() {
    let mut config = Config::default();
    config.log.level = String::from("debug");
    config.log.rotation = String::from("never");
    config.dial.username = String::from("account-9");
    config.dial.password = String::from("secret-9");
    let secrets = config.secrets();
    let service = logger_settings(&config, "D:\\logs", &secrets, false);
    assert!(service.event_log && !service.console);
    assert_eq!((service.dir, service.file_name), ("D:\\logs", "pppoe.log"));
    assert_eq!((service.level, service.rotation), (Level::Debug, Rotation::Never));
    assert_eq!((service.max_files, service.source_name), (14, "PppoeDialer"));
    let console = logger_settings(&config, "D:\\logs", &secrets, true);
    assert!(!console.event_log && console.console);
    let logger = init(&console);
    assert_eq!(logger.redact("account-9:secret-9").0, "***:***");
}

#[test]
fn missing_arguments_are_skipped() {
    let wide = |s: &str| Some(s.encode_utf16().collect::<Vec<u16>>());
    let args = collect_args(&[wide("PppoeDialer"), None, wide("--config=ü.toml")]);
    assert_eq!(args, vec!["PppoeDialer", "--config=ü.toml"]);
    assert!(collect_args(&[]).is_empty());
}
