use pppoe::config::Config;
use pppoe::error::{err, Error};
use pppoe::ras::to_wide;
use pppoe::svc_install::{
    event_source_key, install, install_request, message_file_value, not_created, open_scm,
    open_service, query, recovery_plan, register_event_source, remove_event_source, service_name,
    set_description, set_recovery, start, state_name, stop, stop_step, types_value, uninstall,
    wide_as_bytes, win32_code, ServiceState, SourceStep, StopStep, SystemError,
};

/// `SERVICE_STOPPED`.
const STOPPED: u32 = 1;

fn win32(code: u32) -> SystemError {
    SystemError { hresult: (0x8007_0000u32 | code) as i32, text: format!("error {code}") }
}

#[test]
fn event_source_key_uses_the_service_name() {
    assert_eq!(
        event_source_key("PppoeDialer"),
        "SYSTEM\\CurrentControlSet\\Services\\EventLog\\Application\\PppoeDialer"
    );
}

#[test]
fn state_names_are_stable() {
    assert_eq!(state_name(STOPPED), "STOPPED");
    assert_eq!(state_name(4), "RUNNING");
    assert_eq!(state_name(0xFFFF), "UNKNOWN");
}

#[test]
fn service_name_must_match_the_binary() {
    let mut config = Config::default();
    assert!(service_name(&config).is_ok());
    config.service.name = String::from("SomethingElse");
    assert!(service_name(&config).is_err());
}

#[test]
fn wide_bytes_are_two_bytes_per_unit() {
    let wide = to_wide("ab");
    assert_eq!(wide_as_bytes(&wide).len(), 6);
    assert_eq!(wide_as_bytes(&[0x1234, 0x00FF]), vec![0x34, 0x12, 0xFF, 0x00]);
}

#[test]
fn a_foreign_name_is_explained() {
    let mut config = Config::default();
    config.service.name = String::from(" PppoeDialer ");
    assert_eq!(service_name(&config).unwrap(), "PppoeDialer");
    config.service.name = String::from("X");
    assert_eq!(
        service_name(&config).unwrap_err().message(),
        "[service] name = \"X\" does not match the built-in service name \"PppoeDialer\"; \
         fix the configuration file (or rebuild the binary)"
    );
}

#[test]
fn win32_codes_are_unwrapped() {
    assert_eq!(win32_code(0x8007_0431u32 as i32), 1073);
    assert_eq!(win32_code(0x8008_0431u32 as i32), 0x8008_0431);
    assert_eq!(win32_code(5), 5);
    assert_eq!(win32_code(-1), u32::MAX);
}

#[test]
fn failures_to_reach_the_manager_are_explained() {
    assert_eq!(
        open_scm(&win32(5)).message(),
        "OpenSCManagerW failed: error 5 - this command needs administrator rights"
    );
    assert_eq!(
        open_service("S", &win32(1060)).message(),
        "the service \"S\" is not installed - run 'install' first"
    );
    assert_eq!(open_service("S", &win32(5)).message(), "OpenServiceW failed: error 5");
    assert_eq!(
        not_created("S", &win32(1073)).message(),
        "the service \"S\" already exists - run 'uninstall' first"
    );
    assert_eq!(
        not_created("S", &win32(5)).message(),
        "CreateServiceW failed: error 5 (this command needs administrator rights)"
    );
}

#[test]
fn the_service_starts_automatically_behind_ras() {
    let request = install_request("PppoeDialer", &Config::default(), "D:\\pppoe.exe");
    assert_eq!(request.name, to_wide("PppoeDialer"));
    assert_eq!(request.display_name, to_wide("PPPoE Auto Dialer"));
    assert_eq!(request.binary, to_wide("D:\\pppoe.exe"));
    assert_eq!(&request.dependencies[6..], &[0, 0]);
    assert_eq!((request.service_type, request.start_type, request.error_control), (16, 2, 1));
    let plan = recovery_plan();
    assert_eq!((plan.reset_secs, plan.delays_ms), (86_400, vec![5_000, 10_000, 30_000]));
}

#[test]
fn cosmetic_failures_do_not_abort_the_installation() {
    let report = install(
        "S",
        "D:\\p\\pppoe.exe",
        "D:\\p\\pppoe.toml",
        Ok(String::from("D:\\p\\logs")),
        &Ok(()),
        &set_recovery(&Err(win32(5))),
        &Err(err("no key")),
    );
    assert!(report.outcome.is_ok());
    assert_eq!(
        report.lines,
        vec![
            "service \"S\" installed with automatic start",
            "  binary : D:\\p\\pppoe.exe",
            "  config : D:\\p\\pppoe.toml",
            "  logs   : D:\\p\\logs",
            "warnings (the service runs, but these should be fixed):",
            "  - recovery actions: ChangeServiceConfig2W(recovery) failed: error 5",
            "  - event log source: no key",
            "",
            "next steps:",
            "  1. edit D:\\p\\pppoe.toml and fill in the connection details",
            "  2. restrict its permissions:",
            "       icacls pppoe.toml /inheritance:r /grant:r \"BUILTIN\\Administrators:F\" \
             \"NT AUTHORITY\\SYSTEM:F\"",
            "  3. start it: sc.exe start S",
        ]
    );
    assert_eq!(
        set_description(&Err(win32(5))).unwrap_err().message(),
        "ChangeServiceConfig2W(description) failed: error 5"
    );
    assert!(set_description(&Ok(())).is_ok() && set_recovery(&Ok(())).is_ok());
}

#[test]
fn an_unknown_log_directory_cuts_the_report_short() {
    let report = install("S", "e", "c", Err(err("log.dir must not be empty")), &Ok(()), &Ok(()), &Ok(()));
    assert_eq!(report.lines.len(), 3);
    assert_eq!(report.outcome.unwrap_err().message(), "log.dir must not be empty");
    let clean = install("S", "e", "c", Ok(String::from("l")), &Ok(()), &Ok(()), &Ok(()));
    assert_eq!(clean.lines.len(), 10);
}

#[test]
fn the_event_source_is_registered_step_by_step() {
    let mut setup = register_event_source();
    let mut steps = vec![];
    while setup.step != SourceStep::Over {
        steps.push(setup.step);
        setup.advance(0);
    }
    assert_eq!(
        steps,
        vec![
            SourceStep::CreateKey,
            SourceStep::WriteMessageFile,
            SourceStep::WriteTypes,
            SourceStep::CloseKey,
        ]
    );
    assert!(setup.result.is_ok());
    assert_eq!(types_value(), 7u32.to_le_bytes());
    let value = message_file_value();
    assert_eq!(&value[..4], &[0x25, 0, 0x53, 0]);
    assert_eq!(value.len(), 2 * "%SystemRoot%\\System32\\EventCreate.exe\0".len());
}

#[test]
fn an_opened_key_is_closed_after_a_failure() {
    let fails_at = |at: usize| -> (Vec<SourceStep>, String) {
        let mut setup = register_event_source();
        let mut steps = vec![];
        while setup.step != SourceStep::Over {
            steps.push(setup.step);
            setup.advance(if steps.len() == at { 5 } else { 0 });
        }
        (steps, setup.result.unwrap_err().message())
    };
    let (steps, text) = fails_at(1);
    assert_eq!(steps.len(), 1);
    assert_eq!(text, "RegCreateKeyExW failed with error code 5");
    let (steps, text) = fails_at(2);
    assert_eq!(steps.last(), Some(&SourceStep::CloseKey));
    assert_eq!(text, "RegSetValueExW(EventMessageFile) failed with error code 5");
    let (steps, text) = fails_at(3);
    assert_eq!(steps.last(), Some(&SourceStep::CloseKey));
    assert_eq!(text, "RegSetValueExW(TypesSupported) failed with error code 5");
}

#[test]
fn a_stopping_service_is_given_the_time_of_a_dial() {
    let config = Config::default();
    let second: u128 = 1_000_000_000;
    assert_eq!(stop_step(&config, 1, 0), StopStep::Stopped);
    assert_eq!(stop_step(&config, 1, 999 * second), StopStep::Stopped);
    assert_eq!(stop_step(&config, 3, 110 * second - 1), StopStep::Wait);
    assert_eq!(stop_step(&config, 3, 110 * second), StopStep::Overdue);
}

#[test]
fn the_removal_is_reported() {
    let lines = uninstall("S", &Ok(()), &Ok(())).unwrap();
    assert_eq!(
        lines,
        vec![
            "service \"S\" removed",
            "note: the broadband connection was left online; hang it up manually if needed",
        ]
    );
    let lines = uninstall("S", &Ok(()), &remove_event_source(2)).unwrap();
    assert_eq!(
        lines[0],
        "warning: could not remove the event log source: RegDeleteKeyW failed with error code 2"
    );
    let missing: Result<(), SystemError> = Err(win32(1060));
    assert_eq!(
        uninstall("S", &missing, &Ok(())).unwrap_err().message(),
        "the service \"S\" is not installed"
    );
    let denied: Result<(), SystemError> = Err(win32(5));
    assert_eq!(
        uninstall("S", &denied, &Ok(())).unwrap_err().message(),
        "DeleteServiceW failed: error 5"
    );
    assert!(remove_event_source(0).is_ok());
}

#[test]
fn starting_and_stopping_are_reported() {
    let told = |r: Result<String, Error>| match r {
        Ok(line) => line,
        Err(e) => format!("! {}", e.message()),
    };
    assert_eq!(told(start("S", &Ok(()))), "service \"S\": start requested");
    assert_eq!(told(start("S", &Err(win32(1056)))), "service \"S\" is already running");
    assert_eq!(told(start("S", &Err(win32(5)))), "! StartServiceW failed: error 5");
    assert_eq!(
        told(stop("S", &Ok(()))),
        "service \"S\": stop requested (the connection is kept online)"
    );
    assert_eq!(told(stop("S", &Err(win32(1062)))), "service \"S\" is not running");
    assert_eq!(told(stop("S", &Err(win32(5)))), "! ControlService(STOP) failed: error 5");
    let state = ServiceState { state: 4, process_id: 4711, controls_accepted: 0x1F };
    assert_eq!(
        told(query("S", Ok(state))),
        "service \"S\": state=RUNNING process_id=4711 controls_accepted=0x1f"
    );
    assert_eq!(told(query("S", Err(win32(5)))), "! QueryServiceStatusEx failed: error 5");
}
