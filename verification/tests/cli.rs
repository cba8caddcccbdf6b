use pppoe::cli::{
    conclude, console_greeting, dispatch, keeps_connection, load_config, parse_command, print_help,
    run_list_adapters, run_list_connections, unknown_command, version_line, Command,
};
use pppoe::config::Config;
use pppoe::error::err;
use pppoe::link::{AdapterInfo, MediaState};
use pppoe::ras::ConnectionInfo;

fn args(list: &[&str]) -> Vec<String> {
    list.iter().map(|s| s.to_string()).collect()
}

#[test]
fn the_command_is_the_first_token_that_is_no_option() {
    assert_eq!(parse_command(&args(&[])), None);
    assert_eq!(parse_command(&args(&["--config"])), None);
    assert_eq!(parse_command(&args(&["--config", "a.toml"])), None);
    assert_eq!(
        parse_command(&args(&["--config", "a.toml", "--config=b", "console", "stop"])),
        Some(String::from("console"))
    );
    assert_eq!(parse_command(&args(&["--keep"])), None);
    assert_eq!(
        parse_command(&args(&["--config", "a.toml", "--keep", "dial-once"])),
        Some(String::from("dial-once"))
    );
    assert_eq!(parse_command(&args(&["--keep", "-V", "stop"])), Some(String::from("-V")));
    assert_eq!(parse_command(&args(&["-", "-x", "-h"])), Some(String::from("-h")));
}

#[test]
fn every_command_is_known() {
    let all = [
        ("install", Command::Install),
        ("uninstall", Command::Uninstall),
        ("start", Command::Start),
        ("stop", Command::Stop),
        ("query", Command::Query),
        ("console", Command::Console),
        ("dial-once", Command::DialOnce),
        ("list-connections", Command::ListConnections),
        ("list-adapters", Command::ListAdapters),
        ("help", Command::Help),
        ("--help", Command::Help),
        ("-h", Command::Help),
        ("version", Command::Version),
        ("--version", Command::Version),
        ("-V", Command::Version),
        ("reboot", Command::Unknown(String::from("reboot"))),
    ];
    for (name, command) in all {
        assert_eq!(dispatch(&args(&["--config", "x", name])), command);
    }
    assert_eq!(dispatch(&args(&[])), Command::Service);
    assert_eq!(dispatch(&args(&["--keep", "dial-once"])), Command::DialOnce);
    assert_eq!(unknown_command("reboot").message(), "unknown command \"reboot\"");
}

#[test]
fn a_broken_file_cannot_make_the_service_unremovable() {
    for command in [
        Command::Uninstall,
        Command::Start,
        Command::Stop,
        Command::Query,
        Command::ListConnections,
    ] {
        let config = match load_config(&command, Err(err("broken"))) {
            Ok(config) => config,
            Err(_) => panic!("the defaults must do"),
        };
        assert_eq!(config.service.name, "PppoeDialer");
    }
    for command in [Command::Install, Command::Console, Command::DialOnce] {
        match load_config(&command, Err(err("broken"))) {
            Ok(_) => panic!("the configuration is needed"),
            Err(e) => assert_eq!(e.message(), "broken"),
        }
    }
    let mut config = Config::default();
    config.dial.entry_name = String::from("x");
    match load_config(&Command::Stop, Ok(config)) {
        Ok(config) => assert_eq!(config.dial.entry_name, "x"),
        Err(_) => panic!("the configuration is there"),
    }
}

#[test]
fn the_keep_option_is_found_anywhere() {
    assert!(keeps_connection(&args(&["dial-once", "--keep"])));
    assert!(!keeps_connection(&args(&["dial-once", "keep"])));
}

#[test]
fn the_exit_code_tells_the_outcome() {
    let exit = conclude(&Ok(()), true);
    assert!(exit.code == 0 && exit.record.is_none() && exit.line.is_none());
    let exit = conclude(&Err(err("x")), true);
    assert_eq!(exit.code, 1);
    assert_eq!(exit.record.unwrap().text, "command failed: x");
    assert_eq!(exit.line.unwrap(), "error: x");
    assert!(conclude(&Err(err("x")), false).line.is_none());
}

#[test]
fn connections_are_tabulated() {
    assert_eq!(
        run_list_connections(&[]),
        vec!["no RAS connections are currently registered"]
    );
    let info = ConnectionInfo {
        entry: String::from("Dr.COM"),
        state: 8192,
        connected: true,
        device: String::from("WAN Miniport (PPPOE) with a long name"),
    };
    let lines = run_list_connections(&[info]);
    assert_eq!(
        lines[0],
        format!("{:<24} {:>10}  {:<22} connected", "entry", "state", "device")
    );
    assert_eq!(
        lines[1],
        format!(
            "{:<24} {:>10}  {:<22} {}",
            "Dr.COM", 8192, "WAN Miniport (PPPOE) with a long name", true
        )
    );
}

#[test]
fn adapters_are_tabulated() {
    assert_eq!(run_list_adapters(&[]), vec!["no network interfaces reported by GetIfTable2"]);
    let adapter = AdapterInfo {
        alias: String::from("Eth"),
        description: String::from("NIC"),
        if_type: 71,
        oper_up: false,
        media: MediaState::Disconnected,
        hardware: true,
        is_filter: false,
        connector_present: true,
    };
    let mut wired = adapter.clone();
    wired.if_type = 6;
    wired.media = MediaState::Unknown;
    let lines = run_list_adapters(&[adapter, wired]);
    assert_eq!(
        lines[0],
        format!(
            "{:>5}  {:<8}  {:<8}  {:<7}  {:<7}  {:<10}  alias | description",
            "type", "ethernet", "media", "oper_up", "hw", "filter"
        )
    );
    assert_eq!(
        lines[1],
        format!(
            "{:>5}  {:<8}  {:<8}  {:<7}  {:<7}  {:<10}  Eth | NIC",
            71, "no", "Disconnected", false, true, false
        )
    );
    assert_eq!(
        lines[2],
        format!(
            "{:>5}  {:<8}  {:<8}  {:<7}  {:<7}  {:<10}  Eth | NIC",
            6, "yes", "Unknown", false, true, false
        )
    );
    assert_eq!(lines.len(), 3 + 11);
    assert_eq!(lines[13], "substring of the alias or description above.");
}

#[test]
fn the_help_and_the_version_are_shown() {
    let lines = print_help();
    assert_eq!(lines.len(), 24);
    assert_eq!(lines[0], "pppoe 0.1.2 - PPPoE auto dialer service");
    assert_eq!(lines[2], "usage: pppoe.exe [command] [--config <path>]");
    assert_eq!(version_line(), "pppoe 0.1.2");
    assert_eq!(console_greeting(), "pppoe 0.1.2 console mode - press Ctrl+C to stop");
}
