use pppoe::config::{
    accept, config_arg, decode, file_text, locate_log_dir, utf16_to_string, Config, Location,
    DEFAULT_FILE_NAME,
};
use pppoe::error::Error;
use pppoe::logger::{Level, Rotation};

const MINIMAL: &str = r#"
[dial]
entry_name = "Dr.com"
username = "account-9"
password = "secret-9"
"#;

fn text(table: &toml::Table, key: &str, field: &mut String) {
    if let Some(toml::Value::String(s)) = table.get(key) {
        *field = s.clone();
    }
}

fn number(table: &toml::Table, key: &str, field: &mut u64) {
    if let Some(toml::Value::Integer(n)) = table.get(key) {
        *field = *n as u64;
    }
}

/// The configuration that a TOML text describes; what it leaves out has its
/// default.
fn parse(source: &str) -> Config {
    let root: toml::Table = source.parse().unwrap();
    let mut config = Config::default();
    if let Some(toml::Value::Table(dial)) = root.get("dial") {
        text(dial, "entry_name", &mut config.dial.entry_name);
        text(dial, "username", &mut config.dial.username);
        text(dial, "password", &mut config.dial.password);
        text(dial, "domain", &mut config.dial.domain);
        number(dial, "dial_timeout_secs", &mut config.dial.dial_timeout_secs);
    }
    if let Some(toml::Value::Table(log)) = root.get("log") {
        text(log, "level", &mut config.log.level);
        text(log, "rotation", &mut config.log.rotation);
        text(log, "dir", &mut config.log.dir);
    }
    if let Some(toml::Value::Table(monitor)) = root.get("monitor") {
        number(monitor, "safety_recheck_secs", &mut config.monitor.safety_recheck_secs);
        number(monitor, "reconnect_delay_secs", &mut config.monitor.reconnect_delay_secs);
        number(monitor, "max_backoff_secs", &mut config.monitor.max_backoff_secs);
        number(monitor, "event_debounce_ms", &mut config.monitor.event_debounce_ms);
    }
    if let Some(toml::Value::Table(link)) = root.get("link_check") {
        if let Some(toml::Value::Array(list)) = link.get("interface_types") {
            config.link_check.interface_types =
                list.iter().map(|v| v.as_str().unwrap().to_string()).collect();
        }
    }
    config
}

fn complaint(config: &Config) -> String {
    match config.validate() {
        Ok(()) => String::new(),
        Err(e) => e.message(),
    }
}

#[test]
fn defaults_are_applied() {
    let config = parse(MINIMAL);
    assert_eq!(config.service.name, "PppoeDialer");
    assert_eq!(config.monitor.reconnect_delay_secs, 5);
    assert_eq!(config.monitor.safety_recheck_secs, 0);
    assert_eq!(config.link_check.interface_types, vec!["ethernet"]);
    assert!(config.link_check.enabled);
    assert_eq!(config.log.rotation, "daily");
    assert!(config.dial.create_entry_if_missing);
    assert!(config.validate().is_ok());
}

#[test]
fn summary_and_secrets() {
    let config = parse(MINIMAL);
    let summary = config.summary();
    assert!(!summary.contains("account-9"));
    assert!(!summary.contains("secret-9"));
    assert!(summary.contains("***"));
    assert!(summary.contains("Dr.com"));
    assert_eq!(config.secrets().len(), 2);
}

#[test]
fn missing_credentials_are_rejected() {
    let config = parse("[dial]\nentry_name = \"x\"\n");
    match config.validate() {
        Ok(()) => panic!("validate() must reject a missing username"),
        Err(e) => assert!(e.message().contains("dial.username")),
    }
}

#[test]
fn bad_enums_are_rejected() {
    let source = format!("{MINIMAL}\n[log]\nlevel = \"loud\"\n");
    assert!(parse(&source).validate().is_err());

    let source = format!("{MINIMAL}\n[log]\nrotation = \"hourly\"\n");
    assert!(parse(&source).validate().is_err());
}

#[test]
fn safety_recheck_guard() {
    let source = format!("{MINIMAL}\n[monitor]\nsafety_recheck_secs = 5\n");
    assert!(parse(&source).validate().is_err());

    let source = format!("{MINIMAL}\n[monitor]\nsafety_recheck_secs = 300\n");
    assert!(parse(&source).validate().is_ok());
}

#[test]
fn interface_type_mapping() {
    let config = parse(MINIMAL);
    assert_eq!(config.interface_types().unwrap(), vec![6]);

    let source = format!("{MINIMAL}\n[link_check]\ninterface_types = [\"wi-fi\"]\n");
    assert!(parse(&source).interface_types().is_err());
}

#[test]
fn config_argument_parsing() {
    let args = |list: &[&str]| list.iter().map(|s| s.to_string()).collect::<Vec<_>>();
    assert_eq!(config_arg(&args(&["console"])), None);
    assert_eq!(
        config_arg(&args(&["console", "--config", "a.toml"])),
        Some(String::from("a.toml"))
    );
    assert_eq!(
        config_arg(&args(&["--config=b.toml", "console"])),
        Some(String::from("b.toml"))
    );
    assert_eq!(config_arg(&args(&["--config"])), None);
}

#[test]
fn utf16_files_are_decoded() {
    let mut bytes = vec![0xFF, 0xFE];
    for unit in MINIMAL.encode_utf16() {
        bytes.extend_from_slice(&unit.to_le_bytes());
    }
    let config = parse(&decode(&bytes).unwrap());
    assert_eq!(config.dial.entry_name, "Dr.com");
}

#[test]
fn utf8_bom_is_stripped() {
    let mut bytes = vec![0xEF, 0xBB, 0xBF];
    bytes.extend_from_slice(MINIMAL.as_bytes());
    let decoded = decode(&bytes).unwrap();
    assert_eq!(decoded, MINIMAL);
    assert_eq!(parse(&decoded).dial.username, "account-9");
}

#[test]
fn big_endian_files_and_plain_files_are_decoded() {
    let mut bytes = vec![0xFE, 0xFF];
    for unit in "Zürich 🚲".encode_utf16() {
        bytes.extend_from_slice(&unit.to_be_bytes());
    }
    assert_eq!(decode(&bytes).unwrap(), "Zürich 🚲");
    assert_eq!(decode("Zürich 🚲".as_bytes()).unwrap(), "Zürich 🚲");
    assert_eq!(decode(&[]).unwrap(), "");
}

#[test]
fn an_odd_last_byte_and_lone_surrogates_are_tolerated() {
    assert_eq!(utf16_to_string(&[0x41, 0x00, 0x42], true), "A");
    assert_eq!(utf16_to_string(&[0xD8, 0x00, 0x00, 0x41], false), "\u{FFFD}A");
}

#[test]
fn broken_utf8_is_reported() {
    let e = decode(&[0x61, 0xFF]).unwrap_err();
    let expected = String::from_utf8(vec![0x61, 0xFF]).unwrap_err();
    assert_eq!(e.message(), format!("not valid UTF-8: {expected}"));
    let e = decode(&[0xEF, 0xBB, 0xBF, 0xC3]).unwrap_err();
    let expected = String::from_utf8(vec![0xC3]).unwrap_err();
    assert_eq!(e.message(), format!("not valid UTF-8: {expected}"));
}

#[test]
fn reading_a_file_reports_its_path() {
    let e = file_text("x.toml", &Err(String::from("gone"))).unwrap_err();
    assert_eq!(e.message(), "cannot read configuration file x.toml: gone");
    let e = file_text("x.toml", &Ok(vec![0xFF])).unwrap_err();
    assert!(e.message().starts_with("cannot decode x.toml: not valid UTF-8: "));
    assert_eq!(file_text("x.toml", &Ok(vec![0x61])).unwrap(), "a");
}

#[test]
fn a_parsed_configuration_is_validated() {
    let loaded = accept(String::from("x.toml"), Ok(parse(MINIMAL))).unwrap();
    assert_eq!(loaded.path, "x.toml");
    assert_eq!(loaded.config.dial.entry_name, "Dr.com");
    match accept(String::from("x.toml"), Err(String::from("expected a table"))) {
        Ok(_) => panic!("a parse error must be reported"),
        Err(e) => assert_eq!(e.message(), "invalid configuration in x.toml: expected a table"),
    }
    match accept(String::from("x.toml"), Ok(Config::default())) {
        Ok(_) => panic!("an incomplete configuration must be rejected"),
        Err(e) => assert_eq!(e.message(), "dial.entry_name must not be empty"),
    }
}

#[test]
fn every_problem_is_named_in_order() {
    let mut config = parse(MINIMAL);
    assert_eq!(complaint(&config), "");
    config.link_check.interface_types = vec![String::from("secret-9")];
    assert_eq!(
        complaint(&config),
        "link_check.interface_types contains an unsupported value (supported: ethernet)"
    );
    config.link_check.interface_types = vec![];
    assert_eq!(complaint(&config), "link_check.interface_types must not be empty");
    config.dial.dial_timeout_secs = 9;
    assert_eq!(complaint(&config), "dial.dial_timeout_secs must be at least 10");
    config.monitor.safety_recheck_secs = 29;
    assert_eq!(
        complaint(&config),
        "monitor.safety_recheck_secs must be 0 (disabled) or at least 30"
    );
    config.monitor.event_debounce_ms = 60_001;
    assert_eq!(complaint(&config), "monitor.event_debounce_ms must not exceed 60000");
    config.monitor.max_backoff_secs = 4;
    assert_eq!(
        complaint(&config),
        "monitor.max_backoff_secs must be >= monitor.reconnect_delay_secs"
    );
    config.monitor.reconnect_delay_secs = 0;
    assert_eq!(complaint(&config), "monitor.reconnect_delay_secs must be at least 1");
    config.log.rotation = String::from("hourly");
    assert_eq!(complaint(&config), "log.rotation must be either 'daily' or 'never'");
    config.log.level = String::from("loud");
    assert_eq!(complaint(&config), "log.level must be one of: error, warn, info, debug, trace");
    config.service.name = String::from("a/b");
    assert_eq!(complaint(&config), "service.name must be a plain name without path separators");
    config.dial.password = String::new();
    assert_eq!(complaint(&config), "dial.password must not be empty");
    config.dial.username = String::from(" \t");
    assert_eq!(complaint(&config), "dial.username must not be empty");
    config.dial.entry_name = String::from("\u{3000}");
    assert_eq!(complaint(&config), "dial.entry_name must not be empty");
}

#[test]
fn a_backslash_is_a_path_separator_too() {
    let mut config = parse(MINIMAL);
    config.service.name = String::from("a\\b");
    assert_eq!(complaint(&config), "service.name must be a plain name without path separators");
}

#[test]
fn interface_types_ignore_case_and_white_space() {
    let mut config = parse(MINIMAL);
    config.link_check.interface_types =
        vec![String::from(" Ethernet "), String::from("ETHERNET")];
    assert_eq!(config.interface_types().unwrap(), vec![6, 6]);
    config.link_check.interface_types.push(String::from(" Wi-Fi"));
    config.link_check.interface_types.push(String::from("other"));
    assert_eq!(
        config.interface_types().unwrap_err().message(),
        "link_check.interface_types contains unsupported value 'wi-fi' (supported: ethernet)"
    );
}

#[test]
fn the_summary_is_exact() {
    let mut config = parse(MINIMAL);
    config.dial.domain = String::from("corp");
    config.link_check.interface_types = vec![String::from("ethernet"), String::from("a\"b")];
    assert_eq!(
        config.summary(),
        "service={ name:\"PppoeDialer\", display:\"PPPoE Auto Dialer\" } \
         dial={ entry:\"Dr.com\", user:\"***\", password:\"***\", pbk:\"\", create_entry:true, \
         timeout:90s, domain:\"***\" } \
         link_check={ enabled:true, adapter:\"\", types:[\"ethernet\", \"a\\\"b\"] } \
         monitor={ reconnect:5s, max_backoff:300s, jitter:3s, debounce:500ms, safety_recheck:0 } \
         log={ dir:\"logs\", level:\"info\", rotation:\"daily\", max_files:14, event_log:true }"
    );
}

#[test]
fn the_summary_does_not_depend_on_the_credentials() {
    let a = parse(MINIMAL);
    let mut b = parse(MINIMAL);
    b.dial.username = String::from("somebody else");
    b.dial.password = String::from("something else");
    assert_eq!(a.summary(), b.summary());
    assert_eq!(b.secrets(), vec!["somebody else", "something else"]);
}

#[test]
fn level_and_rotation_fall_back() {
    let mut config = parse(MINIMAL);
    config.log.level = String::from("TRACE");
    config.log.rotation = String::from(" never");
    assert_eq!(config.level(), Level::Trace);
    assert_eq!(config.rotation(), Rotation::Never);
    config.log.level = String::from("loud");
    config.log.rotation = String::from("hourly");
    assert_eq!(config.level(), Level::Info);
    assert_eq!(config.rotation(), Rotation::Daily);
}

#[test]
fn the_file_lives_next_to_the_executable() {
    assert!(matches!(
        Config::resolve_path(None),
        Location::BesideExe(p) if p == DEFAULT_FILE_NAME && p == "pppoe.toml"
    ));
    assert!(matches!(
        Config::resolve_path(Some("c:/x.toml")),
        Location::Given(p) if p == "c:/x.toml"
    ));
}

#[test]
fn the_log_directory_is_located() {
    let mut config = parse(MINIMAL);
    assert!(matches!(config.log_dir(), Ok(Location::BesideExe(p)) if p == "logs"));
    config.log.dir = String::from(" logs ");
    assert!(matches!(config.log_dir(), Ok(Location::BesideExe(p)) if p == "logs"));
    let absolute = if std::path::Path::new("/var/log").is_absolute() { "/var/log" } else { "C:\\log" };
    config.log.dir = String::from(absolute);
    assert!(matches!(config.log_dir(), Ok(Location::Given(p)) if p == absolute));
    config.log.dir = String::from("  ");
    assert!(matches!(
        config.log_dir(),
        Err(Error::Message(m)) if m == "log.dir must not be empty"
    ));
    assert!(matches!(locate_log_dir(" x", true), Ok(Location::Given(p)) if p == "x"));
    assert!(matches!(locate_log_dir(" x", false), Ok(Location::BesideExe(p)) if p == "x"));
    assert!(locate_log_dir("", true).is_err());
}

#[test]
fn empty_values_for_the_path_are_skipped() {
    let args = |list: &[&str]| list.iter().map(|s| s.to_string()).collect::<Vec<_>>();
    assert_eq!(config_arg(&args(&["--config=", "--config", "c.toml"])), Some(String::from("c.toml")));
    assert_eq!(config_arg(&args(&["--config", "", "--config=d.toml"])), Some(String::from("d.toml")));
    assert_eq!(config_arg(&args(&["--config", "--config=e.toml"])), Some(String::from("--config=e.toml")));
}
