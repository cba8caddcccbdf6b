use pppoe::logger::{
    enabled, event, file_line, init, is_initialized, now, prune, prunes_at_start, Level, LocalTime,
    LogFile, Logger, Output, Rotation, Settings, Sink,
};

/// `EVENTLOG_ERROR_TYPE`.
const ERROR_TYPE: u16 = 1;
/// `EVENTLOG_WARNING_TYPE`.
const WARNING_TYPE: u16 = 2;
/// `EVENTLOG_INFORMATION_TYPE`.
const INFORMATION_TYPE: u16 = 4;

fn settings<'a>(secrets: &'a [String]) -> Settings<'a> {
    Settings {
        level: Level::Trace,
        dir: "",
        file_name: "pppoe.log",
        rotation: Rotation::Never,
        max_files: 14,
        console: false,
        event_log: false,
        source_name: "PppoeDialer",
        secrets,
    }
}

fn test_logger(secrets: &[String]) -> Logger {
    init(&settings(secrets))
}

fn moment() -> LocalTime {
    LocalTime { year: 2026, month: 9, day: 5, hour: 7, minute: 8, second: 9, milliseconds: 42 }
}

fn file(slot: usize, name: &str, modified: i128) -> LogFile {
    LogFile { slot, name: name.to_string(), modified }
}

#[test]
fn level_order_is_significant() {
    assert!(Level::Error < Level::Warn);
    assert!(Level::Warn < Level::Info);
    assert!(Level::Info < Level::Debug);
    assert!(Level::Debug < Level::Trace);
    assert_eq!(Level::parse("WARN"), Some(Level::Warn));
    assert_eq!(Level::parse(" info "), Some(Level::Info));
    assert_eq!(Level::parse("verbose"), None);
}

#[test]
fn rotation_parsing() {
    assert_eq!(Rotation::parse("daily"), Some(Rotation::Daily));
    assert_eq!(Rotation::parse("NEVER"), Some(Rotation::Never));
    assert_eq!(Rotation::parse("hourly"), None);
}

#[test]
fn credentials_are_masked() {
    let secrets = vec![String::from("12345678"), String::from("87654321")];
    let logger = test_logger(&secrets);
    let (text, leaked) = logger.redact("dial user=12345678 pass=87654321 entry=Dr.com");
    assert!(leaked);
    assert!(!text.contains("12345678"));
    assert!(!text.contains("87654321"));
    assert!(text.contains("***"));
    assert!(text.contains("Dr.com"));
}

#[test]
fn short_secrets_are_ignored() {
    let secrets = vec![String::from("ab")];
    let logger = test_logger(&secrets);
    let (text, leaked) = logger.redact("no change expected");
    assert!(!leaked);
    assert_eq!(text, "no change expected");
}

#[test]
fn timestamp_shape() {
    let (stamp, day) = now(&moment());
    assert_eq!(stamp.len(), 23, "unexpected timestamp: {stamp}");
    assert_eq!(day.len(), 10);
    assert_eq!(&stamp[..10], day.as_str());
    assert_eq!(stamp, "2026-09-05 07:08:09.042");
}

#[test]
fn prune_keeps_the_newest_files_only() {
    let mut files = Vec::new();
    for index in 0..5usize {
        let name = format!("pppoe.log.2026-09-{:02}", index + 1);
        files.push(file(index, &name, 30 * index as i128));
    }
    files.push(file(5, "keep-me.txt", 150));

    let removed = prune(&files, "pppoe.log", 2);

    let mut left: Vec<String> = files
        .iter()
        .filter(|f| removed.iter().all(|r| r.slot != f.slot))
        .map(|f| f.name.clone())
        .collect();
    left.sort();
    assert_eq!(left, vec!["keep-me.txt", "pppoe.log.2026-09-04", "pppoe.log.2026-09-05"]);
}

#[test]
fn pruning_goes_by_time_not_by_order() {
    let files = vec![file(0, "pppoe.log.a", 5), file(1, "pppoe.log.b", -7), file(2, "pppoe.log.c", 5)];
    let removed = prune(&files, "pppoe.log", 1);
    assert_eq!(removed.iter().map(|f| f.slot).collect::<Vec<_>>(), vec![2, 1]);
    assert!(prune(&files, "pppoe.log", 3).is_empty());
    assert_eq!(prune(&files, "pppoe.log", 0).len(), 3);
    assert!(prune(&files, "other", 0).is_empty());
}

#[test]
fn levels_have_labels_and_event_ids() {
    let all = [
        (Level::Error, "ERROR", 1000, ERROR_TYPE),
        (Level::Warn, "WARN ", 1001, WARNING_TYPE),
        (Level::Info, "INFO ", 1002, INFORMATION_TYPE),
        (Level::Debug, "DEBUG", 1003, INFORMATION_TYPE),
        (Level::Trace, "TRACE", 1004, INFORMATION_TYPE),
    ];
    for (level, label, id, kind) in all {
        assert_eq!(level.label(), label);
        assert_eq!(level.event_id(), id);
        assert_eq!(level.event_type(), kind);
        assert_eq!(level.name(), format!("{level:?}"));
    }
    assert_eq!(Level::parse("warning"), Some(Level::Warn));
}

#[test]
fn masking_is_exact() {
    let logger = test_logger(&[String::from("abab"), String::from("secret")]);
    assert_eq!(logger.redact("ababab secretsecret"), (String::from("***ab ******"), true));
    assert_eq!(logger.redact("aba secre"), (String::from("aba secre"), false));
}

#[test]
fn a_masked_record_goes_to_every_sink_clean() {
    let secrets = vec![String::from("secret-9")];
    let mut s = settings(&secrets);
    s.console = true;
    s.event_log = true;
    s.level = Level::Info;
    let logger = init(&s);
    match pppoe::logger::write(Some(&logger), Level::Warn, "pppoe::worker", "user secret-9 failed", &moment()) {
        Output::Record(e) => {
            assert_eq!(e.day, "2026-09-05");
            assert_eq!(e.line, "2026-09-05 07:08:09.042 WARN  pppoe::worker: user *** failed");
            assert!(e.console);
            let v = e.event.unwrap();
            assert_eq!((v.event_type, v.event_id), (2, 1001));
            assert_eq!(v.text, "user *** failed");
            assert_eq!(
                e.warning.unwrap(),
                "2026-09-05 07:08:09.042 WARN  pppoe::logger: \
                 a credential was found in a log record and masked"
            );
        }
        _ => panic!("the record must be written"),
    }
    match event(Some(&logger), Level::Info, 2000, "pppoe", "stopped", &moment()) {
        Output::Record(e) => {
            assert!(e.warning.is_none());
            let v = e.event.unwrap();
            assert_eq!((v.event_type, v.event_id), (4, 2000));
        }
        _ => panic!("the record must be written"),
    }
    assert!(matches!(
        pppoe::logger::write(Some(&logger), Level::Debug, "pppoe", "x", &moment()),
        Output::Dropped
    ));
}

#[test]
fn debug_records_stay_out_of_the_event_log() {
    let mut s = settings(&[]);
    s.event_log = true;
    let logger = init(&s);
    match pppoe::logger::write(Some(&logger), Level::Debug, "pppoe", "x", &moment()) {
        Output::Record(e) => assert!(e.event.is_none() && !e.console),
        _ => panic!("the record must be written"),
    }
}

#[test]
fn early_records_go_to_stderr() {
    assert!(!is_initialized(None));
    assert!(enabled(None, Level::Info));
    assert!(!enabled(None, Level::Debug));
    match pppoe::logger::write(None, Level::Error, "pppoe", "broken", &moment()) {
        Output::Stderr(line) => assert_eq!(line, "Error pppoe: broken"),
        _ => panic!("the record must go to stderr"),
    }
    let logger = test_logger(&[]);
    assert!(is_initialized(Some(&logger)));
    assert!(enabled(Some(&logger), Level::Trace));
}

#[test]
fn files_rotate_daily_and_enforce_the_limit() {
    let mut s = settings(&[]);
    s.rotation = Rotation::Daily;
    let mut sink = Sink::new(&s);
    let plan = sink.prepare("2026-09-15");
    assert!(plan.prune);
    assert_eq!(plan.open.as_deref(), Some("pppoe.log.2026-09-15"));
    assert!(sink.opened("2026-09-15", false));
    assert!(!sink.writable());
    assert!(!sink.opened("2026-09-15", false));
    assert!(!sink.opened("2026-09-15", true));
    assert!(sink.writable());
    let plan = sink.prepare("2026-09-15");
    assert!(!plan.close && !plan.prune && plan.open.is_none());
    let plan = sink.prepare("2026-09-16");
    assert!(plan.close && plan.prune);
    assert_eq!(plan.open.as_deref(), Some("pppoe.log.2026-09-16"));
    s.max_files = 0;
    assert!(!Sink::new(&s).prepare("2026-09-15").prune);
    assert_eq!(file_line("x"), "x\r\n");
}

/// Daily files with the given days as their age, and a file that is not ours.
fn daily(days: &[usize]) -> Vec<LogFile> {
    let mut files: Vec<LogFile> = days
        .iter()
        .map(|day| file(*day, &format!("pppoe.log.2026-09-{day:02}"), *day as i128))
        .collect();
    files.push(file(99, "keep-me.txt", 0));
    files
}

fn daily_sink(max_files: usize) -> Sink {
    let mut s = settings(&[]);
    s.rotation = Rotation::Daily;
    s.max_files = max_files;
    Sink::new(&s)
}

/// Slots of the files that are left.
fn left_over(files: &[LogFile], removed: &[LogFile]) -> Vec<usize> {
    let stays = |f: &&LogFile| removed.iter().all(|r| r.slot != f.slot);
    files.iter().filter(stays).map(|f| f.slot).collect()
}

#[test]
fn a_rotation_leaves_the_newest_files() {
    let mut sink = daily_sink(3);
    sink.prepare("2026-09-04");
    sink.opened("2026-09-04", true);
    let plan = sink.prepare("2026-09-05");
    assert!(plan.prune);
    sink.opened("2026-09-05", true);
    let files = daily(&[1, 2, 3, 4, 5]);
    let removed = sink.overdue(&files, plan.open.as_deref());
    assert_eq!(left_over(&files, &removed), vec![3, 4, 5, 99]);
    let few = daily(&[4, 5]);
    assert!(sink.overdue(&few, plan.open.as_deref()).is_empty());
}

#[test]
fn a_file_that_was_there_is_kept_when_opened() {
    // The oldest file is opened again: it is one of the files to keep.
    let sink = daily_sink(3);
    let files = daily(&[1, 2, 3, 4]);
    let removed = sink.overdue(&files, Some("pppoe.log.2026-09-01"));
    assert_eq!(left_over(&files, &removed), vec![1, 3, 4, 99]);
    let three = daily(&[2, 3, 4]);
    assert!(sink.overdue(&three, Some("pppoe.log.2026-09-04")).is_empty());
    let single = daily_sink(1);
    let removed = single.overdue(&three, Some("pppoe.log.2026-09-04"));
    assert_eq!(left_over(&three, &removed), vec![4, 99]);
}

#[test]
fn a_failed_opening_leaves_the_limit_too() {
    let sink = daily_sink(3);
    let files = daily(&[1, 2, 3, 4]);
    assert_eq!(left_over(&files, &sink.overdue(&files, None)), vec![2, 3, 4, 99]);
    let single = daily_sink(1);
    assert_eq!(left_over(&files, &single.overdue(&files, None)), vec![4, 99]);
    let unlimited = daily_sink(0);
    assert!(unlimited.overdue(&files, None).is_empty());
    assert!(unlimited.overdue(&files, Some("pppoe.log.2026-09-04")).is_empty());
}

#[test]
fn a_single_file_never_rotates() {
    let mut sink = Sink::new(&settings(&[]));
    let plan = sink.prepare("2026-09-15");
    assert!(plan.prune);
    assert_eq!(plan.open.as_deref(), Some("pppoe.log"));
    sink.opened("2026-09-15", true);
    let plan = sink.prepare("2026-09-16");
    assert!(!plan.close && !plan.prune && plan.open.is_none());
    assert!(prunes_at_start(true, 1));
    assert!(!prunes_at_start(false, 1));
    assert!(!prunes_at_start(true, 0));
}
