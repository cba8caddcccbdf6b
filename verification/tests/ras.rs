use pppoe::config::{Config, DialConfig};
use pppoe::error::{err, os_err, Error};
use pppoe::link::wide_to_string;
use pppoe::ras::{
    abort_notice, abort_stale_attempts, aborted_count, all_connections, collect, connection_state, copy_to_buf,
    describe_connections, describe_error, dial, dial_request, duration_to_millis, ensure_entry,
    entry_created, error_code, filled_rows, is_connected, is_stale_attempt, list_connections, phone_book,
    register_connection_notification, to_wide, watchdog_fires, ConnectionInfo, Dialed, Enumeration,
    Listed, RasFailure, RasRow, Release, DOMAIN_FIELD, ENTRY_FIELD, ERROR_BUFFER_TOO_SMALL,
    ERROR_CANNOT_FIND_PHONEBOOK_ENTRY, NOTIFY_FLAGS, RELEASE_INTERVAL_MS, STATE_CONNECTED,
    WAIT_TIMEOUT,
};

/// `RASCS_Connected`.
const RASCS_CONNECTED: u32 = 0x2000;

fn connection(entry: &str, connected: bool) -> ConnectionInfo {
    ConnectionInfo {
        entry: String::from(entry),
        device: String::from("WAN Miniport (PPPOE)"),
        state: if connected { RASCS_CONNECTED } else { 0 },
        connected,
    }
}

fn listed(entry: &str, connected: bool, handle: usize) -> Listed {
    Listed { info: connection(entry, connected), handle, readable: true }
}

fn dial_config() -> DialConfig {
    let mut dial = Config::default().dial;
    dial.entry_name = String::from("Dr.COM");
    dial.username = String::from("account-9");
    dial.password = String::from("secret-9");
    dial
}

#[test]
fn wide_conversion_is_nul_terminated() {
    let wide = to_wide("Dr.com");
    assert_eq!(wide.last(), Some(&0));
    assert_eq!(wide.len(), 7);
    assert_eq!(wide_to_string(&wide), "Dr.com");
}

#[test]
fn copy_truncates_and_keeps_nul() {
    let mut dest = [0xFFFFu16; 4];
    copy_to_buf(&mut dest, &to_wide("abcdef"));
    assert_eq!(dest, [0x0061, 0x0062, 0x0063, 0]);
}

#[test]
fn copy_fits_without_touching_the_nul() {
    let mut dest = [0xFFFFu16; 8];
    copy_to_buf(&mut dest, &to_wide("ab"));
    assert_eq!(&dest[..3], &[0x0061, 0x0062, 0]);
    assert_eq!(dest[3], 0xFFFF);
}

#[test]
fn copy_into_an_empty_field_is_a_no_op() {
    let mut dest: [u16; 0] = [];
    copy_to_buf(&mut dest, &to_wide("abc"));
    copy_to_buf(&mut dest, &[]);
}

#[test]
fn error_table_covers_the_important_codes() {
    assert!(!describe_error(691).retryable);
    assert!(!describe_error(623).retryable);
    assert!(describe_error(678).retryable);
    assert!(describe_error(651).retryable);
    assert_eq!(describe_error(691).code, 691);
    assert!(describe_error(9999).retryable);
    for code in [600, 603, 623, 678, 691, 720, 9999] {
        assert!(!describe_error(code).message.is_empty());
    }
}

#[test]
fn timeout_conversion_saturates() {
    assert_eq!(duration_to_millis(std::time::Duration::from_millis(1500).as_millis()), 1500);
    assert_eq!(
        duration_to_millis(std::time::Duration::from_secs(u64::MAX).as_millis()),
        u32::MAX
    );
}

#[test]
fn only_unconnected_connections_of_our_entry_are_stale() {
    let attempt = connection("Dr.COM", false);
    let online = connection("Dr.COM", true);
    let other = connection("SomethingElse", false);

    assert!(is_stale_attempt(&attempt, "Dr.COM"));
    assert!(is_stale_attempt(&attempt, "dr.com"));
    assert!(!is_stale_attempt(&online, "Dr.COM"));
    assert!(!is_stale_attempt(&other, "Dr.COM"));
}

#[test]
fn connection_description_is_stable() {
    assert_eq!(describe_connections(&[]), "[]");
    let text = describe_connections(&[connection("Dr.COM", false)]);
    assert!(text.contains("entry:\"Dr.COM\""));
    assert!(text.contains("connected:false"));
}

#[test]
fn the_error_table_is_exact() {
    let fatal = [621, 622, 623, 624, 691, 739];
    for code in 0..1000u32 {
        assert_eq!(describe_error(code).retryable, !fatal.contains(&code), "code {code}");
    }
    assert_eq!(describe_error(678).message, "there was no answer (is the cable connected?)");
    assert_eq!(describe_error(756).message, "a dial operation is already in progress");
    assert_eq!(describe_error(1).message, "unknown RAS error");
}

#[test]
fn the_codes_are_those_of_ras() {
    assert_eq!(STATE_CONNECTED, RASCS_CONNECTED);
    // RASCN_Connection | RASCN_Disconnection
    assert_eq!(NOTIFY_FLAGS, 1 | 2);
    assert_eq!(ERROR_BUFFER_TOO_SMALL, 603);
    assert_eq!(ERROR_CANNOT_FIND_PHONEBOOK_ENTRY, 623);
    assert_eq!(WAIT_TIMEOUT, 258);
    assert_eq!(all_connections(), usize::MAX);
}

#[test]
fn connections_are_described_exactly() {
    assert_eq!(
        describe_connections(&[connection("a", true), connection("b", false)]),
        "[{entry:\"a\", device:\"WAN Miniport (PPPOE)\", state:8192, connected:true}, \
         {entry:\"b\", device:\"WAN Miniport (PPPOE)\", state:0, connected:false}]"
    );
    assert_eq!(
        abort_notice(&connection("b", false)),
        "aborting a stale dial attempt: entry=\"b\" device=\"WAN Miniport (PPPOE)\" state=0"
    );
}

#[test]
fn failures_carry_their_code() {
    let e = Error::Ras(RasFailure { code: 691, context: "RasDialW" });
    assert_eq!(error_code(&e), Some(691));
    assert_eq!(e.message(), "RasDialW returned error code 691");
    assert_eq!(error_code(&err("x")), None);
    assert_eq!(os_err("RasHangUpW", 6).message(), "RasHangUpW failed with error code 6");
    assert_eq!(
        register_connection_notification(5).unwrap_err().message(),
        "RasConnectionNotificationW failed with error code 5"
    );
    assert!(register_connection_notification(0).is_ok());
}

#[test]
fn a_failed_dial_gives_its_handle_back() {
    let failed = dial(678, 77);
    assert_eq!(error_code(&failed.result.unwrap_err()), Some(678));
    assert_eq!(failed.release, Release::HangUp);
    assert_eq!(dial(678, 0).release, Release::Over);
    let worked = dial(0, 77);
    assert_eq!(worked.release, Release::Over);
    assert_eq!(worked.result.unwrap().conn, 77);
}

#[test]
fn hanging_up_waits_for_the_release_but_not_forever() {
    let mut step = Release::begin(77);
    assert_eq!(step, Release::HangUp);
    let mut polls = 0;
    let mut pauses = 0;
    while step != Release::Over {
        match step {
            Release::Poll { .. } => polls += 1,
            Release::Pause { .. } => pauses += 1,
            _ => {}
        }
        step = step.next(0);
    }
    assert_eq!((polls, pauses * RELEASE_INTERVAL_MS), (50, 5_000));
    // The port is free as soon as the handle is gone.
    assert_eq!(Release::HangUp.next(0).next(6), Release::Over);
    assert_eq!(Release::HangUp.next(6), Release::Over);
    assert_eq!(Release::begin(0), Release::Over);
}

#[test]
fn a_test_connection_is_hung_up() {
    assert_eq!(Dialed { conn: 3 }.hang_up(0).unwrap(), Release::Poll { left: 50 });
    assert_eq!(
        Dialed { conn: 3 }.hang_up(668).unwrap_err().message(),
        "RasHangUpW failed with error code 668"
    );
}

#[test]
fn dial_fields_fit_the_structure() {
    let mut cfg = dial_config();
    cfg.domain = String::from("a-domain-name-that-is-too-long");
    let request = dial_request(&cfg, 90_000);
    // The array lengths of RASDIALPARAMSW.
    assert_eq!(request.entry.len(), 257);
    assert_eq!(request.user.len(), 257);
    assert_eq!(request.password.len(), 257);
    assert_eq!(request.domain.len(), 16);
    assert_eq!(request.entry.len(), ENTRY_FIELD);
    assert_eq!(wide_to_string(&request.entry), "Dr.COM");
    assert_eq!(wide_to_string(&request.user), "account-9");
    assert_eq!(wide_to_string(&request.password), "secret-9");
    assert_eq!(wide_to_string(&request.domain), "a-domain-name-t");
    assert_eq!(request.domain[DOMAIN_FIELD - 1], 0);
    assert_eq!(request.timeout_ms, 90_000);
    assert!(request.phone_book.is_none());
}

#[test]
fn a_blank_phone_book_is_the_default_one() {
    let mut cfg = dial_config();
    cfg.pbk_path = String::from("  ");
    assert!(phone_book(&cfg).is_none());
    cfg.pbk_path = String::from("c:\\x.pbk");
    assert_eq!(phone_book(&cfg).unwrap(), to_wide("c:\\x.pbk"));
}

#[test]
fn the_watchdog_fires_on_its_deadline_only() {
    assert!(watchdog_fires(258));
    assert!(!watchdog_fires(0));
    assert!(!watchdog_fires(0xFFFF_FFFF));
}

#[test]
fn the_table_is_collected() {
    let rows = vec![
        RasRow { handle: 1, entry: to_wide("a"), device: to_wide("x"), state: Some(8192) },
        RasRow { handle: 2, entry: to_wide("b"), device: to_wide("y"), state: None },
        RasRow { handle: 3, entry: to_wide("c"), device: to_wide("z"), state: Some(5) },
    ];
    let table = collect(&rows, 2);
    assert_eq!(table.len(), 2);
    assert!(table[0].info.connected && table[0].info.state == 8192 && table[0].handle == 1);
    assert!(!table[1].info.connected && table[1].info.state == 0);
    assert!(table[0].readable && !table[1].readable);
    assert_eq!((table[1].info.entry.as_str(), table[1].info.device.as_str()), ("b", "y"));
    assert_eq!(collect(&rows, 99).len(), 3);
    assert_eq!(connection_state(0, 8192), Some(8192));
    assert_eq!(connection_state(0, -1), Some(u32::MAX));
    assert_eq!(connection_state(6, 8192), None);
}

#[test]
fn online_connections_are_found_and_never_aborted() {
    let table = || vec![listed("DR.com", false, 1), listed("Dr.COM", true, 2), listed("x", false, 3)];
    let infos = list_connections(Ok(table())).unwrap();
    assert_eq!(infos.len(), 3);
    assert!(is_connected(Ok(infos), "dr.com").unwrap());
    assert!(!is_connected(list_connections(Ok(table())), "x").unwrap());
    assert!(is_connected(Err(err("gone")), "x").is_err());
    let stale = abort_stale_attempts(Ok(table()), "dr.COM").unwrap();
    assert_eq!(stale.iter().map(|l| l.handle).collect::<Vec<_>>(), vec![1]);
    assert!(abort_stale_attempts(Err(err("gone")), "x").is_err());
    match list_connections(Err(err("gone"))) {
        Err(e) => assert_eq!(e.message(), "gone"),
        Ok(_) => panic!("the error must be passed on"),
    }
}

#[test]
fn a_connection_of_unknown_state_is_left_alone() {
    let rows = vec![
        RasRow { handle: 1, entry: to_wide("a"), device: to_wide("x"), state: None },
        RasRow { handle: 2, entry: to_wide("a"), device: to_wide("x"), state: Some(3) },
    ];
    let stale = abort_stale_attempts(Ok(collect(&rows, 2)), "A").unwrap();
    assert_eq!(stale.iter().map(|l| l.handle).collect::<Vec<_>>(), vec![2]);
}

#[test]
fn only_attempts_that_were_hung_up_count() {
    assert_eq!(aborted_count(&[]), 0);
    assert_eq!(aborted_count(&[Some(0), Some(6), None, Some(0)]), 2);
}

#[test]
fn no_more_rows_are_read_than_there_are() {
    assert_eq!(filled_rows(2, 5), 2);
    assert_eq!(filled_rows(5, 2), 2);
    assert_eq!(filled_rows(u32::MAX, 0), 0);
}

#[test]
fn enumeration_grows_its_buffer() {
    assert!(Enumeration::probed(0, 0, 100).unwrap().is_none());
    match Enumeration::probed(5, 0, 100) {
        Err(e) => assert_eq!(e.message(), "RasEnumConnectionsW failed with error code 5"),
        Ok(_) => panic!("the error must be reported"),
    }
    let mut e = Enumeration::probed(603, 10, 100).unwrap().unwrap();
    assert_eq!((e.needed, e.capacity(), e.buffer_bytes()), (100, 2, 200));
    assert!(!e.fetched(603, 150).unwrap());
    assert_eq!(e.needed, 200);
    assert!(!e.fetched(234, 900).unwrap());
    assert_eq!((e.needed, e.capacity()), (900, 10));
    assert!(e.fetched(0, 0).unwrap());
    assert_eq!(e.fetched(7, 0).unwrap_err().message(), "RasEnumConnectionsW failed with error code 7");
    assert!(!e.fetched(603, 0).unwrap());
    assert!(!e.fetched(603, 0).unwrap());
    assert_eq!(
        e.fetched(603, 0).unwrap_err().message(),
        "RasEnumConnectionsW: buffer still too small after retries"
    );
    assert_eq!(e.left, 0);
    assert_eq!(
        e.fetched(603, 0).unwrap_err().message(),
        "RasEnumConnectionsW: buffer still too small after retries"
    );
    let mut huge = Enumeration { needed: 0x9000_0000, entry_size: 16, left: 2 };
    assert!(!huge.fetched(603, 1).unwrap());
    assert_eq!(huge.needed, u32::MAX);
    assert_eq!(huge.buffer_bytes(), 0);
}

#[test]
fn a_missing_entry_is_created_from_the_template() {
    assert!(ensure_entry(0).unwrap().is_none());
    assert!(ensure_entry(603).unwrap().is_none());
    match ensure_entry(621) {
        Err(e) => assert_eq!(e.message(), "RasGetEntryPropertiesW failed with error code 621"),
        Ok(_) => panic!("the error must be reported"),
    }
    let template = ensure_entry(623).unwrap().unwrap();
    // RASET_Broadband, RASNP_Ip, RASFP_Ppp, RASEO_RemoteDefaultGateway
    assert_eq!(template.entry_type, 5);
    assert_eq!(template.net_protocols, 4);
    assert_eq!(template.framing_protocol, 1);
    assert_eq!(template.options, 0x10);
    assert_eq!((template.country_id, template.country_code), (1, 1));
    // The array lengths of RASENTRYW.
    assert_eq!(template.device_type.len(), 17);
    assert_eq!(template.device_name.len(), 129);
    assert_eq!(wide_to_string(&template.device_type), "PPPoE");
    assert_eq!(wide_to_string(&template.device_name), "WAN Miniport (PPPOE)");
    assert!(entry_created(0).unwrap());
    assert_eq!(
        entry_created(624).unwrap_err().message(),
        "RasSetEntryPropertiesW failed with error code 624"
    );
}
