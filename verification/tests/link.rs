use pppoe::link::{
    check, decide, describe, describe_candidates, media_state, notify, select, snapshot,
    snapshot_all, wide_to_string, AdapterInfo, Folded, InterfaceRow, MediaState,
    FLAG_CONNECTOR_PRESENT, FLAG_FILTER_INTERFACE, FLAG_HARDWARE_INTERFACE, IF_TYPE_ETHERNET,
    MEDIA_CONNECTED, MEDIA_UNKNOWN, OPER_STATUS_UP,
};
use pppoe::ras::to_wide;

/// `IF_TYPE_ETHERNET_CSMACD`.
const ETHERNET_CSMACD: u32 = 6;
/// `IfOperStatusUp`.
const STATUS_UP: i32 = 1;
/// `MediaConnectStateUnknown`.
const STATE_UNKNOWN: i32 = 0;
/// `MediaConnectStateConnected`.
const STATE_CONNECTED: i32 = 1;

fn adapter(alias: &str, media: MediaState, oper_up: bool) -> AdapterInfo {
    AdapterInfo {
        alias: String::from(alias),
        description: format!("{alias} controller"),
        if_type: IF_TYPE_ETHERNET,
        oper_up,
        media,
        hardware: true,
        is_filter: false,
        connector_present: true,
    }
}

fn filter_shim(alias: &str) -> AdapterInfo {
    AdapterInfo {
        alias: String::from(alias),
        description: format!("{alias} -WFP Native MAC Layer LightWeight Filter-0000"),
        if_type: IF_TYPE_ETHERNET,
        oper_up: true,
        media: MediaState::Connected,
        hardware: false,
        is_filter: true,
        connector_present: false,
    }
}

fn virtual_miniport(alias: &str, media: MediaState) -> AdapterInfo {
    AdapterInfo {
        alias: String::from(alias),
        description: format!("{alias} miniport"),
        if_type: IF_TYPE_ETHERNET,
        oper_up: true,
        media,
        hardware: false,
        is_filter: false,
        connector_present: false,
    }
}

fn folded(a: AdapterInfo) -> Folded {
    Folded { alias: a.alias.to_lowercase(), description: a.description.to_lowercase(), adapter: a }
}

fn row(alias: &str, if_type: u32, oper_status: i32, media: i32, flags: u8) -> InterfaceRow {
    InterfaceRow {
        alias: to_wide(alias),
        description: to_wide("NIC"),
        if_type,
        oper_status,
        media_connect_state: media,
        flags,
    }
}

#[test]
fn wide_string_conversion() {
    let buffer = [0x0041u16, 0x0042, 0, 0x0043];
    assert_eq!(wide_to_string(&buffer), "AB");
    assert_eq!(wide_to_string(&[]), "");
}

#[test]
fn filter_matches_alias_and_description() {
    let a = adapter("Ethernet 2", MediaState::Connected, true);
    assert!(pppoe::link::matches(&a, "ethernet"));
    assert!(pppoe::link::matches(&a, "controller"));
    assert!(!pppoe::link::matches(&a, "wifi"));
}

#[test]
fn media_state_mapping() {
    assert_eq!(media_state(STATE_CONNECTED), MediaState::Connected);
    assert_eq!(media_state(STATE_UNKNOWN), MediaState::Unknown);
    assert_eq!(media_state(2), MediaState::Disconnected);
}

#[test]
fn describe_is_stable() {
    assert_eq!(describe(&[]), "[]");
    let text = describe(&[adapter("Eth", MediaState::Connected, true)]);
    assert!(text.starts_with('['));
    assert!(text.contains("media:Connected"));
    assert!(text.contains("hw:true"));
}

#[test]
fn filter_shims_are_never_candidates() {
    assert!(!filter_shim("本地连接* 8-WFP").is_candidate());
    assert!(adapter("Ethernet", MediaState::Connected, true).is_candidate());
}

#[test]
fn hardware_wins_over_virtual_miniports() {
    let mut hardware = adapter("Ethernet", MediaState::Disconnected, false);
    hardware.connector_present = true;
    let miniport = virtual_miniport("WAN Miniport (IP)", MediaState::Connected);

    let only_hardware = select(&vec![folded(hardware), folded(miniport)], "");
    assert_eq!(only_hardware.len(), 1);
    assert!(only_hardware[0].alias == "Ethernet");
    assert!(!only_hardware[0].oper_up);
}

#[test]
fn the_constants_are_those_of_the_system() {
    assert_eq!(IF_TYPE_ETHERNET, ETHERNET_CSMACD);
    assert_eq!(OPER_STATUS_UP, STATUS_UP);
    assert_eq!(MEDIA_UNKNOWN, STATE_UNKNOWN);
    assert_eq!(MEDIA_CONNECTED, STATE_CONNECTED);
}

#[test]
fn adapter_lists_are_described_exactly() {
    let list = [adapter("a", MediaState::Unknown, false), filter_shim("b")];
    assert_eq!(
        describe(&list),
        "[{type:6, up:false, media:Unknown, hw:true, filter:false, alias:\"a\"}, \
         {type:6, up:true, media:Connected, hw:false, filter:true, alias:\"b\"}]"
    );
    assert_eq!(
        describe_candidates(&list),
        "[{type:6, up:false, media:Unknown, hw:true, filter:false, alias:\"a\"}]"
    );
}

#[test]
fn the_table_is_filtered_by_type() {
    let hardware = FLAG_HARDWARE_INTERFACE | FLAG_CONNECTOR_PRESENT;
    let table = Ok(vec![
        row("Ethernet", 6, 1, 1, hardware),
        row("Wi-Fi", 71, 1, 1, FLAG_HARDWARE_INTERFACE),
        row("Shim", 6, 2, 0, FLAG_FILTER_INTERFACE),
    ]);
    let some = snapshot(&table, &[6]).unwrap();
    assert_eq!(some.len(), 2);
    assert_eq!(some[0].alias, "Ethernet");
    assert_eq!(some[0].description, "NIC");
    assert!(some[0].hardware && some[0].connector_present && !some[0].is_filter);
    assert!(some[0].oper_up);
    assert_eq!(some[1].alias, "Shim");
    assert!(some[1].is_filter && !some[1].hardware && !some[1].oper_up);
    assert_eq!(some[1].media, MediaState::Unknown);
    assert_eq!(snapshot_all(&table).unwrap().len(), 3);
    let failed: Result<Vec<InterfaceRow>, u32> = Err(8);
    assert_eq!(
        snapshot(&failed, &[6]).unwrap_err().message(),
        "GetIfTable2 failed with error code 8"
    );
    assert!(snapshot_all(&failed).is_err());
}

#[test]
fn the_verdict_ignores_shims_and_virtual_adapters() {
    let table = Ok(vec![
        row("Shim", 6, 1, 1, FLAG_FILTER_INTERFACE),
        row("Miniport", 6, 1, 1, 0),
        row("Ethernet", 6, 2, 2, FLAG_HARDWARE_INTERFACE),
    ]);
    let status = check(&table, &[6], "").unwrap();
    assert!(!status.up && !status.fallback);
    assert_eq!(status.reason, "cable not connected on 'Ethernet'");
    assert_eq!(status.adapters.len(), 3);
    assert_eq!(status.decided_by.unwrap().alias, "Ethernet");
}

#[test]
fn the_name_filter_ignores_case_and_white_space() {
    let table = Ok(vec![
        row("LAN Ü", 6, 1, 1, FLAG_HARDWARE_INTERFACE),
        row("USB", 6, 2, 2, FLAG_HARDWARE_INTERFACE),
    ]);
    let status = check(&table, &[6], "  lan ü ").unwrap();
    assert!(status.up);
    assert_eq!(status.reason, "cable connected on 'LAN Ü'");
    let status = check(&table, &[6], "usb").unwrap();
    assert!(!status.up);
    let status = check(&table, &[6], "Token Ring").unwrap();
    assert_eq!(
        status.reason,
        "no ethernet adapter matches the configured filter 'token ring'"
    );
    assert!(status.decided_by.is_none());
}

#[test]
fn a_blank_filter_takes_every_card() {
    let table = Ok(vec![row("Ethernet", 6, 1, 1, FLAG_HARDWARE_INTERFACE)]);
    for filter in ["", "  ", "\t\u{3000}"] {
        let status = check(&table, &[6], filter).unwrap();
        assert!(status.up && !status.fallback);
    }
}

#[test]
fn no_adapter_at_all_is_no_cable() {
    let status = decide(&vec![folded(filter_shim("x"))], "");
    assert!(!status.up && !status.fallback);
    assert_eq!(status.reason, "no usable ethernet adapter found (filter shims are ignored)");
}

#[test]
fn without_media_states_the_operational_status_decides() {
    let up = decide(&vec![folded(adapter("a", MediaState::Unknown, true))], "");
    assert!(up.up && up.fallback);
    assert_eq!(up.reason, "no media state reported; falling back to operational status (up)");
    let down = decide(&vec![folded(adapter("a", MediaState::Unknown, false))], "");
    assert!(!down.up && down.fallback);
    assert_eq!(down.reason, "no media state reported and the interface is operationally down");
}

#[test]
fn an_unknown_medium_does_not_count_as_connected() {
    let list = vec![
        folded(adapter("a", MediaState::Unknown, true)),
        folded(adapter("b", MediaState::Disconnected, true)),
    ];
    let status = decide(&list, "");
    assert!(!status.up && !status.fallback);
    assert_eq!(status.decided_by.unwrap().alias, "b");
}

#[test]
fn a_wide_text_comes_back() {
    assert_eq!(wide_to_string(&to_wide("本地连接* 8 🚲")), "本地连接* 8 🚲");
    assert_eq!(wide_to_string(&to_wide("ab\0cd")), "ab");
    assert_eq!(wide_to_string(&[0xD83D, 0x41]), "\u{FFFD}A");
}

#[test]
fn a_failed_registration_is_reported() {
    assert!(notify(0).is_ok());
    assert_eq!(
        notify(87).unwrap_err().message(),
        "NotifyIpInterfaceChange failed with error code 87"
    );
}
