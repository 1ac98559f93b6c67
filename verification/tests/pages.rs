use ont_scraper::number::long_number_in;
use ont_scraper::pages::{
    client_page_from, device_page_from, parse_device_info_page, parse_lan_page, parse_wan_page,
    wan_page_from, ClientPageInfo,
};

fn text(s: &str) -> Option<String> {
    Some(s.to_string())
}

#[test]
fn device_page_maps_eight_arguments_by_position() {
    let html = r#"var d = new stDeviceInfo("InternetGatewayDevice.DeviceInfo","4857A4439B54FCAF","26AD\x2eA","V5R020C10S254","HG8145V5","desc","x","AA\x3aBB\x3aCC\x3aDD\x3aEE\x3aFF");"#;
    let info = parse_device_info_page(html);
    assert_eq!(info.serial, text("4857A4439B54FCAF"));
    assert_eq!(info.hardware_version, text("26AD.A"));
    assert_eq!(info.version, text("V5R020C10S254"));
    assert_eq!(info.model, text("HG8145V5"));
    assert_eq!(info.mac, text("AA:BB:CC:DD:EE:FF"));
    assert_eq!(info.uptime, None);
}

#[test]
fn device_page_with_fewer_arguments_gives_what_is_there() {
    let info = parse_device_info_page(r#"new stDeviceInfo("dom","SN","HW")"#);
    assert_eq!(info.serial, text("SN"));
    assert_eq!(info.hardware_version, text("HW"));
    assert_eq!(info.version, None);
    assert_eq!(info.model, None);
    assert_eq!(info.mac, None);

    let info = parse_device_info_page(r#"new stDeviceInfo("a","b","c","d","e","f","g")"#);
    assert_eq!(info.model, text("e"));
    assert_eq!(info.mac, None);

    let info = parse_device_info_page(r#"new stDeviceInfo("dom")"#);
    assert_eq!(info.serial, None);
}

#[test]
fn device_page_without_the_construct_is_empty() {
    let info = parse_device_info_page("<html></html>");
    assert_eq!(info.serial, None);
    assert_eq!(info.hardware_version, None);
    assert_eq!(info.version, None);
    assert_eq!(info.model, None);
    assert_eq!(info.mac, None);
    assert_eq!(info.uptime, None);
}

#[test]
fn device_page_uptime_takes_the_label_first() {
    let html = r#"UpTime=86400; new stDeviceInfo("d","SN","1234567")"#;
    assert_eq!(parse_device_info_page(html).uptime, Some(86400));
    let html = r#"UpTime: 99999999999999999999999 new stDeviceInfo("d","77777")"#;
    assert_eq!(parse_device_info_page(html).uptime, Some(77777));
}

#[test]
fn device_page_uptime_is_the_whole_long_number_of_the_call() {
    let html = r#"new stDeviceInfo("dom","S","H","V","M","123456")"#;
    assert_eq!(parse_device_info_page(html).uptime, Some(123456));
    let html = r#"new stDeviceInfo("d","SN","86400")"#;
    assert_eq!(parse_device_info_page(html).uptime, Some(86400));
    let html = r#"new stDeviceInfo("d","SN","1234567")"#;
    assert_eq!(parse_device_info_page(html).uptime, Some(1234567));
    let html = r#"new stDeviceInfo("d","SN","18446744073709551615")"#;
    assert_eq!(parse_device_info_page(html).uptime, Some(u64::MAX));
}

#[test]
fn device_page_uptime_passes_over_short_numbers() {
    let html = r#"new stDeviceInfo("d1","1234","12a3456","0012345","99999")"#;
    assert_eq!(parse_device_info_page(html).uptime, Some(12345));
    let html = r#"new stDeviceInfo("d","SN","1234")"#;
    assert_eq!(parse_device_info_page(html).uptime, None);
    let html = r#"new stDeviceInfo("d","1234","5678")"#;
    assert_eq!(parse_device_info_page(html).uptime, None);
}

#[test]
fn device_page_uptime_is_read_inside_the_first_call_only() {
    let html = r#"123456 new stDeviceInfo("d","SN") 654321"#;
    assert_eq!(parse_device_info_page(html).uptime, None);
    let html = r#"new stDeviceInfo("d","SN") new stDeviceInfo("d","654321")"#;
    assert_eq!(parse_device_info_page(html).uptime, None);
    let html = r#"new stDeviceInfo("d","654321""#;
    assert_eq!(parse_device_info_page(html).uptime, None);
    let html = r#"new stDeviceInfo("d","99999999999999999999","12345")"#;
    assert_eq!(parse_device_info_page(html).uptime, None);
}

#[test]
fn long_numbers_in_running_text() {
    assert_eq!(long_number_in("ab 1234 567890 x 99999", 5), text("567890"));
    assert_eq!(long_number_in("12345", 5), text("12345"));
    assert_eq!(long_number_in("x12345", 5), text("12345"));
    assert_eq!(long_number_in("12345x", 5), text("12345"));
    assert_eq!(long_number_in("1234", 5), None);
    assert_eq!(long_number_in("1234 5678 9", 5), None);
    assert_eq!(long_number_in("", 5), None);
    assert_eq!(long_number_in("a1b22c333", 3), text("333"));
    assert_eq!(long_number_in("\u{661}\u{662}\u{663}\u{664}\u{665} 00000", 5), text("00000"));
}

#[test]
fn device_page_from_takes_the_first_candidate_that_is_a_number() {
    let args: Vec<String> = ["0", "1", "2", "3", "4", "5", "6", "7", "8"]
        .iter()
        .map(|s| s.to_string())
        .collect();
    let info = device_page_from(Some(args), text("x1"), text("12"));
    assert_eq!(info.serial, text("1"));
    assert_eq!(info.hardware_version, text("2"));
    assert_eq!(info.version, text("3"));
    assert_eq!(info.model, text("4"));
    assert_eq!(info.mac, text("7"));
    assert_eq!(info.uptime, Some(12));
    let info = device_page_from(None, text("3"), text("12"));
    assert_eq!(info.serial, None);
    assert_eq!(info.uptime, Some(3));
    assert_eq!(device_page_from(None, None, None).uptime, None);
}

#[test]
fn wan_page_finds_status_address_and_counters() {
    let html = r#"
        CurrentWan.Status = "Connected";
        CurrentWan.IPv4IPAddress = '100.64.1.2';
        "IPAddress": "192.168.100.1"
        RXBytes=123456 TXBytes: 654321
    "#;
    let wan = parse_wan_page(html);
    assert_eq!(wan.status, text("Connected"));
    assert_eq!(wan.ip, text("100.64.1.2"));
    assert_eq!(wan.rx_bytes, Some(123456));
    assert_eq!(wan.tx_bytes, Some(654321));
}

#[test]
fn wan_page_falls_back_to_the_listed_address() {
    let wan = parse_wan_page(r#"{"IPAddress": "192.168.100.1"}"#);
    assert_eq!(wan.ip, text("192.168.100.1"));
    assert_eq!(wan.status, None);
    assert_eq!(wan.rx_bytes, None);
    assert_eq!(wan.tx_bytes, None);
    let wan = parse_wan_page(r#"IPv4IPAddress = "not.an.ip""#);
    assert_eq!(wan.ip, None);
}

#[test]
fn wan_page_from_prefers_the_first_address() {
    let wan = wan_page_from(text("Up"), text("1.1.1.1"), text("2.2.2.2"), text("0"), text("x"));
    assert_eq!(wan.status, text("Up"));
    assert_eq!(wan.ip, text("1.1.1.1"));
    assert_eq!(wan.rx_bytes, Some(0));
    assert_eq!(wan.tx_bytes, None);
    let wan = wan_page_from(None, None, text("2.2.2.2"), None, None);
    assert_eq!(wan.ip, text("2.2.2.2"));
    let wan = wan_page_from(None, None, None, None, None);
    assert_eq!(wan.ip, None);
}

#[test]
fn lan_page_counts_clients_by_port_label() {
    let html = r#"
        var UserDevinfo = new Array(
        new USERDevice("dom1","192.168.100.2","aa:bb","LAN2","host1"),
        new USERDeviceNew("dom2","192.168.100.3","cc:dd","SSID1","host2"),
        new USERDevice("dom3","192.168.100.4","ee:ff","LAN1","host3"),null);
    "#;
    let clients = parse_lan_page(html);
    assert_eq!(clients.total_count, Some(3));
    assert_eq!(clients.lan_count, Some(2));
    assert_eq!(clients.wifi_count, Some(1));
}

#[test]
fn lan_page_records_only_counts_that_are_not_zero() {
    let clients = parse_lan_page(r#"new USERDevice("d","ip","mac","SSID3","h")"#);
    assert_eq!(clients.total_count, Some(1));
    assert_eq!(clients.lan_count, None);
    assert_eq!(clients.wifi_count, Some(1));

    let clients = parse_lan_page(r#"new  USERDevice("d","ip","mac","ETH","h")"#);
    assert_eq!(clients.total_count, Some(1));
    assert_eq!(clients.lan_count, None);
    assert_eq!(clients.wifi_count, None);

    let clients = parse_lan_page(r#"function USERDevice(a, b) { } "LAN1" "SSID1""#);
    assert_eq!(clients, ClientPageInfo { lan_count: None, wifi_count: None, total_count: None });
}

#[test]
fn client_page_from_keeps_nothing_without_clients() {
    assert_eq!(
        client_page_from(0, 5, 6),
        ClientPageInfo { lan_count: None, wifi_count: None, total_count: None }
    );
    assert_eq!(
        client_page_from(3, 2, 1),
        ClientPageInfo { lan_count: Some(2), wifi_count: Some(1), total_count: Some(3) }
    );
    assert_eq!(
        client_page_from(3, 0, 3),
        ClientPageInfo { lan_count: None, wifi_count: Some(3), total_count: Some(3) }
    );
    assert_eq!(
        client_page_from(u32::MAX as usize, 1, 0),
        ClientPageInfo { lan_count: Some(1), wifi_count: None, total_count: Some(u32::MAX) }
    );
}
