use ont_scraper::error::ScrapeError;
use ont_scraper::parser::{
    decode_hex_escapes, optical_from_args, parse_client_metrics, parse_device_info,
    parse_ont_metrics, parse_optical_metrics, parse_optical_page, parse_wan_metrics, OntMetrics,
};

fn reading(text: &str) -> f64 {
    text.parse::<f64>().unwrap()
}

#[test]
fn test_parse_metrics_js() {
    let html = r#"
        var opticInfos = new Array(new stOpticInfo("InternetGatewayDevice.X_HW_DEBUG.AMP.Optic","ok","\x202\x2e33","\x2d24\x2e09","3364","47","10","\x2d\x2d","\x2d\x2d","HUAWEI\x20\x20\x20\x20\x20\x20\x20\x20\x20","2416R080776AS\x20\x20","240529","1310","1490","20","0"),null);
        "#;

    let metrics = parse_ont_metrics(html).unwrap();

    assert_eq!(reading(&metrics.tx_power), 2.33);
    assert_eq!(reading(&metrics.rx_power), -24.09);
    assert_eq!(reading(&metrics.voltage), 3364.0);
    assert_eq!(reading(&metrics.temperature), 47.0);
    assert_eq!(reading(&metrics.bias_current), 10.0);
}

#[test]
fn test_parse_device_info() {
    let html = r#"
        var deviceInfo = {
            ProductClass: "HG8145V5",
            SerialNumber: "4857544345AABBCC",
            SoftwareVersion: "V5R019C00S180",
            UpTime: "86400"
        };
        "#;

    let info = parse_device_info(html);
    assert_eq!(info.model, Some("HG8145V5".to_string()));
    assert_eq!(info.serial, Some("4857544345AABBCC".to_string()));
    assert_eq!(info.version, Some("V5R019C00S180".to_string()));
    assert_eq!(info.uptime, Some(86400));
}

#[test]
fn seven_arguments_give_the_five_readings() {
    let html = r#"new stOpticInfo("dom","ok","\x202\x2e33","\x2d24\x2e09","3364","47","10")"#;
    let metrics = parse_ont_metrics(html).unwrap();
    assert_eq!(metrics.tx_power, "2.33");
    assert_eq!(metrics.rx_power, "-24.09");
    assert_eq!(metrics.voltage, "3364");
    assert_eq!(metrics.temperature, "47");
    assert_eq!(metrics.bias_current, "10");
    assert_eq!(reading(&metrics.tx_power), 2.33);
    assert_eq!(reading(&metrics.rx_power), -24.09);
    assert_eq!(reading(&metrics.voltage), 3364.0);
    assert_eq!(reading(&metrics.temperature), 47.0);
    assert_eq!(reading(&metrics.bias_current), 10.0);
    assert_eq!(metrics.device_model, None);
    assert_eq!(metrics.uptime_seconds, None);
    assert_eq!(metrics.wan_status, None);
    assert_eq!(metrics.total_clients_count, None);
}

#[test]
fn trailing_arguments_change_nothing() {
    let short = parse_ont_metrics(r#"new stOpticInfo("d","ok","1.5","-2","3300","40","12")"#);
    let long = parse_ont_metrics(
        r#"new stOpticInfo("d","ok","1.5","-2","3300","40","12","junk","\x2d\x2d",,"more")"#,
    );
    assert_eq!(short, long);
    assert_eq!(long.unwrap().bias_current, "12");
}

#[test]
fn absent_construct_is_an_extraction_failure() {
    assert_eq!(parse_ont_metrics("<html>nothing</html>"), Err(ScrapeError::ExtractionFailure));
    assert_eq!(parse_ont_metrics(""), Err(ScrapeError::ExtractionFailure));
    assert_eq!(
        parse_ont_metrics(r#"new stOpticInfo("d","ok","1","2","3","4","5""#),
        Err(ScrapeError::ExtractionFailure)
    );
}

#[test]
fn too_few_arguments_are_an_extraction_failure() {
    assert_eq!(
        parse_ont_metrics(r#"new stOpticInfo("d","ok","1","2","3","4")"#),
        Err(ScrapeError::ExtractionFailure)
    );
}

#[test]
fn a_reading_that_is_no_number_is_an_extraction_failure() {
    assert_eq!(
        parse_ont_metrics(r#"new stOpticInfo("d","ok","1","2","\x2d\x2d","4","5")"#),
        Err(ScrapeError::ExtractionFailure)
    );
    assert_eq!(
        parse_ont_metrics(r#"new stOpticInfo("d","ok","1","2","3","4","")"#),
        Err(ScrapeError::ExtractionFailure)
    );
}

#[test]
fn failed_extraction_leaves_the_record_untouched() {
    let mut metrics = OntMetrics::default();
    metrics.tx_power = "7".to_string();
    metrics.device_model = Some("kept".to_string());
    let before = metrics.clone();
    let r = parse_optical_metrics(r#"new stOpticInfo("d","ok","1","x","3","4","5")"#, &mut metrics);
    assert_eq!(r, Err(ScrapeError::ExtractionFailure));
    assert_eq!(metrics, before);
    let r = parse_optical_metrics("no call here", &mut metrics);
    assert_eq!(r, Err(ScrapeError::ExtractionFailure));
    assert_eq!(metrics, before);
}

#[test]
fn successful_extraction_sets_only_the_readings() {
    let mut metrics = OntMetrics::default();
    metrics.device_model = Some("kept".to_string());
    metrics.uptime_seconds = Some(5);
    let r = parse_optical_metrics(
        r#"new stOpticInfo("d","ok"," 1.25 ","-30.5","3300","41","11")"#,
        &mut metrics,
    );
    assert_eq!(r, Ok(()));
    assert_eq!(metrics.tx_power, "1.25");
    assert_eq!(metrics.rx_power, "-30.5");
    assert_eq!(metrics.voltage, "3300");
    assert_eq!(metrics.temperature, "41");
    assert_eq!(metrics.bias_current, "11");
    assert_eq!(metrics.device_model, Some("kept".to_string()));
    assert_eq!(metrics.uptime_seconds, Some(5));
}

#[test]
fn optical_from_args_maps_positions() {
    let args: Vec<String> =
        ["a", "b", "2", "3", "4", "5", "6", "7"].iter().map(|s| s.to_string()).collect();
    let o = optical_from_args(&args).unwrap();
    assert_eq!(o.tx_power, "2");
    assert_eq!(o.rx_power, "3");
    assert_eq!(o.voltage, "4");
    assert_eq!(o.temperature, "5");
    assert_eq!(o.bias_current, "6");
    let few: Vec<String> = ["a", "b", "2", "3", "4", "5"].iter().map(|s| s.to_string()).collect();
    assert_eq!(optical_from_args(&few), Err(ScrapeError::ExtractionFailure));
}

#[test]
fn default_record_has_zero_readings_and_nothing_else() {
    let m = OntMetrics::default();
    assert_eq!(reading(&m.tx_power), 0.0);
    assert_eq!(reading(&m.rx_power), 0.0);
    assert_eq!(reading(&m.voltage), 0.0);
    assert_eq!(reading(&m.bias_current), 0.0);
    assert_eq!(reading(&m.temperature), 0.0);
    assert_eq!(m.device_model, None);
    assert_eq!(m.mac_address, None);
    assert_eq!(m.wan_rx_bytes, None);
    assert_eq!(m.lan_clients_count, None);
}

#[test]
fn labelled_values_on_the_optical_page_are_merged() {
    let html = r#"
        new stOpticInfo("d","ok","1","2","3","4","5");
        ProductClass = 'HG8245' SerialNumber: "SN1" SoftwareVersion="V3"
        WANStatus: "Connected" WANIP = "10.0.0.2" RXBytes=1234 TXBytes: 99
        LANClients=3 WiFiClients: 7
        new stDeviceInfo("x","4242")
    "#;
    let m = parse_ont_metrics(html).unwrap();
    assert_eq!(m.device_model, Some("HG8245".to_string()));
    assert_eq!(m.serial_number, Some("SN1".to_string()));
    assert_eq!(m.software_version, Some("V3".to_string()));
    assert_eq!(m.uptime_seconds, Some(4242));
    assert_eq!(m.wan_status, Some("Connected".to_string()));
    assert_eq!(m.wan_ip, Some("10.0.0.2".to_string()));
    assert_eq!(m.wan_rx_bytes, Some(1234));
    assert_eq!(m.wan_tx_bytes, Some(99));
    assert_eq!(m.lan_clients_count, Some(3));
    assert_eq!(m.wifi_clients_count, Some(7));
    assert_eq!(m.hardware_version, None);
    assert_eq!(m.mac_address, None);
    assert_eq!(m.total_clients_count, None);
}

#[test]
fn optical_page_alone_gives_no_optional_field() {
    let html = r#"
        new stOpticInfo("d","ok","1","2","3","4","5");
        ProductClass = 'HG8245' WANStatus: "Connected" LANClients=3 UpTime=9
    "#;
    let m = parse_optical_page(html).unwrap();
    let mut expected = OntMetrics::default();
    expected.tx_power = "1".to_string();
    expected.rx_power = "2".to_string();
    expected.voltage = "3".to_string();
    expected.temperature = "4".to_string();
    expected.bias_current = "5".to_string();
    assert_eq!(m, expected);
    assert_eq!(parse_optical_page("nothing"), Err(ScrapeError::ExtractionFailure));
    assert_eq!(
        parse_optical_page(r#"new stOpticInfo("d","ok","1","2","3","4")"#),
        Err(ScrapeError::ExtractionFailure)
    );
}

#[test]
fn labelled_uptime_prefers_the_quoted_argument() {
    let html = r#"new stDeviceInfo("a","777") UpTime="5""#;
    assert_eq!(parse_device_info(html).uptime, Some(777));
    let html = r#"new stDeviceInfo("a","99999999999999999999999") UpTime="5""#;
    assert_eq!(parse_device_info(html).uptime, Some(5));
    assert_eq!(parse_device_info("nothing").uptime, None);
}

#[test]
fn labelled_wan_counter_too_large_is_absent() {
    let wan = parse_wan_metrics("RXBytes=18446744073709551615 TXBytes=18446744073709551616");
    assert_eq!(wan.rx_bytes, Some(u64::MAX));
    assert_eq!(wan.tx_bytes, None);
    assert_eq!(wan.status, None);
    assert_eq!(wan.ip, None);
}

#[test]
fn labelled_client_counts() {
    let c = parse_client_metrics("LANClients: 0 WiFiClients=4294967296");
    assert_eq!(c.lan_count, Some(0));
    assert_eq!(c.wifi_count, None);
    let c = parse_client_metrics("");
    assert_eq!(c.lan_count, None);
    assert_eq!(c.wifi_count, None);
}

#[test]
fn decode_replaces_well_formed_escapes() {
    assert_eq!(decode_hex_escapes(r"\x2d24\x2e09"), "-24.09");
    assert_eq!(decode_hex_escapes(r"26AD\x2eA"), "26AD.A");
    assert_eq!(decode_hex_escapes(r"\x4A\x4a"), "JJ");
    assert_eq!(decode_hex_escapes(r"\x202\x2e33"), " 2.33");
    assert_eq!(decode_hex_escapes(""), "");
}

#[test]
fn decode_round_trips_every_byte() {
    for b in 0u32..=255 {
        let expected = char::from_u32(b).unwrap().to_string();
        assert_eq!(decode_hex_escapes(&format!("\\x{:02x}", b)), expected);
        assert_eq!(decode_hex_escapes(&format!("\\x{:02X}", b)), expected);
    }
    assert_eq!(decode_hex_escapes(r"\xff").chars().next(), Some('\u{ff}'));
}

#[test]
fn decode_leaves_text_without_escapes_alone() {
    for s in ["", "plain", "a\\b", "x41", "\\", "\\\\", "\\n\\t", "h\u{e9}llo \u{4e16}"] {
        assert_eq!(decode_hex_escapes(s), s);
        assert_eq!(decode_hex_escapes(&decode_hex_escapes(s)), decode_hex_escapes(s));
    }
}

#[test]
fn decode_keeps_malformed_escapes() {
    for s in ["\\x", "\\x4", "\\xZZ", "\\x4Z", "\\xZ4", "\\x+5", "a\\x", "\\x 1", "\\xg0tail"] {
        assert_eq!(decode_hex_escapes(s), s);
    }
    assert_eq!(decode_hex_escapes("\\xZZ\\x41"), "\\xZZA");
    assert_eq!(decode_hex_escapes("\\x4\\x41"), "\\x4A");
    assert_eq!(decode_hex_escapes("\\x\\x41"), "\\xA");
    assert_eq!(decode_hex_escapes("\\x5cx41"), "\\x41");
}

#[test]
fn decode_is_not_utf8_decoding() {
    assert_eq!(decode_hex_escapes(r"\xc3\xa9"), "\u{c3}\u{a9}");
}
