use ont_scraper::client::{
    accept_page, candidate_path, classify_login, classify_optical, extract_token,
    is_acceptable_body, is_login_rejected, merge_page, Category, Method, OntClient, Purpose,
    Request, Response, Scrape, Step,
};
use ont_scraper::error::ScrapeError;
use ont_scraper::parser::OntMetrics;

const OPTICAL_PAGE: &str = r#"new stOpticInfo("dom","ok","\x202\x2e33","\x2d24\x2e09","3364","47","10")"#;

fn reply(body: &str) -> Response {
    Response::Reply { success: true, body: Some(body.to_string()) }
}

fn failed_status(body: &str) -> Response {
    Response::Reply { success: false, body: Some(body.to_string()) }
}

fn pairs(items: &[(&str, &str)]) -> Vec<(String, String)> {
    items.iter().map(|(a, b)| (a.to_string(), b.to_string())).collect()
}

/// Runs a scrape against canned responses, one per request, and returns the
/// requests sent and the outcome.
fn run(
    client: &OntClient,
    mut answer: impl FnMut(&Request) -> Response,
) -> (Vec<Request>, Result<OntMetrics, ScrapeError>) {
    let (mut scrape, mut request): (Scrape, Request) = client.scrape_metrics();
    let mut sent = Vec::new();
    loop {
        let response = answer(&request);
        sent.push(request);
        assert!(sent.len() <= 17);
        match scrape.advance(response) {
            Step::Send(next, next_request) => {
                scrape = next;
                request = next_request;
            }
            Step::Finished(outcome) => return (sent, outcome),
        }
    }
}

fn logouts(sent: &[Request]) -> usize {
    sent.iter().filter(|r| r.purpose == Purpose::Logout).count()
}

fn good_until_optical(request: &Request) -> Response {
    match request.purpose {
        Purpose::Cookie => Response::Unreachable,
        Purpose::Token => reply("\u{feff}tok123\r\n"),
        Purpose::Login => reply("<script>top.location.replace('/index.asp')</script>"),
        Purpose::Optical => reply(OPTICAL_PAGE),
        Purpose::Page(_) => Response::Unreachable,
        Purpose::Logout => Response::Unreachable,
    }
}

#[test]
fn new_drops_trailing_slashes() {
    assert_eq!(OntClient::new("http://192.168.100.1/", "u", "p").base_url(), "http://192.168.100.1");
    assert_eq!(OntClient::new("http://host///", "u", "p").base_url(), "http://host");
    assert_eq!(OntClient::new("http://host/a", "u", "p").base_url(), "http://host/a");
    assert_eq!(OntClient::new("///", "u", "p").base_url(), "");
    assert_eq!(OntClient::new("", "u", "p").base_url(), "");
}

#[test]
fn login_page_without_redirect_is_rejected() {
    let body = "<html><a href=\"/login.asp\">login</a></html>";
    assert!(is_login_rejected(body));
    assert_eq!(classify_login(&reply(body)), Err(ScrapeError::AuthenticationFailure));
    let redirected = "<html><a href=\"/login.asp\">login</a>top.location.replace('/')</html>";
    assert!(!is_login_rejected(redirected));
    assert_eq!(classify_login(&reply(redirected)), Ok(()));
    assert_eq!(classify_login(&reply("welcome")), Ok(()));
    assert_eq!(classify_login(&reply("")), Ok(()));
}

#[test]
fn login_transport_and_status_failures() {
    assert_eq!(classify_login(&Response::Unreachable), Err(ScrapeError::TransportFailure));
    assert_eq!(classify_login(&failed_status("welcome")), Err(ScrapeError::AuthenticationFailure));
    assert_eq!(
        classify_login(&Response::Reply { success: true, body: None }),
        Err(ScrapeError::TransportFailure)
    );
}

#[test]
fn token_loses_mark_and_whitespace() {
    assert_eq!(extract_token("\u{feff}abc123\n"), "abc123");
    assert_eq!(extract_token("  abc 123  "), "abc 123");
    assert_eq!(extract_token("\u{feff}"), "");
    assert_eq!(extract_token(""), "");
    assert_eq!(extract_token(" \u{feff}x"), "\u{feff}x");
}

#[test]
fn optical_response_classification() {
    assert_eq!(classify_optical(&Response::Unreachable), Err(ScrapeError::TransportFailure));
    assert_eq!(classify_optical(&failed_status(OPTICAL_PAGE)), Err(ScrapeError::PageNotFound));
    assert_eq!(
        classify_optical(&Response::Reply { success: true, body: None }),
        Err(ScrapeError::TransportFailure)
    );
    assert_eq!(classify_optical(&reply("nothing")), Err(ScrapeError::ExtractionFailure));
    assert_eq!(classify_optical(&reply(OPTICAL_PAGE)).unwrap().tx_power, "2.33");
}

#[test]
fn acceptable_bodies() {
    assert!(is_acceptable_body(Category::Wan, "x"));
    assert!(is_acceptable_body(Category::Lan, "x"));
    assert!(!is_acceptable_body(Category::Device, "x"));
    assert!(is_acceptable_body(Category::Device, "new stDeviceInfo("));
    assert!(!is_acceptable_body(Category::Wan, ""));
    assert!(!is_acceptable_body(Category::Wan, "Error 404"));
    assert!(!is_acceptable_body(Category::Device, "404 stDeviceInfo"));
    assert_eq!(accept_page(Category::Wan, reply("page")), Some("page".to_string()));
    assert_eq!(accept_page(Category::Wan, failed_status("page")), None);
    assert_eq!(accept_page(Category::Wan, Response::Unreachable), None);
    assert_eq!(accept_page(Category::Wan, Response::Reply { success: true, body: None }), None);
    assert_eq!(accept_page(Category::Device, reply("page")), None);
}

#[test]
fn candidate_paths_in_order() {
    assert_eq!(candidate_path(Category::Device, 0), "/html/ssmp/deviceinfo/deviceinfo.asp");
    assert_eq!(candidate_path(Category::Device, 1), "/html/amp/deviceinfo/deviceinfo.asp");
    assert_eq!(candidate_path(Category::Device, 2), "/html/amp/basic/deviceinfo.asp");
    assert_eq!(candidate_path(Category::Device, 3), "/html/advance/deviceinfo/deviceinfo.asp");
    assert_eq!(candidate_path(Category::Wan, 0), "/html/bbsp/waninfo/waninfo.asp");
    assert_eq!(candidate_path(Category::Wan, 1), "/html/amp/internet/internet.asp");
    assert_eq!(candidate_path(Category::Wan, 2), "/html/amp/wan/wan.asp");
    assert_eq!(candidate_path(Category::Wan, 3), "/html/advance/internet/internet.asp");
    assert_eq!(candidate_path(Category::Lan, 0), "/html/bbsp/common/GetLanUserDevInfo.asp");
    assert_eq!(candidate_path(Category::Lan, 1), "/html/amp/lanuser/lanuser.asp");
    assert_eq!(candidate_path(Category::Lan, 2), "/html/amp/user/user.asp");
    assert_eq!(candidate_path(Category::Lan, 3), "/html/advance/user/user.asp");
}

#[test]
fn merge_replaces_the_fields_of_one_page() {
    let mut record = OntMetrics::default();
    record.tx_power = "1.5".to_string();
    record.device_model = Some("old".to_string());
    record.wan_status = Some("Up".to_string());
    merge_page(&mut record, Category::Device, r#"new stDeviceInfo("d","SN")"#);
    assert_eq!(record.tx_power, "1.5");
    assert_eq!(record.serial_number, Some("SN".to_string()));
    assert_eq!(record.device_model, None);
    assert_eq!(record.wan_status, Some("Up".to_string()));
    merge_page(&mut record, Category::Wan, "RXBytes=5");
    assert_eq!(record.wan_status, None);
    assert_eq!(record.wan_rx_bytes, Some(5));
    assert_eq!(record.serial_number, Some("SN".to_string()));
    merge_page(&mut record, Category::Lan, r#"new USERDevice("a","LAN1")"#);
    assert_eq!(record.total_clients_count, Some(1));
    assert_eq!(record.lan_clients_count, Some(1));
    assert_eq!(record.wifi_clients_count, None);
    assert_eq!(record.tx_power, "1.5");
}

#[test]
fn scrape_sends_the_protocol_in_order() {
    let client = OntClient::new("http://192.168.100.1/", "root", "admin");
    let (sent, outcome) = run(&client, good_until_optical);
    let base = "http://192.168.100.1";
    assert_eq!(sent.len(), 17);
    assert_eq!(
        sent[0],
        Request {
            purpose: Purpose::Cookie,
            method: Method::Get,
            url: base.to_string(),
            headers: vec![],
            form: vec![],
        }
    );
    assert_eq!(
        sent[1],
        Request {
            purpose: Purpose::Token,
            method: Method::Post,
            url: format!("{}/asp/GetRandCount.asp", base),
            headers: pairs(&[
                ("Referer", "http://192.168.100.1/"),
                ("X-Requested-With", "XMLHttpRequest"),
                ("Origin", base),
            ]),
            form: vec![],
        }
    );
    assert_eq!(
        sent[2],
        Request {
            purpose: Purpose::Login,
            method: Method::Post,
            url: format!("{}/login.cgi", base),
            headers: pairs(&[("Referer", "http://192.168.100.1/")]),
            form: pairs(&[
                ("UserName", "root"),
                ("PassWord", "YWRtaW4="),
                ("Language", "english"),
                ("x.X_HW_Token", "tok123"),
            ]),
        }
    );
    assert_eq!(sent[3].purpose, Purpose::Optical);
    assert_eq!(sent[3].method, Method::Get);
    assert_eq!(sent[3].url, format!("{}/html/amp/opticinfo/opticinfo.asp", base));
    for (k, category) in [Category::Device, Category::Wan, Category::Lan].iter().enumerate() {
        for i in 0..4 {
            let request = &sent[4 + 4 * k + i];
            assert_eq!(request.purpose, Purpose::Page(*category));
            assert_eq!(request.method, Method::Get);
            assert_eq!(request.url, format!("{}{}", base, candidate_path(*category, i)));
            assert!(request.headers.is_empty() && request.form.is_empty());
        }
    }
    assert_eq!(sent[16].purpose, Purpose::Logout);
    assert_eq!(sent[16].url, format!("{}/logout.cgi?RequestFile=html/logout.html", base));
    assert_eq!(logouts(&sent), 1);
    let record = outcome.unwrap();
    assert_eq!(record.tx_power, "2.33");
}

#[test]
fn password_is_sent_in_base64() {
    let client = OntClient::new("http://h", "user", "p\u{e4}ss w0rd!");
    let (sent, _) = run(&client, good_until_optical);
    assert_eq!(sent[2].form[0], ("UserName".to_string(), "user".to_string()));
    assert_eq!(sent[2].form[1], ("PassWord".to_string(), "cMOkc3MgdzByZCE=".to_string()));
    let client = OntClient::new("http://h", "user", "");
    let (sent, _) = run(&client, good_until_optical);
    assert_eq!(sent[2].form[1], ("PassWord".to_string(), "".to_string()));
}

#[test]
fn failed_optional_pages_leave_the_readings_and_nothing_else() {
    let client = OntClient::new("http://h", "u", "p");
    let (sent, outcome) = run(&client, |request| match request.purpose {
        Purpose::Page(Category::Device) => reply("Error 404 stDeviceInfo"),
        Purpose::Page(Category::Wan) => failed_status("CurrentWan.Status = 'Up'"),
        Purpose::Page(Category::Lan) => reply(""),
        _ => good_until_optical(request),
    });
    assert_eq!(sent.len(), 17);
    assert_eq!(logouts(&sent), 1);
    let record = outcome.unwrap();
    assert_eq!(record.tx_power.parse::<f64>().unwrap(), 2.33);
    assert_eq!(record.rx_power.parse::<f64>().unwrap(), -24.09);
    assert_eq!(record.voltage.parse::<f64>().unwrap(), 3364.0);
    assert_eq!(record.temperature.parse::<f64>().unwrap(), 47.0);
    assert_eq!(record.bias_current.parse::<f64>().unwrap(), 10.0);
    assert_eq!(record.device_model, None);
    assert_eq!(record.serial_number, None);
    assert_eq!(record.software_version, None);
    assert_eq!(record.hardware_version, None);
    assert_eq!(record.mac_address, None);
    assert_eq!(record.uptime_seconds, None);
    assert_eq!(record.wan_status, None);
    assert_eq!(record.wan_ip, None);
    assert_eq!(record.wan_rx_bytes, None);
    assert_eq!(record.wan_tx_bytes, None);
    assert_eq!(record.lan_clients_count, None);
    assert_eq!(record.wifi_clients_count, None);
    assert_eq!(record.total_clients_count, None);
}

const LABELLED_OPTICAL_PAGE: &str = r#"
    new stOpticInfo("dom","ok","1.5","-20","3300","40","12");
    ProductClass = 'HG8245' SerialNumber: "SN1" SoftwareVersion="V3" UpTime="55"
    new stDeviceInfo("x","HW9","4242424")
    WANStatus: "Connected" WANIP = "10.0.0.2" RXBytes=1234 TXBytes: 99
    CurrentWan.Status = 'Up' IPv4IPAddress = "10.0.0.3"
    LANClients=3 WiFiClients: 7 new USERDevice("a","LAN1")
"#;

fn assert_no_device_fields(record: &OntMetrics) {
    assert_eq!(record.device_model, None);
    assert_eq!(record.serial_number, None);
    assert_eq!(record.software_version, None);
    assert_eq!(record.hardware_version, None);
    assert_eq!(record.mac_address, None);
    assert_eq!(record.uptime_seconds, None);
}

fn assert_no_wan_fields(record: &OntMetrics) {
    assert_eq!(record.wan_status, None);
    assert_eq!(record.wan_ip, None);
    assert_eq!(record.wan_rx_bytes, None);
    assert_eq!(record.wan_tx_bytes, None);
}

fn assert_no_client_fields(record: &OntMetrics) {
    assert_eq!(record.lan_clients_count, None);
    assert_eq!(record.wifi_clients_count, None);
    assert_eq!(record.total_clients_count, None);
}

#[test]
fn optical_response_gives_the_readings_alone() {
    let record = classify_optical(&reply(LABELLED_OPTICAL_PAGE)).unwrap();
    assert_eq!(record.tx_power, "1.5");
    assert_eq!(record.rx_power, "-20");
    assert_eq!(record.voltage, "3300");
    assert_eq!(record.temperature, "40");
    assert_eq!(record.bias_current, "12");
    assert_no_device_fields(&record);
    assert_no_wan_fields(&record);
    assert_no_client_fields(&record);
}

#[test]
fn fields_of_a_failed_page_are_absent_whatever_the_optical_page_holds() {
    let client = OntClient::new("http://h", "u", "p");
    let (sent, outcome) = run(&client, |request| match request.purpose {
        Purpose::Optical => reply(LABELLED_OPTICAL_PAGE),
        _ => good_until_optical(request),
    });
    assert_eq!(sent.len(), 17);
    let record = outcome.unwrap();
    assert_eq!(record.tx_power.parse::<f64>().unwrap(), 1.5);
    assert_eq!(record.rx_power.parse::<f64>().unwrap(), -20.0);
    assert_eq!(record.voltage.parse::<f64>().unwrap(), 3300.0);
    assert_eq!(record.temperature.parse::<f64>().unwrap(), 40.0);
    assert_eq!(record.bias_current.parse::<f64>().unwrap(), 12.0);
    assert_no_device_fields(&record);
    assert_no_wan_fields(&record);
    assert_no_client_fields(&record);
}

#[test]
fn one_failed_page_leaves_its_fields_absent_and_the_others_filled() {
    let client = OntClient::new("http://h", "u", "p");
    for failing in [Category::Device, Category::Wan, Category::Lan] {
        let (_, outcome) = run(&client, |request| match request.purpose {
            Purpose::Optical => reply(LABELLED_OPTICAL_PAGE),
            Purpose::Page(category) if category == failing => Response::Unreachable,
            Purpose::Page(Category::Device) => {
                reply(r#"new stDeviceInfo("d","SN9","HW","SW","MODEL","","","MAC","777777")"#)
            }
            Purpose::Page(Category::Wan) => {
                reply("CurrentWan.Status = 'Connected' IPv4IPAddress='1.2.3.4' RXBytes=1 TXBytes=2")
            }
            Purpose::Page(Category::Lan) => reply(r#"new USERDevice("a","LAN1")"#),
            _ => good_until_optical(request),
        });
        let record = outcome.unwrap();
        assert_eq!(record.tx_power, "1.5");
        match failing {
            Category::Device => assert_no_device_fields(&record),
            Category::Wan => assert_no_wan_fields(&record),
            Category::Lan => assert_no_client_fields(&record),
        }
        if failing != Category::Device {
            assert_eq!(record.serial_number, Some("SN9".to_string()));
            assert_eq!(record.mac_address, Some("MAC".to_string()));
            assert_eq!(record.uptime_seconds, Some(777777));
        }
        if failing != Category::Wan {
            assert_eq!(record.wan_status, Some("Connected".to_string()));
            assert_eq!(record.wan_ip, Some("1.2.3.4".to_string()));
            assert_eq!(record.wan_rx_bytes, Some(1));
            assert_eq!(record.wan_tx_bytes, Some(2));
        }
        if failing != Category::Lan {
            assert_eq!(record.total_clients_count, Some(1));
            assert_eq!(record.lan_clients_count, Some(1));
            assert_eq!(record.wifi_clients_count, None);
        }
    }
}

#[test]
fn first_acceptable_candidate_is_used() {
    let client = OntClient::new("http://h", "u", "p");
    let (sent, outcome) = run(&client, |request| match request.purpose {
        Purpose::Page(Category::Device) => {
            if request.url.ends_with(candidate_path(Category::Device, 2)) {
                reply(r#"new stDeviceInfo("d","SN9","HW","SW","MODEL","","","MAC") UpTime=10"#)
            } else {
                reply("wrong page")
            }
        }
        Purpose::Page(Category::Wan) => reply("CurrentWan.Status = 'Connected'"),
        Purpose::Page(Category::Lan) => {
            if request.url.ends_with(candidate_path(Category::Lan, 3)) {
                reply(r#"new USERDevice("a","LAN1") new USERDevice("b","SSID2")"#)
            } else {
                Response::Unreachable
            }
        }
        _ => good_until_optical(request),
    });
    let purposes: Vec<Purpose> = sent.iter().map(|r| r.purpose).collect();
    assert_eq!(
        purposes,
        vec![
            Purpose::Cookie,
            Purpose::Token,
            Purpose::Login,
            Purpose::Optical,
            Purpose::Page(Category::Device),
            Purpose::Page(Category::Device),
            Purpose::Page(Category::Device),
            Purpose::Page(Category::Wan),
            Purpose::Page(Category::Lan),
            Purpose::Page(Category::Lan),
            Purpose::Page(Category::Lan),
            Purpose::Page(Category::Lan),
            Purpose::Logout,
        ]
    );
    let record = outcome.unwrap();
    assert_eq!(record.serial_number, Some("SN9".to_string()));
    assert_eq!(record.hardware_version, Some("HW".to_string()));
    assert_eq!(record.software_version, Some("SW".to_string()));
    assert_eq!(record.device_model, Some("MODEL".to_string()));
    assert_eq!(record.mac_address, Some("MAC".to_string()));
    assert_eq!(record.uptime_seconds, Some(10));
    assert_eq!(record.wan_status, Some("Connected".to_string()));
    assert_eq!(record.total_clients_count, Some(2));
    assert_eq!(record.lan_clients_count, Some(1));
    assert_eq!(record.wifi_clients_count, Some(1));
    assert_eq!(record.tx_power, "2.33");
}

#[test]
fn token_failure_is_an_authentication_failure_and_still_logs_out() {
    let client = OntClient::new("http://h", "u", "p");
    for bad in [
        Response::Unreachable,
        failed_status("tok"),
        Response::Reply { success: true, body: None },
    ] {
        let (sent, outcome) = run(&client, |request| match request.purpose {
            Purpose::Token => bad.clone(),
            _ => good_until_optical(request),
        });
        assert_eq!(outcome, Err(ScrapeError::AuthenticationFailure));
        let purposes: Vec<Purpose> = sent.iter().map(|r| r.purpose).collect();
        assert_eq!(purposes, vec![Purpose::Cookie, Purpose::Token, Purpose::Logout]);
    }
}

#[test]
fn rejected_login_is_an_authentication_failure_and_still_logs_out() {
    let client = OntClient::new("http://h", "u", "p");
    let (sent, outcome) = run(&client, |request| match request.purpose {
        Purpose::Login => reply("<form action='login.asp'>"),
        _ => good_until_optical(request),
    });
    assert_eq!(outcome, Err(ScrapeError::AuthenticationFailure));
    let purposes: Vec<Purpose> = sent.iter().map(|r| r.purpose).collect();
    assert_eq!(purposes, vec![Purpose::Cookie, Purpose::Token, Purpose::Login, Purpose::Logout]);
}

#[test]
fn optical_failures_abort_with_their_error_and_still_log_out() {
    let client = OntClient::new("http://h", "u", "p");
    let cases = [
        (Response::Unreachable, ScrapeError::TransportFailure),
        (failed_status(OPTICAL_PAGE), ScrapeError::PageNotFound),
        (reply("<html>no optics</html>"), ScrapeError::ExtractionFailure),
        (Response::Reply { success: true, body: None }, ScrapeError::TransportFailure),
    ];
    for (response, error) in cases {
        let (sent, outcome) = run(&client, |request| match request.purpose {
            Purpose::Optical => response.clone(),
            _ => good_until_optical(request),
        });
        assert_eq!(outcome, Err(error));
        assert_eq!(sent.len(), 5);
        assert_eq!(sent[4].purpose, Purpose::Logout);
        assert_eq!(logouts(&sent), 1);
    }
}

#[test]
fn login_transport_failure_aborts() {
    let client = OntClient::new("http://h", "u", "p");
    let (sent, outcome) = run(&client, |request| match request.purpose {
        Purpose::Login => Response::Unreachable,
        _ => good_until_optical(request),
    });
    assert_eq!(outcome, Err(ScrapeError::TransportFailure));
    assert_eq!(sent.len(), 4);
    assert_eq!(logouts(&sent), 1);
}

#[test]
fn error_messages_differ() {
    let all = [
        ScrapeError::AuthenticationFailure,
        ScrapeError::TransportFailure,
        ScrapeError::PageNotFound,
        ScrapeError::ExtractionFailure,
    ];
    for a in all {
        for b in all {
            assert_eq!(a == b, a.message() == b.message());
        }
    }
}
