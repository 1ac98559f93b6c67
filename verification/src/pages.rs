//! The parsers of the optional pages: device, WAN and clients.
//!
//! None of them fails. Each gives the fields it found and leaves the others
//! absent.

use vstd::prelude::*;
use crate::literal::{arguments_in_range, call_arguments, call_span, call_span_range};
use crate::number::{first_long_run, first_long_run_range, first_parsed_u64, first_u64_in};
use crate::parser::{number_in, optional_u64, RX_BYTES_LABEL, TX_BYTES_LABEL};
use crate::pattern::{capture_first, count_matches, first_capture, match_count};
use crate::text::{chars_of, string_of_range};

verus! {

/// The construct that carries the device data.
pub const DEVICE_CONSTRUCT: &'static str = "stDeviceInfo";

/// The uptime, as the digits behind `UpTime`.
pub const UPTIME_LABEL: &'static str = r"UpTime[=:]\s*(\d+)";

/// How many digits a number in the device call must have at least to be
/// taken for the uptime.
pub const LONG_NUMBER_DIGITS: usize = 5;

/// The WAN status, as the quoted value of `CurrentWan.Status`.
pub const CURRENT_WAN_STATUS: &'static str = r#"CurrentWan\.Status\s*=\s*['"]([^'"]+)['"]"#;

/// The WAN address, as the quoted dotted quad under `IPv4IPAddress`.
pub const IPV4_ADDRESS: &'static str = r#"IPv4IPAddress\s*=\s*['"](\d+\.\d+\.\d+\.\d+)['"]"#;

/// The WAN address, as the quoted dotted quad under a quoted `IPAddress` key.
pub const LISTED_ADDRESS: &'static str = r#"IPAddress['"]\s*[=:]\s*['"](\d+\.\d+\.\d+\.\d+)['"]"#;

/// The opening of a call of a client construct.
pub const CLIENT_CALL: &'static str = r"new\s+(?:USERDevice|USERDeviceNew)\(";

/// A call of a client construct with a quoted LAN port label among its arguments.
pub const LAN_CLIENT_CALL: &'static str =
    r#"new\s+(?:USERDevice|USERDeviceNew)\([^)]*"(LAN\d*)"[^)]*\)"#;

/// A call of a client construct with a quoted wireless label among its arguments.
pub const WIFI_CLIENT_CALL: &'static str =
    r#"new\s+(?:USERDevice|USERDeviceNew)\([^)]*"(SSID\d*)"[^)]*\)"#;

// ---------------------------------------------------------------------------
// Device page

/// What the device page gave.
#[derive(Clone, Debug, PartialEq, Eq)]
pub struct DevicePageInfo {
    pub model: Option<String>,
    pub serial: Option<String>,
    pub version: Option<String>,
    pub hardware_version: Option<String>,
    pub mac: Option<String>,
    pub uptime: Option<u64>,
}

/// What a `DevicePageInfo` holds, as mathematical values.
pub struct DevicePageView {
    pub model: Option<Seq<char>>,
    pub serial: Option<Seq<char>>,
    pub version: Option<Seq<char>>,
    pub hardware_version: Option<Seq<char>>,
    pub mac: Option<Seq<char>>,
    pub uptime: Option<u64>,
}

impl View for DevicePageInfo {
    type V = DevicePageView;

    open spec fn view(&self) -> DevicePageView {
        DevicePageView {
            model: self.model.deep_view(),
            serial: self.serial.deep_view(),
            version: self.version.deep_view(),
            hardware_version: self.hardware_version.deep_view(),
            mac: self.mac.deep_view(),
            uptime: self.uptime,
        }
    }
}

/// The argument at `position`, where the call was found and has that many.
pub open spec fn argument_at(args: Option<Seq<Seq<char>>>, position: int) -> Option<Seq<char>> {
    match args {
        Some(list) if 0 <= position < list.len() => Some(list[position]),
        _ => None,
    }
}

/// The device data, given the arguments of the device construct and the two
/// candidates for the uptime. The serial number is argument 1, the hardware
/// version 2, the software version 3, the model 4 and the MAC address 7.
/// The uptime is the first of its candidates that is there and spells a
/// number, the labelled one before the long number of the call.
pub open spec fn device_page_of(
    args: Option<Seq<Seq<char>>>,
    uptime_label: Option<Seq<char>>,
    long_number: Option<Seq<char>>,
) -> DevicePageView {
    DevicePageView {
        serial: argument_at(args, 1),
        hardware_version: argument_at(args, 2),
        version: argument_at(args, 3),
        model: argument_at(args, 4),
        mac: argument_at(args, 7),
        uptime: first_u64_in(seq![uptime_label, long_number]),
    }
}

/// The long number of the device call: the first number of five or more
/// digits in the text between the parentheses of the first call of the
/// device construct, whole, however many digits it has.
pub open spec fn long_number_of_call(html: Seq<char>) -> Option<Seq<char>> {
    match call_span(html, DEVICE_CONSTRUCT@) {
        Some(span) => first_long_run(span, LONG_NUMBER_DIGITS as int),
        None => None,
    }
}

/// The device data that a page gives.
pub open spec fn device_page(html: Seq<char>) -> DevicePageView {
    device_page_of(
        call_arguments(html, DEVICE_CONSTRUCT@),
        first_capture(UPTIME_LABEL@, html),
        long_number_of_call(html),
    )
}

/// The argument at `position`, where the call was found and has that many.
pub fn argument(args: &Option<Vec<String>>, position: usize) -> (r: Option<String>)
    ensures
        r.deep_view() == argument_at(args.deep_view(), position as int),
{
    match args {
        Some(list) => {
            if position < list.len() {
                proof {
                    assert(list.deep_view()[position as int] == list@[position as int]@);
                }
                Some(list[position].clone())
            } else {
                None
            }
        },
        None => None,
    }
}

/// The device data, given the arguments of the device construct, if it was
/// found, the labelled uptime and the long number of the call.
pub fn device_page_from(
    args: Option<Vec<String>>,
    uptime_label: Option<String>,
    long_number: Option<String>,
) -> (r: DevicePageInfo)
    ensures
        r@ == device_page_of(args.deep_view(), uptime_label.deep_view(), long_number.deep_view()),
{
    let mut candidates: Vec<Option<String>> = Vec::new();
    candidates.push(uptime_label);
    candidates.push(long_number);
    proof {
        assert(candidates.deep_view() == seq![uptime_label.deep_view(), long_number.deep_view()]);
    }
    DevicePageInfo {
        serial: argument(&args, 1),
        hardware_version: argument(&args, 2),
        version: argument(&args, 3),
        model: argument(&args, 4),
        mac: argument(&args, 7),
        uptime: first_parsed_u64(&candidates),
    }
}

/// Parses the device page.
pub fn parse_device_info_page(html: &str) -> (r: DevicePageInfo)
    ensures
        r@ == device_page(html@),
{
    let page = chars_of(html);
    let (args, long_number) = match call_span_range(&page, DEVICE_CONSTRUCT) {
        Some((start, end)) => {
            let long_number = match first_long_run_range(&page, start, end, LONG_NUMBER_DIGITS) {
                Some((a, b)) => Some(string_of_range(&page, a, b)),
                None => None,
            };
            (Some(arguments_in_range(&page, start, end)), long_number)
        },
        None => (None, None),
    };
    device_page_from(args, capture_first(UPTIME_LABEL, html), long_number)
}

// ---------------------------------------------------------------------------
// WAN page

/// What the WAN page gave.
#[derive(Clone, Debug, PartialEq, Eq)]
pub struct WanPageInfo {
    pub status: Option<String>,
    pub ip: Option<String>,
    pub rx_bytes: Option<u64>,
    pub tx_bytes: Option<u64>,
}

/// What a `WanPageInfo` holds, as mathematical values.
pub struct WanPageView {
    pub status: Option<Seq<char>>,
    pub ip: Option<Seq<char>>,
    pub rx_bytes: Option<u64>,
    pub tx_bytes: Option<u64>,
}

impl View for WanPageInfo {
    type V = WanPageView;

    open spec fn view(&self) -> WanPageView {
        WanPageView {
            status: self.status.deep_view(),
            ip: self.ip.deep_view(),
            rx_bytes: self.rx_bytes,
            tx_bytes: self.tx_bytes,
        }
    }
}

/// The first of two optional values that is there.
pub open spec fn first_present(
    first: Option<Seq<char>>,
    second: Option<Seq<char>>,
) -> Option<Seq<char>> {
    if first is Some {
        first
    } else {
        second
    }
}

/// The WAN data, given what each search captured. The address is the one
/// under the first key where that was found, else the one under the second.
/// A counter is there where its text spells a number.
pub open spec fn wan_page_of(
    status: Option<Seq<char>>,
    address: Option<Seq<char>>,
    listed_address: Option<Seq<char>>,
    rx_bytes: Option<Seq<char>>,
    tx_bytes: Option<Seq<char>>,
) -> WanPageView {
    WanPageView {
        status,
        ip: first_present(address, listed_address),
        rx_bytes: optional_u64(rx_bytes),
        tx_bytes: optional_u64(tx_bytes),
    }
}

/// The WAN data that a page gives.
pub open spec fn wan_page(html: Seq<char>) -> WanPageView {
    wan_page_of(
        first_capture(CURRENT_WAN_STATUS@, html),
        first_capture(IPV4_ADDRESS@, html),
        first_capture(LISTED_ADDRESS@, html),
        first_capture(RX_BYTES_LABEL@, html),
        first_capture(TX_BYTES_LABEL@, html),
    )
}

/// The WAN data, given what each search captured.
pub fn wan_page_from(
    status: Option<String>,
    address: Option<String>,
    listed_address: Option<String>,
    rx_bytes: Option<String>,
    tx_bytes: Option<String>,
) -> (r: WanPageInfo)
    ensures
        r@ == wan_page_of(
            status.deep_view(),
            address.deep_view(),
            listed_address.deep_view(),
            rx_bytes.deep_view(),
            tx_bytes.deep_view(),
        ),
{
    let ip = if address.is_some() {
        address
    } else {
        listed_address
    };
    let rx = number_in(&rx_bytes);
    let tx = number_in(&tx_bytes);
    WanPageInfo { status, ip, rx_bytes: rx, tx_bytes: tx }
}

/// Parses the WAN page.
pub fn parse_wan_page(html: &str) -> (r: WanPageInfo)
    ensures
        r@ == wan_page(html@),
{
    wan_page_from(
        capture_first(CURRENT_WAN_STATUS, html),
        capture_first(IPV4_ADDRESS, html),
        capture_first(LISTED_ADDRESS, html),
        capture_first(RX_BYTES_LABEL, html),
        capture_first(TX_BYTES_LABEL, html),
    )
}

// ---------------------------------------------------------------------------
// Client page

/// What the client page gave.
#[derive(Clone, Copy, Debug, PartialEq, Eq, Structural)]
pub struct ClientPageInfo {
    pub lan_count: Option<u32>,
    pub wifi_count: Option<u32>,
    pub total_count: Option<u32>,
}

/// A count as the record keeps it: in 32 bits, and absent where that is zero.
pub open spec fn recorded_count(count: usize) -> Option<u32> {
    if count as u32 > 0 {
        Some(count as u32)
    } else {
        None
    }
}

/// The client data, given how many client calls the page holds, and how
/// many of them carry a LAN port label and how many a wireless one. Where
/// there is no client call, nothing is recorded; else each count that is
/// not zero.
pub open spec fn client_page_of(total: usize, lan: usize, wifi: usize) -> ClientPageInfo {
    if recorded_count(total) is Some {
        ClientPageInfo {
            total_count: recorded_count(total),
            lan_count: recorded_count(lan),
            wifi_count: recorded_count(wifi),
        }
    } else {
        ClientPageInfo { total_count: None, lan_count: None, wifi_count: None }
    }
}

/// The client data that a page gives.
pub open spec fn client_page(html: Seq<char>) -> ClientPageInfo {
    client_page_of(
        match_count(CLIENT_CALL@, html) as usize,
        match_count(LAN_CLIENT_CALL@, html) as usize,
        match_count(WIFI_CLIENT_CALL@, html) as usize,
    )
}

/// A count as the record keeps it.
pub fn record_count(count: usize) -> (r: Option<u32>)
    ensures
        r == recorded_count(count),
{
    let kept: u32 = #[verifier::truncate]
    (count as u32);
    if kept > 0 {
        Some(kept)
    } else {
        None
    }
}

/// The client data, given the three counts.
pub fn client_page_from(total: usize, lan: usize, wifi: usize) -> (r: ClientPageInfo)
    ensures
        r == client_page_of(total, lan, wifi),
{
    let total_count = record_count(total);
    if total_count.is_some() {
        ClientPageInfo {
            total_count,
            lan_count: record_count(lan),
            wifi_count: record_count(wifi),
        }
    } else {
        ClientPageInfo { total_count: None, lan_count: None, wifi_count: None }
    }
}

/// Parses the client page.
pub fn parse_lan_page(html: &str) -> (r: ClientPageInfo)
    ensures
        r == client_page(html@),
{
    let total = count_matches(CLIENT_CALL, html);
    let lan = count_matches(LAN_CLIENT_CALL, html);
    let wifi = count_matches(WIFI_CLIENT_CALL, html);
    client_page_from(total, lan, wifi)
}

} // verus!
