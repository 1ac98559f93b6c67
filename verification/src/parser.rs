//! The telemetry record and the parsers of the optical page.
//!
//! The optical page carries the five mandatory readings as arguments of one
//! pseudo-constructor call; `parse_optical_page` reads those and nothing
//! else. Some firmware builds also print device, WAN and client data as
//! labelled values; `parse_ont_metrics` reads a page for both.

use vstd::prelude::*;
use crate::error::ScrapeError;
use crate::escape::{decode_hex, decode_range};
use crate::literal::{call_arguments, call_opening, extract_call_args};
use crate::number::{is_reading, is_reading_text, parse_u32, parse_u64, first_parsed_u64, first_u64_in, u32_in, u64_in};
use crate::pattern::{capture_first, first_capture};
use crate::text::{chars_of, contains, trim, trim_text};

verus! {

/// The construct that carries the optical readings.
pub const OPTICAL_CONSTRUCT: &'static str = "stOpticInfo";

/// How many arguments the optical construct must have at least.
pub const OPTICAL_ARGUMENTS: usize = 7;

/// The model, as the quoted value of `ProductClass`.
pub const MODEL_LABEL: &'static str = r#"ProductClass["']?\s*[=:]\s*["']([^"']+)["']"#;

/// The serial number, as the quoted value of `SerialNumber`.
pub const SERIAL_LABEL: &'static str = r#"SerialNumber["']?\s*[=:]\s*["']([^"']+)["']"#;

/// The software version, as the quoted value of `SoftwareVersion`.
pub const VERSION_LABEL: &'static str = r#"SoftwareVersion["']?\s*[=:]\s*["']([^"']+)["']"#;

/// The uptime, as a quoted argument of digits in a call of the device construct.
pub const UPTIME_QUOTED_ARGUMENT: &'static str = r#"new stDeviceInfo\([^)]*"(\d+)"[^)]*\)"#;

/// The uptime, as the value of `UpTime`, quoted or not.
pub const UPTIME_QUOTED_LABEL: &'static str = r#"UpTime[=:]\s*["']?(\d+)["']?"#;

/// The WAN status, as the quoted value of `WANStatus`.
pub const WAN_STATUS_LABEL: &'static str = r#"WANStatus["']?\s*[=:]\s*["']([^"']+)["']"#;

/// The WAN address, as the quoted dotted quad under `WANIP`.
pub const WAN_IP_LABEL: &'static str = r#"WANIP["']?\s*[=:]\s*["'](\d+\.\d+\.\d+\.\d+)["']"#;

/// The bytes received, as the digits behind `RXBytes`.
pub const RX_BYTES_LABEL: &'static str = r"RXBytes[=:]\s*(\d+)";

/// The bytes sent, as the digits behind `TXBytes`.
pub const TX_BYTES_LABEL: &'static str = r"TXBytes[=:]\s*(\d+)";

/// The number of LAN clients, as the digits behind `LANClients`.
pub const LAN_CLIENTS_LABEL: &'static str = r"LANClients[=:]\s*(\d+)";

/// The number of wireless clients, as the digits behind `WiFiClients`.
pub const WIFI_CLIENTS_LABEL: &'static str = r"WiFiClients[=:]\s*(\d+)";

// ---------------------------------------------------------------------------
// The record

/// One scrape's telemetry. The five readings are always there; each is kept
/// in the decimal notation in which the device wrote it, trimmed. Every
/// other field is there or absent on its own.
#[derive(Clone, Debug, PartialEq, Eq)]
pub struct OntMetrics {
    pub tx_power: String,
    pub rx_power: String,
    pub voltage: String,
    pub bias_current: String,
    pub temperature: String,
    pub device_model: Option<String>,
    pub serial_number: Option<String>,
    pub software_version: Option<String>,
    pub hardware_version: Option<String>,
    pub mac_address: Option<String>,
    pub uptime_seconds: Option<u64>,
    pub wan_status: Option<String>,
    pub wan_ip: Option<String>,
    pub wan_rx_bytes: Option<u64>,
    pub wan_tx_bytes: Option<u64>,
    pub lan_clients_count: Option<u32>,
    pub wifi_clients_count: Option<u32>,
    pub total_clients_count: Option<u32>,
}

/// What an `OntMetrics` holds, as mathematical values.
pub struct OntMetricsView {
    pub tx_power: Seq<char>,
    pub rx_power: Seq<char>,
    pub voltage: Seq<char>,
    pub bias_current: Seq<char>,
    pub temperature: Seq<char>,
    pub device_model: Option<Seq<char>>,
    pub serial_number: Option<Seq<char>>,
    pub software_version: Option<Seq<char>>,
    pub hardware_version: Option<Seq<char>>,
    pub mac_address: Option<Seq<char>>,
    pub uptime_seconds: Option<u64>,
    pub wan_status: Option<Seq<char>>,
    pub wan_ip: Option<Seq<char>>,
    pub wan_rx_bytes: Option<u64>,
    pub wan_tx_bytes: Option<u64>,
    pub lan_clients_count: Option<u32>,
    pub wifi_clients_count: Option<u32>,
    pub total_clients_count: Option<u32>,
}

impl View for OntMetrics {
    type V = OntMetricsView;

    open spec fn view(&self) -> OntMetricsView {
        OntMetricsView {
            tx_power: self.tx_power@,
            rx_power: self.rx_power@,
            voltage: self.voltage@,
            bias_current: self.bias_current@,
            temperature: self.temperature@,
            device_model: self.device_model.deep_view(),
            serial_number: self.serial_number.deep_view(),
            software_version: self.software_version.deep_view(),
            hardware_version: self.hardware_version.deep_view(),
            mac_address: self.mac_address.deep_view(),
            uptime_seconds: self.uptime_seconds,
            wan_status: self.wan_status.deep_view(),
            wan_ip: self.wan_ip.deep_view(),
            wan_rx_bytes: self.wan_rx_bytes,
            wan_tx_bytes: self.wan_tx_bytes,
            lan_clients_count: self.lan_clients_count,
            wifi_clients_count: self.wifi_clients_count,
            total_clients_count: self.total_clients_count,
        }
    }
}

impl OntMetricsView {
    /// Every one of the five readings is in decimal notation.
    pub open spec fn well_formed(self) -> bool {
        &&& is_reading(self.tx_power)
        &&& is_reading(self.rx_power)
        &&& is_reading(self.voltage)
        &&& is_reading(self.bias_current)
        &&& is_reading(self.temperature)
    }

    /// The record with every reading `0` and every optional field absent.
    pub open spec fn empty() -> OntMetricsView {
        OntMetricsView {
            tx_power: "0"@,
            rx_power: "0"@,
            voltage: "0"@,
            bias_current: "0"@,
            temperature: "0"@,
            device_model: None,
            serial_number: None,
            software_version: None,
            hardware_version: None,
            mac_address: None,
            uptime_seconds: None,
            wan_status: None,
            wan_ip: None,
            wan_rx_bytes: None,
            wan_tx_bytes: None,
            lan_clients_count: None,
            wifi_clients_count: None,
            total_clients_count: None,
        }
    }

    /// The five readings of the record.
    pub open spec fn optical(self) -> OpticalView {
        OpticalView {
            tx_power: self.tx_power,
            rx_power: self.rx_power,
            voltage: self.voltage,
            bias_current: self.bias_current,
            temperature: self.temperature,
        }
    }

    /// The record with its five readings replaced.
    pub open spec fn with_optical(self, optical: OpticalView) -> OntMetricsView {
        OntMetricsView {
            tx_power: optical.tx_power,
            rx_power: optical.rx_power,
            voltage: optical.voltage,
            bias_current: optical.bias_current,
            temperature: optical.temperature,
            ..self
        }
    }

    /// The record with the device fields that labelled values give.
    pub open spec fn with_labelled_device(self, device: DeviceInfoView) -> OntMetricsView {
        OntMetricsView {
            device_model: device.model,
            serial_number: device.serial,
            software_version: device.version,
            uptime_seconds: device.uptime,
            ..self
        }
    }

    /// The record with its WAN fields replaced.
    pub open spec fn with_wan(self, wan: WanMetricsView) -> OntMetricsView {
        OntMetricsView {
            wan_status: wan.status,
            wan_ip: wan.ip,
            wan_rx_bytes: wan.rx_bytes,
            wan_tx_bytes: wan.tx_bytes,
            ..self
        }
    }

    /// The record with the client counts that labelled values give.
    pub open spec fn with_labelled_clients(self, clients: ClientMetricsView) -> OntMetricsView {
        OntMetricsView {
            lan_clients_count: clients.lan_count,
            wifi_clients_count: clients.wifi_count,
            ..self
        }
    }
}

impl OntMetrics {
    /// Every one of the five readings is in decimal notation.
    pub open spec fn well_formed(&self) -> bool {
        self@.well_formed()
    }
}

impl Default for OntMetrics {
    /// The record with every reading `0` and every optional field absent.
    fn default() -> (r: OntMetrics)
        ensures
            r@ == OntMetricsView::empty(),
    {
        OntMetrics {
            tx_power: "0".to_owned(),
            rx_power: "0".to_owned(),
            voltage: "0".to_owned(),
            bias_current: "0".to_owned(),
            temperature: "0".to_owned(),
            device_model: None,
            serial_number: None,
            software_version: None,
            hardware_version: None,
            mac_address: None,
            uptime_seconds: None,
            wan_status: None,
            wan_ip: None,
            wan_rx_bytes: None,
            wan_tx_bytes: None,
            lan_clients_count: None,
            wifi_clients_count: None,
            total_clients_count: None,
        }
    }
}

/// The view of a result's value, the error kept.
pub open spec fn viewed<T: View>(r: Result<T, ScrapeError>) -> Result<T::V, ScrapeError> {
    match r {
        Ok(value) => Ok(value@),
        Err(e) => Err(e),
    }
}

// ---------------------------------------------------------------------------
// The optical readings

/// The five mandatory readings, each in decimal notation.
#[derive(Clone, Debug, PartialEq, Eq)]
pub struct OpticalReadings {
    pub tx_power: String,
    pub rx_power: String,
    pub voltage: String,
    pub bias_current: String,
    pub temperature: String,
}

/// What an `OpticalReadings` holds, as mathematical values.
pub struct OpticalView {
    pub tx_power: Seq<char>,
    pub rx_power: Seq<char>,
    pub voltage: Seq<char>,
    pub bias_current: Seq<char>,
    pub temperature: Seq<char>,
}

impl View for OpticalReadings {
    type V = OpticalView;

    open spec fn view(&self) -> OpticalView {
        OpticalView {
            tx_power: self.tx_power@,
            rx_power: self.rx_power@,
            voltage: self.voltage@,
            bias_current: self.bias_current@,
            temperature: self.temperature@,
        }
    }
}

impl OpticalView {
    /// Every one of the five readings is in decimal notation.
    pub open spec fn well_formed(self) -> bool {
        &&& is_reading(self.tx_power)
        &&& is_reading(self.rx_power)
        &&& is_reading(self.voltage)
        &&& is_reading(self.bias_current)
        &&& is_reading(self.temperature)
    }
}

/// The readings by position: transmit power is argument 2, receive power 3,
/// voltage 4, temperature 5, bias current 6, each trimmed.
pub open spec fn readings_at_positions(args: Seq<Seq<char>>) -> OpticalView
    recommends
        args.len() >= 7,
{
    OpticalView {
        tx_power: trim(args[2]),
        rx_power: trim(args[3]),
        voltage: trim(args[4]),
        temperature: trim(args[5]),
        bias_current: trim(args[6]),
    }
}

/// The readings that the arguments of the optical construct give: those at
/// the five positions, if there are at least seven arguments and each of
/// the five is a number; else an extraction failure.
pub open spec fn optical_from_arguments(args: Seq<Seq<char>>) -> Result<OpticalView, ScrapeError> {
    if args.len() >= 7 && readings_at_positions(args).well_formed() {
        Ok(readings_at_positions(args))
    } else {
        Err(ScrapeError::ExtractionFailure)
    }
}

/// The readings that a page gives: those of the arguments of its first
/// optical construct; an extraction failure where it holds none.
pub open spec fn optical_readings(html: Seq<char>) -> Result<OpticalView, ScrapeError> {
    match call_arguments(html, OPTICAL_CONSTRUCT@) {
        None => Err(ScrapeError::ExtractionFailure),
        Some(args) => optical_from_arguments(args),
    }
}

/// A page in which the opening of the optical construct stands nowhere
/// gives an extraction failure, and so no record at all.
pub proof fn lemma_absent_construct_fails(html: Seq<char>)
    requires
        !contains(html, call_opening(OPTICAL_CONSTRUCT@)),
    ensures
        optical_readings(html) == Err::<OpticalView, ScrapeError>(ScrapeError::ExtractionFailure),
        optical_record(html) == Err::<OntMetricsView, ScrapeError>(ScrapeError::ExtractionFailure),
        page_metrics(html) == Err::<OntMetricsView, ScrapeError>(ScrapeError::ExtractionFailure),
{
}

/// Arguments behind the seventh change nothing: the readings are those of
/// the first seven arguments, whatever follows them.
pub proof fn lemma_trailing_arguments_ignored(args: Seq<Seq<char>>, more: Seq<Seq<char>>)
    requires
        args.len() >= 7,
    ensures
        optical_from_arguments(args + more) == optical_from_arguments(args),
        optical_from_arguments(args) == optical_from_arguments(args.take(7)),
{
    let all = args + more;
    assert(forall|i: int| 0 <= i < 7 ==> all[i] == args[i]);
    assert(forall|i: int| 0 <= i < 7 ==> args.take(7)[i] == args[i]);
}

/// Where every one of the five arguments is a number once trimmed, the
/// extraction succeeds and maps each position to its field.
pub proof fn lemma_numeric_arguments_give_readings(args: Seq<Seq<char>>)
    requires
        args.len() >= 7,
        forall|i: int| 2 <= i <= 6 ==> is_reading(trim(#[trigger] args[i])),
    ensures
        optical_from_arguments(args) == Ok::<OpticalView, ScrapeError>(
            OpticalView {
                tx_power: trim(args[2]),
                rx_power: trim(args[3]),
                voltage: trim(args[4]),
                temperature: trim(args[5]),
                bias_current: trim(args[6]),
            },
        ),
{
}

/// The readings that the arguments of the optical construct give.
pub fn optical_from_args(args: &Vec<String>) -> (r: Result<OpticalReadings, ScrapeError>)
    ensures
        viewed(r) == optical_from_arguments(args.deep_view()),
{
    if args.len() < OPTICAL_ARGUMENTS {
        return Err(ScrapeError::ExtractionFailure);
    }
    let ghost texts = args.deep_view();
    proof {
        assert(forall|i: int| 0 <= i < 7 ==> texts[i] == args@[i]@);
    }
    let tx_power = trim_text(args[2].as_str());
    let rx_power = trim_text(args[3].as_str());
    let voltage = trim_text(args[4].as_str());
    let temperature = trim_text(args[5].as_str());
    let bias_current = trim_text(args[6].as_str());
    if is_reading_text(tx_power.as_str()) && is_reading_text(rx_power.as_str()) && is_reading_text(
        voltage.as_str(),
    ) && is_reading_text(temperature.as_str()) && is_reading_text(bias_current.as_str()) {
        Ok(OpticalReadings { tx_power, rx_power, voltage, bias_current, temperature })
    } else {
        Err(ScrapeError::ExtractionFailure)
    }
}

/// Reads the five readings from a page into `metrics`. On failure `metrics`
/// is left as it was: no reading is set unless all five are.
pub fn parse_optical_metrics(html: &str, metrics: &mut OntMetrics) -> (r: Result<(), ScrapeError>)
    ensures
        match optical_readings(html@) {
            Ok(optical) => r is Ok && final(metrics)@ == old(metrics)@.with_optical(optical),
            Err(e) => r == Err::<(), ScrapeError>(e) && final(metrics)@ == old(metrics)@,
        },
{
    let args = match extract_call_args(html, OPTICAL_CONSTRUCT) {
        Ok(args) => args,
        Err(_) => {
            return Err(ScrapeError::ExtractionFailure);
        },
    };
    match optical_from_args(&args) {
        Ok(optical) => {
            metrics.tx_power = optical.tx_power;
            metrics.rx_power = optical.rx_power;
            metrics.voltage = optical.voltage;
            metrics.bias_current = optical.bias_current;
            metrics.temperature = optical.temperature;
            Ok(())
        },
        Err(e) => Err(e),
    }
}

/// The record that the readings of a page make on their own: the five
/// readings, and every optional field absent.
pub open spec fn optical_record(html: Seq<char>) -> Result<OntMetricsView, ScrapeError> {
    match optical_readings(html) {
        Ok(optical) => Ok(OntMetricsView::empty().with_optical(optical)),
        Err(e) => Err(e),
    }
}

/// A record made of the readings of a page has them in decimal notation,
/// and no optional field.
pub proof fn lemma_optical_record(html: Seq<char>)
    ensures
        optical_record(html) matches Ok(record) ==> {
            &&& record.well_formed()
            &&& record == OntMetricsView::empty().with_optical(record.optical())
        },
{
}

/// Parses the optical page into a record of the five readings alone.
pub fn parse_optical_page(html: &str) -> (r: Result<OntMetrics, ScrapeError>)
    ensures
        viewed(r) == optical_record(html@),
        r matches Ok(metrics) ==> metrics.well_formed(),
{
    let mut metrics = OntMetrics::default();
    match parse_optical_metrics(html, &mut metrics) {
        Ok(()) => Ok(metrics),
        Err(e) => Err(e),
    }
}

// ---------------------------------------------------------------------------
// Labelled values on the optical page

/// The number that an optional text spells, if it is there and spells one.
pub open spec fn optional_u64(text: Option<Seq<char>>) -> Option<u64> {
    match text {
        Some(t) => u64_in(t),
        None => None,
    }
}

/// The same for 32 bits.
pub open spec fn optional_u32(text: Option<Seq<char>>) -> Option<u32> {
    match text {
        Some(t) => u32_in(t),
        None => None,
    }
}

/// The number that an optional text spells, if it is there and spells one.
pub fn number_in(text: &Option<String>) -> (r: Option<u64>)
    ensures
        r == optional_u64(text.deep_view()),
{
    match text {
        Some(t) => parse_u64(t.as_str()),
        None => None,
    }
}

/// The same for 32 bits.
pub fn small_number_in(text: &Option<String>) -> (r: Option<u32>)
    ensures
        r == optional_u32(text.deep_view()),
{
    match text {
        Some(t) => parse_u32(t.as_str()),
        None => None,
    }
}

/// Device data found as labelled values.
#[derive(Clone, Debug, PartialEq, Eq)]
pub struct DeviceInfo {
    pub model: Option<String>,
    pub serial: Option<String>,
    pub version: Option<String>,
    pub uptime: Option<u64>,
}

/// What a `DeviceInfo` holds, as mathematical values.
pub struct DeviceInfoView {
    pub model: Option<Seq<char>>,
    pub serial: Option<Seq<char>>,
    pub version: Option<Seq<char>>,
    pub uptime: Option<u64>,
}

impl View for DeviceInfo {
    type V = DeviceInfoView;

    open spec fn view(&self) -> DeviceInfoView {
        DeviceInfoView {
            model: self.model.deep_view(),
            serial: self.serial.deep_view(),
            version: self.version.deep_view(),
            uptime: self.uptime,
        }
    }
}

/// The device data, given what each search captured. The uptime is the
/// first of its two candidates that is there and spells a number.
pub open spec fn device_info_of(
    model: Option<Seq<char>>,
    serial: Option<Seq<char>>,
    version: Option<Seq<char>>,
    uptime_argument: Option<Seq<char>>,
    uptime_label: Option<Seq<char>>,
) -> DeviceInfoView {
    DeviceInfoView {
        model,
        serial,
        version,
        uptime: first_u64_in(seq![uptime_argument, uptime_label]),
    }
}

/// The device data that the labelled values of a page give.
pub open spec fn labelled_device_info(html: Seq<char>) -> DeviceInfoView {
    device_info_of(
        first_capture(MODEL_LABEL@, html),
        first_capture(SERIAL_LABEL@, html),
        first_capture(VERSION_LABEL@, html),
        first_capture(UPTIME_QUOTED_ARGUMENT@, html),
        first_capture(UPTIME_QUOTED_LABEL@, html),
    )
}

/// The device data, given what each search captured.
pub fn device_info_from(
    model: Option<String>,
    serial: Option<String>,
    version: Option<String>,
    uptime_argument: Option<String>,
    uptime_label: Option<String>,
) -> (r: DeviceInfo)
    ensures
        r@ == device_info_of(
            model.deep_view(),
            serial.deep_view(),
            version.deep_view(),
            uptime_argument.deep_view(),
            uptime_label.deep_view(),
        ),
{
    let mut candidates: Vec<Option<String>> = Vec::new();
    candidates.push(uptime_argument);
    candidates.push(uptime_label);
    proof {
        assert(candidates.deep_view() == seq![
            uptime_argument.deep_view(),
            uptime_label.deep_view(),
        ]);
    }
    let uptime = first_parsed_u64(&candidates);
    DeviceInfo { model, serial, version, uptime }
}

/// Searches a page for labelled device values.
pub fn parse_device_info(html: &str) -> (r: DeviceInfo)
    ensures
        r@ == labelled_device_info(html@),
{
    device_info_from(
        capture_first(MODEL_LABEL, html),
        capture_first(SERIAL_LABEL, html),
        capture_first(VERSION_LABEL, html),
        capture_first(UPTIME_QUOTED_ARGUMENT, html),
        capture_first(UPTIME_QUOTED_LABEL, html),
    )
}

/// WAN data found as labelled values.
#[derive(Clone, Debug, PartialEq, Eq)]
pub struct WanMetrics {
    pub status: Option<String>,
    pub ip: Option<String>,
    pub rx_bytes: Option<u64>,
    pub tx_bytes: Option<u64>,
}

/// What a `WanMetrics` holds, as mathematical values.
pub struct WanMetricsView {
    pub status: Option<Seq<char>>,
    pub ip: Option<Seq<char>>,
    pub rx_bytes: Option<u64>,
    pub tx_bytes: Option<u64>,
}

impl View for WanMetrics {
    type V = WanMetricsView;

    open spec fn view(&self) -> WanMetricsView {
        WanMetricsView {
            status: self.status.deep_view(),
            ip: self.ip.deep_view(),
            rx_bytes: self.rx_bytes,
            tx_bytes: self.tx_bytes,
        }
    }
}

/// The WAN data, given what each search captured: a counter is there where
/// its text spells a number.
pub open spec fn wan_metrics_of(
    status: Option<Seq<char>>,
    ip: Option<Seq<char>>,
    rx_bytes: Option<Seq<char>>,
    tx_bytes: Option<Seq<char>>,
) -> WanMetricsView {
    WanMetricsView {
        status,
        ip,
        rx_bytes: optional_u64(rx_bytes),
        tx_bytes: optional_u64(tx_bytes),
    }
}

/// The WAN data that the labelled values of a page give.
pub open spec fn labelled_wan_metrics(html: Seq<char>) -> WanMetricsView {
    wan_metrics_of(
        first_capture(WAN_STATUS_LABEL@, html),
        first_capture(WAN_IP_LABEL@, html),
        first_capture(RX_BYTES_LABEL@, html),
        first_capture(TX_BYTES_LABEL@, html),
    )
}

/// The WAN data, given what each search captured.
pub fn wan_metrics_from(
    status: Option<String>,
    ip: Option<String>,
    rx_bytes: Option<String>,
    tx_bytes: Option<String>,
) -> (r: WanMetrics)
    ensures
        r@ == wan_metrics_of(
            status.deep_view(),
            ip.deep_view(),
            rx_bytes.deep_view(),
            tx_bytes.deep_view(),
        ),
{
    let rx = number_in(&rx_bytes);
    let tx = number_in(&tx_bytes);
    WanMetrics { status, ip, rx_bytes: rx, tx_bytes: tx }
}

/// Searches a page for labelled WAN values.
pub fn parse_wan_metrics(html: &str) -> (r: WanMetrics)
    ensures
        r@ == labelled_wan_metrics(html@),
{
    wan_metrics_from(
        capture_first(WAN_STATUS_LABEL, html),
        capture_first(WAN_IP_LABEL, html),
        capture_first(RX_BYTES_LABEL, html),
        capture_first(TX_BYTES_LABEL, html),
    )
}

/// Client counts found as labelled values.
#[derive(Clone, Copy, Debug, PartialEq, Eq)]
pub struct ClientMetrics {
    pub lan_count: Option<u32>,
    pub wifi_count: Option<u32>,
}

/// What a `ClientMetrics` holds.
pub struct ClientMetricsView {
    pub lan_count: Option<u32>,
    pub wifi_count: Option<u32>,
}

impl View for ClientMetrics {
    type V = ClientMetricsView;

    open spec fn view(&self) -> ClientMetricsView {
        ClientMetricsView { lan_count: self.lan_count, wifi_count: self.wifi_count }
    }
}

/// The client counts, given what each search captured.
pub open spec fn client_metrics_of(
    lan: Option<Seq<char>>,
    wifi: Option<Seq<char>>,
) -> ClientMetricsView {
    ClientMetricsView { lan_count: optional_u32(lan), wifi_count: optional_u32(wifi) }
}

/// The client counts that the labelled values of a page give.
pub open spec fn labelled_client_metrics(html: Seq<char>) -> ClientMetricsView {
    client_metrics_of(
        first_capture(LAN_CLIENTS_LABEL@, html),
        first_capture(WIFI_CLIENTS_LABEL@, html),
    )
}

/// The client counts, given what each search captured.
pub fn client_metrics_from(lan: Option<String>, wifi: Option<String>) -> (r: ClientMetrics)
    ensures
        r@ == client_metrics_of(lan.deep_view(), wifi.deep_view()),
{
    ClientMetrics { lan_count: small_number_in(&lan), wifi_count: small_number_in(&wifi) }
}

/// Searches a page for labelled client counts.
pub fn parse_client_metrics(html: &str) -> (r: ClientMetrics)
    ensures
        r@ == labelled_client_metrics(html@),
{
    client_metrics_from(
        capture_first(LAN_CLIENTS_LABEL, html),
        capture_first(WIFI_CLIENTS_LABEL, html),
    )
}

// ---------------------------------------------------------------------------
// The whole page

/// The record that one page gives when it is read for all it holds: its
/// five readings, and whatever labelled device, WAN and client values stand
/// on it as well. An extraction failure where the readings cannot be had.
pub open spec fn page_metrics(html: Seq<char>) -> Result<OntMetricsView, ScrapeError> {
    match optical_record(html) {
        Err(e) => Err(e),
        Ok(record) => Ok(
            record.with_labelled_device(labelled_device_info(html)).with_wan(
                labelled_wan_metrics(html),
            ).with_labelled_clients(labelled_client_metrics(html)),
        ),
    }
}

/// A record read from one page has its readings in decimal notation.
pub proof fn lemma_page_metrics_well_formed(html: Seq<char>)
    ensures
        page_metrics(html) matches Ok(record) ==> record.well_formed(),
{
}

/// Parses one page for all it holds: the five readings, which must be
/// there, and the labelled values, which may be. A scrape does not use
/// this: it takes the optional fields from their own pages only.
pub fn parse_ont_metrics(html: &str) -> (r: Result<OntMetrics, ScrapeError>)
    ensures
        viewed(r) == page_metrics(html@),
        r matches Ok(metrics) ==> metrics.well_formed(),
{
    let mut metrics = match parse_optical_page(html) {
        Ok(metrics) => metrics,
        Err(e) => {
            return Err(e);
        },
    };
    let device = parse_device_info(html);
    metrics.device_model = device.model;
    metrics.serial_number = device.serial;
    metrics.software_version = device.version;
    metrics.uptime_seconds = device.uptime;
    let wan = parse_wan_metrics(html);
    metrics.wan_status = wan.status;
    metrics.wan_ip = wan.ip;
    metrics.wan_rx_bytes = wan.rx_bytes;
    metrics.wan_tx_bytes = wan.tx_bytes;
    let clients = parse_client_metrics(html);
    metrics.lan_clients_count = clients.lan_count;
    metrics.wifi_clients_count = clients.wifi_count;
    Ok(metrics)
}

/// The text with its `\xHH` escapes decoded: each becomes the character
/// whose code is the byte `HH`. A malformed escape is copied unchanged.
pub fn decode_hex_escapes(s: &str) -> (r: String)
    ensures
        r@ == decode_hex(s@),
{
    let v = chars_of(s);
    let mut out = String::new();
    decode_range(&v, 0, v.len(), &mut out);
    proof {
        assert(v@.subrange(0, v.len() as int) == v@);
        assert(Seq::<char>::empty() + decode_hex(v@) == decode_hex(v@));
    }
    out
}

} // verus!
