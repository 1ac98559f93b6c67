//! What a record publishes: the samples that go to the metrics sink.
//!
//! The sink itself is the caller's. This module decides which series a
//! record sets and to what, so that an absent field sets none.

use vstd::prelude::*;
use crate::parser::{OntMetrics, OntMetricsView};
use crate::text::{chars_of, range_equals_ignoring_case, same_ignoring_case};

verus! {

/// The label for a device field that is absent.
pub const UNKNOWN_LABEL: &'static str = "unknown";

/// The series that a record can set.
#[derive(Clone, Copy, Debug, PartialEq, Eq, Structural)]
pub enum Gauge {
    TxPower,
    RxPower,
    Voltage,
    BiasCurrent,
    Temperature,
    Uptime,
    WanStatus,
    WanRxBytes,
    WanTxBytes,
    LanClients,
    WifiClients,
}

/// The value of a sample.
#[derive(Clone, Debug, PartialEq, Eq)]
pub enum Value {
    /// A reading, in decimal notation.
    Reading(String),
    /// A count.
    Count(u64),
    /// Up or down, published as 1 or 0.
    Flag(bool),
}

/// What a `Value` holds, as mathematical values.
pub enum ValueView {
    Reading(Seq<char>),
    Count(u64),
    Flag(bool),
}

impl View for Value {
    type V = ValueView;

    open spec fn view(&self) -> ValueView {
        match *self {
            Value::Reading(text) => ValueView::Reading(text@),
            Value::Count(n) => ValueView::Count(n),
            Value::Flag(b) => ValueView::Flag(b),
        }
    }
}

/// One series and the value to set it to.
#[derive(Clone, Debug, PartialEq, Eq)]
pub struct Sample {
    pub gauge: Gauge,
    pub value: Value,
}

/// What a `Sample` holds, as mathematical values.
pub struct SampleView {
    pub gauge: Gauge,
    pub value: ValueView,
}

impl View for Sample {
    type V = SampleView;

    open spec fn view(&self) -> SampleView {
        SampleView { gauge: self.gauge, value: self.value@ }
    }
}

impl DeepView for Sample {
    type V = SampleView;

    open spec fn deep_view(&self) -> SampleView {
        self@
    }
}

/// What one record publishes.
#[derive(Clone, Debug, PartialEq, Eq)]
pub struct Publication {
    /// The labels of the device series: model, serial number, software version.
    pub model: String,
    pub serial: String,
    pub version: String,
    /// The samples, in the order in which they are set.
    pub samples: Vec<Sample>,
}

/// What a `Publication` holds, as mathematical values.
pub struct PublicationView {
    pub model: Seq<char>,
    pub serial: Seq<char>,
    pub version: Seq<char>,
    pub samples: Seq<SampleView>,
}

impl View for Publication {
    type V = PublicationView;

    open spec fn view(&self) -> PublicationView {
        PublicationView {
            model: self.model@,
            serial: self.serial@,
            version: self.version@,
            samples: self.samples.deep_view(),
        }
    }
}

/// The status says that the link is up: it is `up`, `connected` or
/// `online`, in any case of the letters.
pub open spec fn link_is_up(status: Seq<char>) -> bool {
    ||| same_ignoring_case(status, "up"@)
    ||| same_ignoring_case(status, "connected"@)
    ||| same_ignoring_case(status, "online"@)
}

/// The label for a device field: its text, or `unknown` where it is absent.
pub open spec fn label_of(field: Option<Seq<char>>) -> Seq<char> {
    match field {
        Some(text) => text,
        None => UNKNOWN_LABEL@,
    }
}

/// The samples with one more, where `value` is there.
pub open spec fn with_sample(
    samples: Seq<SampleView>,
    gauge: Gauge,
    value: Option<ValueView>,
) -> Seq<SampleView> {
    match value {
        Some(v) => samples.push(SampleView { gauge, value: v }),
        None => samples,
    }
}

/// A count as a value, where it is there.
pub open spec fn count_value(count: Option<u64>) -> Option<ValueView> {
    match count {
        Some(n) => Some(ValueView::Count(n)),
        None => None,
    }
}

/// The same for a count of 32 bits.
pub open spec fn small_count_value(count: Option<u32>) -> Option<ValueView> {
    match count {
        Some(n) => Some(ValueView::Count(n as u64)),
        None => None,
    }
}

/// The WAN status as a value, where it is there: whether the link is up.
pub open spec fn status_value(status: Option<Seq<char>>) -> Option<ValueView> {
    match status {
        Some(text) => Some(ValueView::Flag(link_is_up(text))),
        None => None,
    }
}

/// The five samples of the readings.
pub open spec fn reading_samples(record: OntMetricsView) -> Seq<SampleView> {
    seq![
        SampleView { gauge: Gauge::TxPower, value: ValueView::Reading(record.tx_power) },
        SampleView { gauge: Gauge::RxPower, value: ValueView::Reading(record.rx_power) },
        SampleView { gauge: Gauge::Voltage, value: ValueView::Reading(record.voltage) },
        SampleView { gauge: Gauge::BiasCurrent, value: ValueView::Reading(record.bias_current) },
        SampleView { gauge: Gauge::Temperature, value: ValueView::Reading(record.temperature) },
    ]
}

/// The samples of a record: the five readings, then one for each optional
/// field that is there, in this order: uptime, WAN status, bytes received,
/// bytes sent, LAN clients, wireless clients.
pub open spec fn samples_of(record: OntMetricsView) -> Seq<SampleView> {
    let s0 = reading_samples(record);
    let s1 = with_sample(s0, Gauge::Uptime, count_value(record.uptime_seconds));
    let s2 = with_sample(s1, Gauge::WanStatus, status_value(record.wan_status));
    let s3 = with_sample(s2, Gauge::WanRxBytes, count_value(record.wan_rx_bytes));
    let s4 = with_sample(s3, Gauge::WanTxBytes, count_value(record.wan_tx_bytes));
    let s5 = with_sample(s4, Gauge::LanClients, small_count_value(record.lan_clients_count));
    with_sample(s5, Gauge::WifiClients, small_count_value(record.wifi_clients_count))
}

/// What a record publishes: the device labels and the samples.
pub open spec fn publication_of(record: OntMetricsView) -> PublicationView {
    PublicationView {
        model: label_of(record.device_model),
        serial: label_of(record.serial_number),
        version: label_of(record.software_version),
        samples: samples_of(record),
    }
}

/// Whether a sample for `gauge` is among `samples`.
pub open spec fn publishes(samples: Seq<SampleView>, gauge: Gauge) -> bool {
    exists|i: int| 0 <= i < samples.len() && (#[trigger] samples[i]).gauge == gauge
}

/// A series is among the samples after one more exactly if it was before
/// or is the one added.
pub proof fn lemma_with_sample(
    samples: Seq<SampleView>,
    gauge: Gauge,
    value: Option<ValueView>,
    wanted: Gauge,
)
    ensures
        publishes(with_sample(samples, gauge, value), wanted) <==> publishes(samples, wanted) || (
        value is Some && gauge == wanted),
{
    let more = with_sample(samples, gauge, value);
    if publishes(samples, wanted) {
        let i = choose|i: int| 0 <= i < samples.len() && (#[trigger] samples[i]).gauge == wanted;
        assert(more[i].gauge == wanted);
    }
    if value is Some && gauge == wanted {
        assert(more[samples.len() as int].gauge == wanted);
    }
    if publishes(more, wanted) {
        let i = choose|i: int| 0 <= i < more.len() && (#[trigger] more[i]).gauge == wanted;
        if i < samples.len() {
            assert(samples[i].gauge == wanted);
        }
    }
}

/// The readings set their five series and no other.
pub proof fn lemma_reading_samples(record: OntMetricsView, wanted: Gauge)
    ensures
        publishes(reading_samples(record), wanted) <==> (wanted is TxPower || wanted is RxPower
            || wanted is Voltage || wanted is BiasCurrent || wanted is Temperature),
{
    let s = reading_samples(record);
    assert(s[0].gauge is TxPower);
    assert(s[1].gauge is RxPower);
    assert(s[2].gauge is Voltage);
    assert(s[3].gauge is BiasCurrent);
    assert(s[4].gauge is Temperature);
}

/// Which series a record sets: those of the five readings always, and that
/// of an optional field exactly if the field is there. An absent field sets
/// nothing, and is so told apart from a field that is zero.
pub proof fn lemma_published_series(record: OntMetricsView, wanted: Gauge)
    ensures
        publishes(publication_of(record).samples, wanted) <==> match wanted {
            Gauge::Uptime => record.uptime_seconds is Some,
            Gauge::WanStatus => record.wan_status is Some,
            Gauge::WanRxBytes => record.wan_rx_bytes is Some,
            Gauge::WanTxBytes => record.wan_tx_bytes is Some,
            Gauge::LanClients => record.lan_clients_count is Some,
            Gauge::WifiClients => record.wifi_clients_count is Some,
            _ => true,
        },
{
    let s0 = reading_samples(record);
    let s1 = with_sample(s0, Gauge::Uptime, count_value(record.uptime_seconds));
    let s2 = with_sample(s1, Gauge::WanStatus, status_value(record.wan_status));
    let s3 = with_sample(s2, Gauge::WanRxBytes, count_value(record.wan_rx_bytes));
    let s4 = with_sample(s3, Gauge::WanTxBytes, count_value(record.wan_tx_bytes));
    let s5 = with_sample(s4, Gauge::LanClients, small_count_value(record.lan_clients_count));
    lemma_reading_samples(record, wanted);
    lemma_with_sample(s0, Gauge::Uptime, count_value(record.uptime_seconds), wanted);
    lemma_with_sample(s1, Gauge::WanStatus, status_value(record.wan_status), wanted);
    lemma_with_sample(s2, Gauge::WanRxBytes, count_value(record.wan_rx_bytes), wanted);
    lemma_with_sample(s3, Gauge::WanTxBytes, count_value(record.wan_tx_bytes), wanted);
    lemma_with_sample(s4, Gauge::LanClients, small_count_value(record.lan_clients_count), wanted);
    lemma_with_sample(
        s5,
        Gauge::WifiClients,
        small_count_value(record.wifi_clients_count),
        wanted,
    );
}

/// Whether the status says that the link is up.
pub fn wan_is_up(status: &str) -> (r: bool)
    ensures
        r == link_is_up(status@),
{
    let v = chars_of(status);
    assert(v@.subrange(0, v.len() as int) == v@);
    range_equals_ignoring_case(&v, 0, v.len(), "up") || range_equals_ignoring_case(
        &v,
        0,
        v.len(),
        "connected",
    ) || range_equals_ignoring_case(&v, 0, v.len(), "online")
}

/// The label for a device field.
pub fn label(field: &Option<String>) -> (r: String)
    ensures
        r@ == label_of(field.deep_view()),
{
    match field {
        Some(text) => text.clone(),
        None => UNKNOWN_LABEL.to_owned(),
    }
}

/// Appends a sample.
fn push_sample(samples: &mut Vec<Sample>, gauge: Gauge, value: Value)
    ensures
        final(samples).deep_view() == old(samples).deep_view().push(
            SampleView { gauge, value: value@ },
        ),
{
    samples.push(Sample { gauge, value });
    proof {
        assert(samples.deep_view() =~= old(samples).deep_view().push(
            SampleView { gauge, value: value@ },
        ));
    }
}

/// Appends a sample for a count, where the count is there.
fn push_count(samples: &mut Vec<Sample>, gauge: Gauge, count: Option<u64>)
    ensures
        final(samples).deep_view() == with_sample(
            old(samples).deep_view(),
            gauge,
            count_value(count),
        ),
{
    if let Some(n) = count {
        push_sample(samples, gauge, Value::Count(n));
    }
}

/// The same for a count of 32 bits.
fn push_small_count(samples: &mut Vec<Sample>, gauge: Gauge, count: Option<u32>)
    ensures
        final(samples).deep_view() == with_sample(
            old(samples).deep_view(),
            gauge,
            small_count_value(count),
        ),
{
    if let Some(n) = count {
        push_sample(samples, gauge, Value::Count(n as u64));
    }
}

/// The five samples of the readings.
fn reading_samples_of(data: &OntMetrics) -> (samples: Vec<Sample>)
    ensures
        samples.deep_view() == reading_samples(data@),
{
    let mut samples: Vec<Sample> = Vec::new();
    proof {
        assert(samples.deep_view() =~= seq![]);
    }
    push_sample(&mut samples, Gauge::TxPower, Value::Reading(data.tx_power.clone()));
    push_sample(&mut samples, Gauge::RxPower, Value::Reading(data.rx_power.clone()));
    push_sample(&mut samples, Gauge::Voltage, Value::Reading(data.voltage.clone()));
    push_sample(&mut samples, Gauge::BiasCurrent, Value::Reading(data.bias_current.clone()));
    push_sample(&mut samples, Gauge::Temperature, Value::Reading(data.temperature.clone()));
    proof {
        assert(samples.deep_view() =~= reading_samples(data@));
    }
    samples
}

/// What a record publishes. The caller sets each sample's series; a series
/// without a sample keeps the value it had.
pub fn update_metrics(data: &OntMetrics) -> (r: Publication)
    ensures
        r@ == publication_of(data@),
{
    let mut samples = reading_samples_of(data);
    push_count(&mut samples, Gauge::Uptime, data.uptime_seconds);
    if let Some(status) = &data.wan_status {
        let up = wan_is_up(status.as_str());
        push_sample(&mut samples, Gauge::WanStatus, Value::Flag(up));
    }
    push_count(&mut samples, Gauge::WanRxBytes, data.wan_rx_bytes);
    push_count(&mut samples, Gauge::WanTxBytes, data.wan_tx_bytes);
    push_small_count(&mut samples, Gauge::LanClients, data.lan_clients_count);
    push_small_count(&mut samples, Gauge::WifiClients, data.wifi_clients_count);
    Publication {
        model: label(&data.device_model),
        serial: label(&data.serial_number),
        version: label(&data.software_version),
        samples,
    }
}

} // verus!
