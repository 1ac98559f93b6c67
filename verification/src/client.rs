//! The session client: one scrape of the device, from login to logout.
//!
//! The client does no I/O. A scrape is a state machine: it hands out the
//! request to send next, takes the response, and decides what follows. The
//! caller sends the requests, with one cookie jar for the whole scrape.

use vstd::prelude::*;
use vstd::string::StringExecFns;
use crate::encoding::{base64_standard, encode_base64};
use crate::error::ScrapeError;
use crate::pages::{
    client_page, device_page, parse_device_info_page, parse_lan_page, parse_wan_page, wan_page,
    ClientPageInfo, DevicePageView, WanPageView,
};
use crate::parser::{
    lemma_optical_record, optical_record, parse_optical_page, viewed, OntMetrics, OntMetricsView,
};
use crate::text::{chars_of, contains, contains_text, string_of_range, trim, trim_range};

verus! {

/// How many candidate paths each optional page has.
pub const CANDIDATES: usize = 4;

/// The marker of the login page.
pub const LOGIN_PAGE_MARKER: &'static str = "login.asp";

/// The marker of the script that redirects after a login.
pub const REDIRECT_MARKER: &'static str = "top.location.replace";

/// The marker of a page that was not found.
pub const NOT_FOUND_MARKER: &'static str = "404";

/// The marker that the device page must hold.
pub const DEVICE_PAGE_MARKER: &'static str = "stDeviceInfo";

// ---------------------------------------------------------------------------
// Requests and responses

/// The optional pages.
#[derive(Clone, Copy, Debug, PartialEq, Eq, Structural)]
pub enum Category {
    Device,
    Wan,
    Lan,
}

/// What a request is for.
#[derive(Clone, Copy, Debug, PartialEq, Eq, Structural)]
pub enum Purpose {
    /// Opens the cookie jar; the answer does not matter.
    Cookie,
    /// Asks for the one-time token.
    Token,
    /// Submits the credentials.
    Login,
    /// Asks for the optical page.
    Optical,
    /// Asks for one candidate of an optional page.
    Page(Category),
    /// Ends the session; the answer does not matter.
    Logout,
}

#[derive(Clone, Copy, Debug, PartialEq, Eq, Structural)]
pub enum Method {
    Get,
    Post,
}

/// A request for the caller to send. An empty form means no body.
#[derive(Clone, Debug, PartialEq, Eq)]
pub struct Request {
    pub purpose: Purpose,
    pub method: Method,
    pub url: String,
    pub headers: Vec<(String, String)>,
    pub form: Vec<(String, String)>,
}

/// What a `Request` holds, as mathematical values.
pub struct RequestView {
    pub purpose: Purpose,
    pub method: Method,
    pub url: Seq<char>,
    pub headers: Seq<(Seq<char>, Seq<char>)>,
    pub form: Seq<(Seq<char>, Seq<char>)>,
}

impl View for Request {
    type V = RequestView;

    open spec fn view(&self) -> RequestView {
        RequestView {
            purpose: self.purpose,
            method: self.method,
            url: self.url@,
            headers: self.headers.deep_view(),
            form: self.form.deep_view(),
        }
    }
}

/// What came back for a request.
#[derive(Clone, Debug, PartialEq, Eq)]
pub enum Response {
    /// The request failed or timed out.
    Unreachable,
    /// The device answered: whether the status was a success, and the body,
    /// or `None` where the body could not be read.
    Reply { success: bool, body: Option<String> },
}

/// What a `Response` holds, as mathematical values.
pub enum ResponseView {
    Unreachable,
    Reply { success: bool, body: Option<Seq<char>> },
}

impl View for Response {
    type V = ResponseView;

    open spec fn view(&self) -> ResponseView {
        match *self {
            Response::Unreachable => ResponseView::Unreachable,
            Response::Reply { success, body } => ResponseView::Reply {
                success,
                body: body.deep_view(),
            },
        }
    }
}

/// The path of candidate `index` of an optional page, in the order of trial.
pub open spec fn candidate_path_of(category: Category, index: int) -> Seq<char> {
    match category {
        Category::Device => if index == 0 {
            "/html/ssmp/deviceinfo/deviceinfo.asp"@
        } else if index == 1 {
            "/html/amp/deviceinfo/deviceinfo.asp"@
        } else if index == 2 {
            "/html/amp/basic/deviceinfo.asp"@
        } else {
            "/html/advance/deviceinfo/deviceinfo.asp"@
        },
        Category::Wan => if index == 0 {
            "/html/bbsp/waninfo/waninfo.asp"@
        } else if index == 1 {
            "/html/amp/internet/internet.asp"@
        } else if index == 2 {
            "/html/amp/wan/wan.asp"@
        } else {
            "/html/advance/internet/internet.asp"@
        },
        Category::Lan => if index == 0 {
            "/html/bbsp/common/GetLanUserDevInfo.asp"@
        } else if index == 1 {
            "/html/amp/lanuser/lanuser.asp"@
        } else if index == 2 {
            "/html/amp/user/user.asp"@
        } else {
            "/html/advance/user/user.asp"@
        },
    }
}

/// A request without headers or form.
pub open spec fn plain_get(purpose: Purpose, url: Seq<char>) -> RequestView {
    RequestView { purpose, method: Method::Get, url, headers: seq![], form: seq![] }
}

pub open spec fn cookie_request(base: Seq<char>) -> RequestView {
    plain_get(Purpose::Cookie, base)
}

pub open spec fn token_request(base: Seq<char>) -> RequestView {
    RequestView {
        purpose: Purpose::Token,
        method: Method::Post,
        url: base + "/asp/GetRandCount.asp"@,
        headers: seq![
            ("Referer"@, base + "/"@),
            ("X-Requested-With"@, "XMLHttpRequest"@),
            ("Origin"@, base),
        ],
        form: seq![],
    }
}

/// The login form: the user name plain, the password in Base64, the
/// language, and the token.
pub open spec fn login_request(
    base: Seq<char>,
    user: Seq<char>,
    pass: Seq<char>,
    token: Seq<char>,
) -> RequestView {
    RequestView {
        purpose: Purpose::Login,
        method: Method::Post,
        url: base + "/login.cgi"@,
        headers: seq![("Referer"@, base + "/"@)],
        form: seq![
            ("UserName"@, user),
            ("PassWord"@, base64_standard(pass)),
            ("Language"@, "english"@),
            ("x.X_HW_Token"@, token),
        ],
    }
}

pub open spec fn optical_request(base: Seq<char>) -> RequestView {
    plain_get(Purpose::Optical, base + "/html/amp/opticinfo/opticinfo.asp"@)
}

pub open spec fn page_request(base: Seq<char>, category: Category, index: int) -> RequestView {
    plain_get(Purpose::Page(category), base + candidate_path_of(category, index))
}

pub open spec fn logout_request(base: Seq<char>) -> RequestView {
    plain_get(Purpose::Logout, base + "/logout.cgi?RequestFile=html/logout.html"@)
}

// ---------------------------------------------------------------------------
// What a response means

/// The text without one leading byte-order mark.
pub open spec fn without_bom(s: Seq<char>) -> Seq<char> {
    if s.len() > 0 && s[0] == '\u{feff}' {
        s.skip(1)
    } else {
        s
    }
}

/// The token that the body of the token response carries.
pub open spec fn token_of(body: Seq<char>) -> Seq<char> {
    trim(without_bom(body))
}

/// The token that a response to the token request gives: that of its body,
/// where the status was a success and the body could be read.
pub open spec fn token_in(response: ResponseView) -> Option<Seq<char>> {
    match response {
        ResponseView::Reply { success: true, body: Some(body) } => Some(token_of(body)),
        _ => None,
    }
}

/// The device answered the login with its login page again: the body holds
/// the login page's marker and not the redirect's.
pub open spec fn login_rejected(body: Seq<char>) -> bool {
    contains(body, LOGIN_PAGE_MARKER@) && !contains(body, REDIRECT_MARKER@)
}

/// How the login ended, given the response to the credentials.
pub open spec fn login_outcome(response: ResponseView) -> Result<(), ScrapeError> {
    match response {
        ResponseView::Unreachable => Err(ScrapeError::TransportFailure),
        ResponseView::Reply { success: false, .. } => Err(ScrapeError::AuthenticationFailure),
        ResponseView::Reply { success: true, body: None } => Err(ScrapeError::TransportFailure),
        ResponseView::Reply { success: true, body: Some(body) } => if login_rejected(body) {
            Err(ScrapeError::AuthenticationFailure)
        } else {
            Ok(())
        },
    }
}

/// The record that the response to the optical request gives: the five
/// readings of its body, with every optional field absent.
pub open spec fn optical_outcome(response: ResponseView) -> Result<OntMetricsView, ScrapeError> {
    match response {
        ResponseView::Unreachable => Err(ScrapeError::TransportFailure),
        ResponseView::Reply { success: false, .. } => Err(ScrapeError::PageNotFound),
        ResponseView::Reply { success: true, body: None } => Err(ScrapeError::TransportFailure),
        ResponseView::Reply { success: true, body: Some(body) } => optical_record(body),
    }
}

/// A body is acceptable for an optional page: it is not empty, does not hold
/// the not-found marker and, for the device page, holds the device marker.
pub open spec fn acceptable_body(category: Category, body: Seq<char>) -> bool {
    &&& body.len() > 0
    &&& !contains(body, NOT_FOUND_MARKER@)
    &&& (category is Device ==> contains(body, DEVICE_PAGE_MARKER@))
}

/// The body that a response gives for an optional page, where it is a
/// success with an acceptable body.
pub open spec fn accepted_body(category: Category, response: ResponseView) -> Option<Seq<char>> {
    match response {
        ResponseView::Reply { success: true, body: Some(body) } => if acceptable_body(
            category,
            body,
        ) {
            Some(body)
        } else {
            None
        },
        _ => None,
    }
}

/// The record with the device fields replaced by those of the device page.
pub open spec fn with_device_page(record: OntMetricsView, page: DevicePageView) -> OntMetricsView {
    OntMetricsView {
        device_model: page.model,
        serial_number: page.serial,
        software_version: page.version,
        uptime_seconds: page.uptime,
        hardware_version: page.hardware_version,
        mac_address: page.mac,
        ..record
    }
}

/// The record with the WAN fields replaced by those of the WAN page.
pub open spec fn with_wan_page(record: OntMetricsView, page: WanPageView) -> OntMetricsView {
    OntMetricsView {
        wan_status: page.status,
        wan_ip: page.ip,
        wan_rx_bytes: page.rx_bytes,
        wan_tx_bytes: page.tx_bytes,
        ..record
    }
}

/// The record with the client counts replaced by those of the client page.
pub open spec fn with_client_page(record: OntMetricsView, page: ClientPageInfo) -> OntMetricsView {
    OntMetricsView {
        lan_clients_count: page.lan_count,
        wifi_clients_count: page.wifi_count,
        total_clients_count: page.total_count,
        ..record
    }
}

/// The record with the fields of one optional page replaced by what the
/// page's body gives.
pub open spec fn merged(record: OntMetricsView, category: Category, body: Seq<char>) -> OntMetricsView {
    match category {
        Category::Device => with_device_page(record, device_page(body)),
        Category::Wan => with_wan_page(record, wan_page(body)),
        Category::Lan => with_client_page(record, client_page(body)),
    }
}

// ---------------------------------------------------------------------------
// The state machine

/// Where a scrape stands: which response it waits for, and what it has.
pub enum PhaseView {
    Cookie,
    Token,
    Login,
    Optical,
    /// Waiting for candidate `candidate` of an optional page, with the record so far.
    Probing { category: Category, candidate: int, record: OntMetricsView },
    /// Waiting for the answer to the logout, with the outcome to report.
    Logout { outcome: Result<OntMetricsView, ScrapeError> },
}

/// A scrape, as mathematical values.
pub struct ScrapeView {
    pub client: OntClientView,
    pub phase: PhaseView,
}

/// What a scrape does next.
pub enum StepView {
    /// Send the request and hand its response to the scrape.
    Send(ScrapeView, RequestView),
    /// The scrape is over, with this outcome.
    Finished(Result<OntMetricsView, ScrapeError>),
}

/// The step after a failure on the mandatory path: the scrape logs out, and
/// will report the failure.
pub open spec fn abort(client: OntClientView, e: ScrapeError) -> StepView {
    StepView::Send(
        ScrapeView { client, phase: PhaseView::Logout { outcome: Err(e) } },
        logout_request(client.base_url),
    )
}

/// The step that asks for one candidate of an optional page.
pub open spec fn probe(
    client: OntClientView,
    category: Category,
    candidate: int,
    record: OntMetricsView,
) -> StepView {
    StepView::Send(
        ScrapeView { client, phase: PhaseView::Probing { category, candidate, record } },
        page_request(client.base_url, category, candidate),
    )
}

/// The step once an optional page is done with: the scrape goes on to the
/// next page, or logs out after the last.
pub open spec fn after_category(
    client: OntClientView,
    category: Category,
    record: OntMetricsView,
) -> StepView {
    match category {
        Category::Device => probe(client, Category::Wan, 0, record),
        Category::Wan => probe(client, Category::Lan, 0, record),
        Category::Lan => StepView::Send(
            ScrapeView { client, phase: PhaseView::Logout { outcome: Ok(record) } },
            logout_request(client.base_url),
        ),
    }
}

/// What a scrape does on a response.
///
/// The answer to the cookie request is ignored. A token that cannot be had
/// and rejected credentials fail the authentication. A failure up to and
/// with the optical page ends the scrape with that failure. An optional page
/// is asked for candidate by candidate; the first acceptable body is parsed
/// and merged, and where none is acceptable the record stays as it is. The
/// logout is sent in every case, and its answer is ignored.
pub open spec fn next_step(s: ScrapeView, response: ResponseView) -> StepView {
    let client = s.client;
    match s.phase {
        PhaseView::Cookie => StepView::Send(
            ScrapeView { client, phase: PhaseView::Token },
            token_request(client.base_url),
        ),
        PhaseView::Token => match token_in(response) {
            Some(token) => StepView::Send(
                ScrapeView { client, phase: PhaseView::Login },
                login_request(client.base_url, client.user, client.pass, token),
            ),
            None => abort(client, ScrapeError::AuthenticationFailure),
        },
        PhaseView::Login => match login_outcome(response) {
            Ok(_) => StepView::Send(
                ScrapeView { client, phase: PhaseView::Optical },
                optical_request(client.base_url),
            ),
            Err(e) => abort(client, e),
        },
        PhaseView::Optical => match optical_outcome(response) {
            Ok(record) => probe(client, Category::Device, 0, record),
            Err(e) => abort(client, e),
        },
        PhaseView::Probing { category, candidate, record } => match accepted_body(
            category,
            response,
        ) {
            Some(body) => after_category(client, category, merged(record, category, body)),
            None => if candidate + 1 < CANDIDATES {
                probe(client, category, candidate + 1, record)
            } else {
                after_category(client, category, record)
            },
        },
        PhaseView::Logout { outcome } => StepView::Finished(outcome),
    }
}

/// Where a scrape stands: which response it waits for, and what it has.
#[derive(Debug)]
pub enum Phase {
    Cookie,
    Token,
    Login,
    Optical,
    /// Waiting for candidate `candidate` of an optional page, with the record so far.
    Probing { category: Category, candidate: usize, record: OntMetrics },
    /// Waiting for the answer to the logout, with the outcome to report.
    Logout { outcome: Result<OntMetrics, ScrapeError> },
}

impl View for Phase {
    type V = PhaseView;

    open spec fn view(&self) -> PhaseView {
        match *self {
            Phase::Cookie => PhaseView::Cookie,
            Phase::Token => PhaseView::Token,
            Phase::Login => PhaseView::Login,
            Phase::Optical => PhaseView::Optical,
            Phase::Probing { category, candidate, record } => PhaseView::Probing {
                category,
                candidate: candidate as int,
                record: record@,
            },
            Phase::Logout { outcome } => PhaseView::Logout { outcome: viewed(outcome) },
        }
    }
}

/// One scrape under way. It holds the credentials and the record so far,
/// and lives from the first request to the answer to the logout.
#[derive(Debug)]
pub struct Scrape {
    client: OntClient,
    phase: Phase,
}

impl View for Scrape {
    type V = ScrapeView;

    closed spec fn view(&self) -> ScrapeView {
        ScrapeView { client: self.client@, phase: self.phase@ }
    }
}

/// What a scrape does next.
#[derive(Debug)]
pub enum Step {
    /// Send the request and hand its response to the scrape.
    Send(Scrape, Request),
    /// The scrape is over, with this outcome.
    Finished(Result<OntMetrics, ScrapeError>),
}

impl View for Step {
    type V = StepView;

    open spec fn view(&self) -> StepView {
        match *self {
            Step::Send(scrape, request) => StepView::Send(scrape@, request@),
            Step::Finished(outcome) => StepView::Finished(viewed(outcome)),
        }
    }
}

/// `base` followed by `tail`.
fn joined(base: &str, tail: &str) -> (r: String)
    ensures
        r@ == base@ + tail@,
{
    let mut r = String::from_str(base);
    r.append(tail);
    r
}

/// A header or a form field.
fn pair(name: &str, value: String) -> (r: (String, String))
    ensures
        r.deep_view() == (name@, value@),
{
    (String::from_str(name), value)
}

/// A request without headers or form.
fn get_request(purpose: Purpose, url: String) -> (r: Request)
    ensures
        r@ == plain_get(purpose, url@),
{
    let r = Request { purpose, method: Method::Get, url, headers: Vec::new(), form: Vec::new() };
    proof {
        assert(r.headers.deep_view() =~= seq![]);
        assert(r.form.deep_view() =~= seq![]);
    }
    r
}

/// The path of candidate `index` of an optional page, in the order of trial.
pub fn candidate_path(category: Category, index: usize) -> (r: &'static str)
    ensures
        r@ == candidate_path_of(category, index as int),
{
    match category {
        Category::Device => if index == 0 {
            "/html/ssmp/deviceinfo/deviceinfo.asp"
        } else if index == 1 {
            "/html/amp/deviceinfo/deviceinfo.asp"
        } else if index == 2 {
            "/html/amp/basic/deviceinfo.asp"
        } else {
            "/html/advance/deviceinfo/deviceinfo.asp"
        },
        Category::Wan => if index == 0 {
            "/html/bbsp/waninfo/waninfo.asp"
        } else if index == 1 {
            "/html/amp/internet/internet.asp"
        } else if index == 2 {
            "/html/amp/wan/wan.asp"
        } else {
            "/html/advance/internet/internet.asp"
        },
        Category::Lan => if index == 0 {
            "/html/bbsp/common/GetLanUserDevInfo.asp"
        } else if index == 1 {
            "/html/amp/lanuser/lanuser.asp"
        } else if index == 2 {
            "/html/amp/user/user.asp"
        } else {
            "/html/advance/user/user.asp"
        },
    }
}

/// The request for the one-time token.
fn make_token_request(base: &str) -> (r: Request)
    ensures
        r@ == token_request(base@),
{
    let mut headers: Vec<(String, String)> = Vec::new();
    headers.push(pair("Referer", joined(base, "/")));
    headers.push(pair("X-Requested-With", String::from_str("XMLHttpRequest")));
    headers.push(pair("Origin", String::from_str(base)));
    let r = Request {
        purpose: Purpose::Token,
        method: Method::Post,
        url: joined(base, "/asp/GetRandCount.asp"),
        headers,
        form: Vec::new(),
    };
    proof {
        assert(r.headers.deep_view() =~= token_request(base@).headers);
        assert(r.form.deep_view() =~= seq![]);
    }
    r
}

/// The request that submits the credentials.
fn make_login_request(base: &str, user: &str, pass: &str, token: String) -> (r: Request)
    ensures
        r@ == login_request(base@, user@, pass@, token@),
{
    let mut headers: Vec<(String, String)> = Vec::new();
    headers.push(pair("Referer", joined(base, "/")));
    let mut form: Vec<(String, String)> = Vec::new();
    form.push(pair("UserName", String::from_str(user)));
    form.push(pair("PassWord", encode_base64(pass)));
    form.push(pair("Language", String::from_str("english")));
    form.push(pair("x.X_HW_Token", token));
    let r = Request {
        purpose: Purpose::Login,
        method: Method::Post,
        url: joined(base, "/login.cgi"),
        headers,
        form,
    };
    proof {
        assert(r.headers.deep_view() =~= login_request(base@, user@, pass@, token@).headers);
        assert(r.form.deep_view() =~= login_request(base@, user@, pass@, token@).form);
    }
    r
}

/// The request that ends the session.
fn make_logout_request(base: &str) -> (r: Request)
    ensures
        r@ == logout_request(base@),
{
    get_request(Purpose::Logout, joined(base, "/logout.cgi?RequestFile=html/logout.html"))
}

/// The request for one candidate of an optional page.
fn make_page_request(base: &str, category: Category, index: usize) -> (r: Request)
    ensures
        r@ == page_request(base@, category, index as int),
{
    get_request(Purpose::Page(category), joined(base, candidate_path(category, index)))
}

/// The token that the body of the token response carries: the body without
/// a leading byte-order mark, trimmed.
pub fn extract_token(body: &str) -> (r: String)
    ensures
        r@ == token_of(body@),
{
    let v = chars_of(body);
    let start: usize = if v.len() > 0 && v[0] == '\u{feff}' {
        1
    } else {
        0
    };
    proof {
        assert(without_bom(v@) == v@.subrange(start as int, v.len() as int));
    }
    let (a, b) = trim_range(&v, start, v.len());
    string_of_range(&v, a, b)
}

/// Whether the device answered the login with its login page again.
pub fn is_login_rejected(body: &str) -> (r: bool)
    ensures
        r == login_rejected(body@),
{
    contains_text(body, LOGIN_PAGE_MARKER) && !contains_text(body, REDIRECT_MARKER)
}

/// How the login ended, given the response to the credentials.
pub fn classify_login(response: &Response) -> (r: Result<(), ScrapeError>)
    ensures
        r == login_outcome(response@),
{
    match response {
        Response::Unreachable => Err(ScrapeError::TransportFailure),
        Response::Reply { success, body } => {
            if !*success {
                Err(ScrapeError::AuthenticationFailure)
            } else {
                match body {
                    None => Err(ScrapeError::TransportFailure),
                    Some(text) => {
                        if is_login_rejected(text.as_str()) {
                            Err(ScrapeError::AuthenticationFailure)
                        } else {
                            Ok(())
                        }
                    },
                }
            }
        },
    }
}

/// The record that the response to the optical request gives.
pub fn classify_optical(response: &Response) -> (r: Result<OntMetrics, ScrapeError>)
    ensures
        viewed(r) == optical_outcome(response@),
        r matches Ok(record) ==> record.well_formed(),
{
    match response {
        Response::Unreachable => Err(ScrapeError::TransportFailure),
        Response::Reply { success, body } => {
            if !*success {
                Err(ScrapeError::PageNotFound)
            } else {
                match body {
                    None => Err(ScrapeError::TransportFailure),
                    Some(text) => parse_optical_page(text.as_str()),
                }
            }
        },
    }
}

/// Whether a body is acceptable for an optional page.
pub fn is_acceptable_body(category: Category, body: &str) -> (r: bool)
    ensures
        r == acceptable_body(category, body@),
{
    if body.is_empty() {
        return false;
    }
    if contains_text(body, NOT_FOUND_MARKER) {
        return false;
    }
    match category {
        Category::Device => contains_text(body, DEVICE_PAGE_MARKER),
        _ => true,
    }
}

/// The body that a response gives for an optional page, where it is a
/// success with an acceptable body.
pub fn accept_page(category: Category, response: Response) -> (r: Option<String>)
    ensures
        r.deep_view() == accepted_body(category, response@),
{
    match response {
        Response::Unreachable => None,
        Response::Reply { success, body } => {
            if !success {
                None
            } else {
                match body {
                    None => None,
                    Some(text) => {
                        if is_acceptable_body(category, text.as_str()) {
                            Some(text)
                        } else {
                            None
                        }
                    },
                }
            }
        },
    }
}

/// Parses the body of an optional page and replaces that page's fields in
/// the record. The five readings stay as they are.
pub fn merge_page(record: &mut OntMetrics, category: Category, body: &str)
    ensures
        final(record)@ == merged(old(record)@, category, body@),
        final(record)@.optical() == old(record)@.optical(),
{
    match category {
        Category::Device => {
            let page = parse_device_info_page(body);
            record.device_model = page.model;
            record.serial_number = page.serial;
            record.software_version = page.version;
            record.uptime_seconds = page.uptime;
            record.hardware_version = page.hardware_version;
            record.mac_address = page.mac;
        },
        Category::Wan => {
            let page = parse_wan_page(body);
            record.wan_status = page.status;
            record.wan_ip = page.ip;
            record.wan_rx_bytes = page.rx_bytes;
            record.wan_tx_bytes = page.tx_bytes;
        },
        Category::Lan => {
            let page = parse_lan_page(body);
            record.lan_clients_count = page.lan_count;
            record.wifi_clients_count = page.wifi_count;
            record.total_clients_count = page.total_count;
        },
    }
}

/// The address of a device and the credentials for it.
#[derive(Debug)]
pub struct OntClient {
    base_url: String,
    user: String,
    pass: String,
}

/// What an `OntClient` holds, as mathematical values.
pub struct OntClientView {
    pub base_url: Seq<char>,
    pub user: Seq<char>,
    pub pass: Seq<char>,
}

impl View for OntClient {
    type V = OntClientView;

    closed spec fn view(&self) -> OntClientView {
        OntClientView { base_url: self.base_url@, user: self.user@, pass: self.pass@ }
    }
}

/// The text without the slashes at its end.
pub open spec fn without_trailing_slashes(s: Seq<char>) -> Seq<char>
    decreases s.len(),
{
    if s.len() > 0 && s.last() == '/' {
        without_trailing_slashes(s.drop_last())
    } else {
        s
    }
}

/// Once the characters from `k` on are known to be slashes, dropping the
/// slashes of the first `k` characters drops those of the whole.
proof fn lemma_trailing_slashes(s: Seq<char>, k: int)
    requires
        0 <= k <= s.len(),
        forall|j: int| k <= j < s.len() ==> s[j] == '/',
    ensures
        without_trailing_slashes(s) == without_trailing_slashes(s.take(k)),
    decreases s.len() - k,
{
    if k == s.len() {
        assert(s.take(k) == s);
    } else {
        lemma_trailing_slashes(s, k + 1);
        let t = s.take(k + 1);
        assert(t.last() == s[k]);
        assert(t.drop_last() == s.take(k));
    }
}

impl OntClient {
    /// A client for the device at `url`, whose trailing slashes are dropped.
    pub fn new(url: &str, user: &str, pass: &str) -> (r: OntClient)
        ensures
            r@ == (OntClientView {
                base_url: without_trailing_slashes(url@),
                user: user@,
                pass: pass@,
            }),
    {
        let v = chars_of(url);
        let mut end: usize = v.len();
        while end > 0 && v[end - 1] == '/'
            invariant
                end <= v.len(),
                forall|j: int| end <= j < v.len() ==> v@[j] == '/',
            decreases end,
        {
            end -= 1;
        }
        proof {
            lemma_trailing_slashes(v@, end as int);
            let kept = v@.take(end as int);
            assert(without_trailing_slashes(kept) == kept);
            assert(kept == v@.subrange(0, end as int));
        }
        OntClient {
            base_url: string_of_range(&v, 0, end),
            user: String::from_str(user),
            pass: String::from_str(pass),
        }
    }

    /// The address of the device, without trailing slashes.
    pub fn base_url(&self) -> (r: &str)
        ensures
            r@ == self@.base_url,
    {
        self.base_url.as_str()
    }

    /// Begins a scrape: the state of a fresh session, and the first request
    /// to send for it. Each scrape is to be run with a cookie jar of its own.
    pub fn scrape_metrics(&self) -> (r: (Scrape, Request))
        ensures
            r.0@ == (ScrapeView { client: self@, phase: PhaseView::Cookie }),
            r.1@ == cookie_request(self@.base_url),
    {
        let request = get_request(Purpose::Cookie, self.base_url.clone());
        let client = OntClient {
            base_url: self.base_url.clone(),
            user: self.user.clone(),
            pass: self.pass.clone(),
        };
        (Scrape { client, phase: Phase::Cookie }, request)
    }

    /// The step after a failure on the mandatory path.
    fn abort(self, e: ScrapeError) -> (step: Step)
        ensures
            step@ == abort(self@, e),
    {
        let request = make_logout_request(self.base_url.as_str());
        Step::Send(Scrape { client: self, phase: Phase::Logout { outcome: Err(e) } }, request)
    }

    /// The step that asks for one candidate of an optional page.
    fn probe(self, category: Category, candidate: usize, record: OntMetrics) -> (step: Step)
        ensures
            step@ == probe(self@, category, candidate as int, record@),
    {
        let request = make_page_request(self.base_url.as_str(), category, candidate);
        Step::Send(
            Scrape { client: self, phase: Phase::Probing { category, candidate, record } },
            request,
        )
    }

    /// The step once an optional page is done with.
    fn after_category(self, category: Category, record: OntMetrics) -> (step: Step)
        ensures
            step@ == after_category(self@, category, record@),
    {
        match category {
            Category::Device => self.probe(Category::Wan, 0, record),
            Category::Wan => self.probe(Category::Lan, 0, record),
            Category::Lan => {
                let request = make_logout_request(self.base_url.as_str());
                Step::Send(
                    Scrape { client: self, phase: Phase::Logout { outcome: Ok(record) } },
                    request,
                )
            },
        }
    }
}

impl Scrape {
    /// Takes the response to the request last handed out and says what to do
    /// next: send another request, or stop with the outcome of the scrape.
    pub fn advance(self, response: Response) -> (step: Step)
        ensures
            step@ == next_step(self@, response@),
    {
        let Scrape { client, phase } = self;
        match phase {
            Phase::Cookie => {
                let request = make_token_request(client.base_url.as_str());
                Step::Send(Scrape { client, phase: Phase::Token }, request)
            },
            Phase::Token => {
                let token = match response {
                    Response::Reply { success: true, body: Some(body) } => Some(
                        extract_token(body.as_str()),
                    ),
                    _ => None,
                };
                match token {
                    Some(token) => {
                        let request = make_login_request(
                            client.base_url.as_str(),
                            client.user.as_str(),
                            client.pass.as_str(),
                            token,
                        );
                        Step::Send(Scrape { client, phase: Phase::Login }, request)
                    },
                    None => client.abort(ScrapeError::AuthenticationFailure),
                }
            },
            Phase::Login => match classify_login(&response) {
                Ok(()) => {
                    let request = get_request(
                        Purpose::Optical,
                        joined(client.base_url.as_str(), "/html/amp/opticinfo/opticinfo.asp"),
                    );
                    Step::Send(Scrape { client, phase: Phase::Optical }, request)
                },
                Err(e) => client.abort(e),
            },
            Phase::Optical => match classify_optical(&response) {
                Ok(record) => client.probe(Category::Device, 0, record),
                Err(e) => client.abort(e),
            },
            Phase::Probing { category, candidate, record } => {
                match accept_page(category, response) {
                    Some(body) => {
                        let mut record = record;
                        merge_page(&mut record, category, body.as_str());
                        client.after_category(category, record)
                    },
                    None => {
                        if candidate < CANDIDATES - 1 {
                            client.probe(category, candidate + 1, record)
                        } else {
                            client.after_category(category, record)
                        }
                    },
                }
            },
            Phase::Logout { outcome } => Step::Finished(outcome),
        }
    }
}

// ---------------------------------------------------------------------------
// What holds of every scrape

impl ScrapeView {
    /// The candidate asked for is one of those there are, and a record in
    /// hand has its five readings in decimal notation.
    pub open spec fn well_formed(self) -> bool {
        match self.phase {
            PhaseView::Probing { candidate, record, .. } => 0 <= candidate < CANDIDATES
                && record.well_formed(),
            PhaseView::Logout { outcome: Ok(record) } => record.well_formed(),
            _ => true,
        }
    }
}

/// An upper bound on the responses that a scrape still takes.
pub open spec fn steps_left(phase: PhaseView) -> int {
    match phase {
        PhaseView::Cookie => 17,
        PhaseView::Token => 16,
        PhaseView::Login => 15,
        PhaseView::Optical => 14,
        PhaseView::Probing { category: Category::Device, candidate, .. } => 13 - candidate,
        PhaseView::Probing { category: Category::Wan, candidate, .. } => 9 - candidate,
        PhaseView::Probing { category: Category::Lan, candidate, .. } => 5 - candidate,
        PhaseView::Logout { .. } => 1,
    }
}

/// The requests that a scrape sends while it takes the responses in turn,
/// until it finishes or the responses run out.
pub open spec fn requests_sent(s: ScrapeView, responses: Seq<ResponseView>) -> Seq<RequestView>
    decreases responses.len(),
{
    if responses.len() == 0 {
        seq![]
    } else {
        match next_step(s, responses[0]) {
            StepView::Send(next, request) => seq![request] + requests_sent(
                next,
                responses.drop_first(),
            ),
            StepView::Finished(_) => seq![],
        }
    }
}

/// The outcome with which a scrape finishes while it takes the responses in
/// turn; `None` where they run out before it does.
pub open spec fn outcome_after(s: ScrapeView, responses: Seq<ResponseView>) -> Option<
    Result<OntMetricsView, ScrapeError>,
>
    decreases responses.len(),
{
    if responses.len() == 0 {
        None
    } else {
        match next_step(s, responses[0]) {
            StepView::Send(next, _) => outcome_after(next, responses.drop_first()),
            StepView::Finished(outcome) => Some(outcome),
        }
    }
}

/// Merging an optional page leaves the five readings as they are.
pub proof fn lemma_merge_keeps_readings(record: OntMetricsView, category: Category, body: Seq<char>)
    ensures
        merged(record, category, body).optical() == record.optical(),
        record.well_formed() ==> merged(record, category, body).well_formed(),
{
}

/// One step of a scrape. Before the logout it always sends a request, which
/// is the logout exactly if the scrape then waits for its answer; on the
/// answer to the logout it finishes. A step keeps the state well formed and
/// brings the end nearer.
pub proof fn lemma_step(s: ScrapeView, response: ResponseView)
    requires
        s.well_formed(),
    ensures
        match next_step(s, response) {
            StepView::Send(next, request) => {
                &&& !(s.phase is Logout)
                &&& next.well_formed()
                &&& next.client == s.client
                &&& 0 < steps_left(next.phase) < steps_left(s.phase)
                &&& (request.purpose is Logout <==> next.phase is Logout)
            },
            StepView::Finished(outcome) => {
                &&& s.phase == (PhaseView::Logout { outcome })
                &&& (outcome matches Ok(record) ==> record.well_formed())
            },
        },
{
    match s.phase {
        PhaseView::Optical => {
            if let ResponseView::Reply { success: true, body: Some(body) } = response {
                lemma_optical_record(body);
            }
        },
        PhaseView::Probing { category, candidate, record } => {
            if let Some(body) = accepted_body(category, response) {
                lemma_merge_keeps_readings(record, category, body);
            }
        },
        _ => {},
    }
}

/// Every scrape ends: given as many responses as `steps_left` says, at most
/// seventeen for a whole scrape, it finishes.
pub proof fn lemma_scrape_finishes(s: ScrapeView, responses: Seq<ResponseView>)
    requires
        s.well_formed(),
        responses.len() >= steps_left(s.phase),
    ensures
        outcome_after(s, responses) is Some,
    decreases responses.len(),
{
    lemma_step(s, responses[0]);
    match next_step(s, responses[0]) {
        StepView::Send(next, _) => {
            lemma_scrape_finishes(next, responses.drop_first());
        },
        StepView::Finished(_) => {},
    }
}

/// The logout is sent exactly once in every scrape that finishes, whatever
/// came before, and it is the last request sent.
pub proof fn lemma_logout_sent_once(s: ScrapeView, responses: Seq<ResponseView>)
    requires
        s.well_formed(),
        !(s.phase is Logout),
        outcome_after(s, responses) is Some,
    ensures
        requests_sent(s, responses).len() >= 1,
        requests_sent(s, responses).last().purpose is Logout,
        forall|i: int|
            0 <= i < requests_sent(s, responses).len() - 1 ==> !(
            #[trigger] requests_sent(s, responses)[i].purpose is Logout),
    decreases responses.len(),
{
    let rest = responses.drop_first();
    lemma_step(s, responses[0]);
    match next_step(s, responses[0]) {
        StepView::Send(next, request) => {
            let later = requests_sent(next, rest);
            let sent = requests_sent(s, responses);
            assert(sent == seq![request] + later);
            if next.phase is Logout {
                lemma_step(next, rest[0]);
                assert(later.len() == 0);
            } else {
                lemma_logout_sent_once(next, rest);
                assert(sent.last() == later.last());
                assert forall|i: int| 0 <= i < sent.len() - 1 implies !(
                #[trigger] sent[i].purpose is Logout) by {
                    if i > 0 {
                        assert(sent[i] == later[i - 1]);
                    }
                }
            }
        },
        StepView::Finished(_) => {},
    }
}

/// Once the optical page has given its readings, the scrape succeeds with
/// them, whatever the optional pages answer.
pub proof fn lemma_readings_survive(s: ScrapeView, responses: Seq<ResponseView>)
    requires
        s.well_formed(),
        s.phase is Probing,
        outcome_after(s, responses) is Some,
    ensures
        outcome_after(s, responses).unwrap() matches Ok(last) && last.optical()
            == s.phase->record.optical() && last.well_formed(),
    decreases responses.len(),
{
    let rest = responses.drop_first();
    let record = s.phase->record;
    let category = s.phase->category;
    lemma_step(s, responses[0]);
    if let Some(body) = accepted_body(category, responses[0]) {
        lemma_merge_keeps_readings(record, category, body);
    }
    match next_step(s, responses[0]) {
        StepView::Send(next, _) => {
            if next.phase is Probing {
                lemma_readings_survive(next, rest);
            } else {
                lemma_step(next, rest[0]);
            }
        },
        StepView::Finished(_) => {},
    }
}

/// The outcome of a whole scrape, from its first request on. It is decided
/// by three responses: that to the token request, that to the credentials
/// and that to the request for the optical page. Where all three are
/// good, the scrape succeeds with the readings of the optical page;
/// else it fails with the error of the first that is not. The responses
/// to the cookie request, the optional pages and the logout never fail it.
pub proof fn lemma_scrape_outcome(s: ScrapeView, responses: Seq<ResponseView>)
    requires
        s.phase is Cookie,
        outcome_after(s, responses) is Some,
    ensures
        responses.len() >= 3,
        match outcome_after(s, responses).unwrap() {
            Ok(record) => {
                &&& responses.len() >= 5
                &&& token_in(responses[1]) is Some
                &&& login_outcome(responses[2]) is Ok
                &&& optical_outcome(responses[3]) matches Ok(first)
                &&& record.optical() == first.optical()
                &&& record.well_formed()
            },
            Err(e) => if token_in(responses[1]) is None {
                e == ScrapeError::AuthenticationFailure
            } else if login_outcome(responses[2]) is Err {
                responses.len() >= 4 && login_outcome(responses[2]) == Err::<(), ScrapeError>(e)
            } else {
                responses.len() >= 5 && optical_outcome(responses[3]) == Err::<
                    OntMetricsView,
                    ScrapeError,
                >(e)
            },
        },
{
    let client = s.client;
    let r1 = responses.drop_first();
    let s1 = ScrapeView { client, phase: PhaseView::Token };
    assert(outcome_after(s1, r1) is Some);
    assert(r1[0] == responses[1]);
    let r2 = r1.drop_first();
    if token_in(r1[0]) is None {
        let out = ScrapeView {
            client,
            phase: PhaseView::Logout { outcome: Err(ScrapeError::AuthenticationFailure) },
        };
        assert(outcome_after(out, r2) is Some);
    } else {
        let s2 = ScrapeView { client, phase: PhaseView::Login };
        assert(outcome_after(s2, r2) is Some);
        assert(r2[0] == responses[2]);
        let r3 = r2.drop_first();
        match login_outcome(r2[0]) {
            Err(e) => {
                let out = ScrapeView { client, phase: PhaseView::Logout { outcome: Err(e) } };
                assert(outcome_after(out, r3) is Some);
            },
            Ok(_) => {
                let s3 = ScrapeView { client, phase: PhaseView::Optical };
                assert(outcome_after(s3, r3) is Some);
                assert(r3[0] == responses[3]);
                let r4 = r3.drop_first();
                match optical_outcome(r3[0]) {
                    Err(e) => {
                        let out = ScrapeView {
                            client,
                            phase: PhaseView::Logout { outcome: Err(e) },
                        };
                        assert(outcome_after(out, r4) is Some);
                    },
                    Ok(first) => {
                        let s4 = ScrapeView {
                            client,
                            phase: PhaseView::Probing {
                                category: Category::Device,
                                candidate: 0,
                                record: first,
                            },
                        };
                        assert(outcome_after(s4, r4) is Some);
                        lemma_step(s3, r3[0]);
                        lemma_readings_survive(s4, r4);
                    },
                }
            },
        }
    }
}

/// No response is accepted for any optional page.
pub open spec fn all_refused(responses: Seq<ResponseView>) -> bool {
    forall|i: int, category: Category|
        0 <= i < responses.len() ==> #[trigger] accepted_body(category, responses[i]) is None
}

/// From any point behind the optical page: where every response from there
/// on is refused, the scrape succeeds with the record it has at that point,
/// unchanged.
pub proof fn lemma_failed_pages_leave_record(s: ScrapeView, responses: Seq<ResponseView>)
    requires
        s.well_formed(),
        s.phase is Probing,
        all_refused(responses),
        outcome_after(s, responses) is Some,
    ensures
        outcome_after(s, responses) == Some(
            Ok::<OntMetricsView, ScrapeError>(s.phase->record),
        ),
    decreases responses.len(),
{
    let rest = responses.drop_first();
    lemma_step(s, responses[0]);
    assert(accepted_body(s.phase->category, responses[0]) is None);
    assert forall|i: int, category: Category| 0 <= i < rest.len() implies #[trigger] accepted_body(
        category,
        rest[i],
    ) is None by {
        assert(rest[i] == responses[i + 1]);
    }
    match next_step(s, responses[0]) {
        StepView::Send(next, _) => {
            if next.phase is Probing {
                lemma_failed_pages_leave_record(next, rest);
            } else {
                lemma_step(next, rest[0]);
            }
        },
        StepView::Finished(_) => {},
    }
}

/// The fields that one optional page fills are all absent from the record.
pub open spec fn category_absent(record: OntMetricsView, category: Category) -> bool {
    match category {
        Category::Device => {
            &&& record.device_model is None
            &&& record.serial_number is None
            &&& record.software_version is None
            &&& record.hardware_version is None
            &&& record.mac_address is None
            &&& record.uptime_seconds is None
        },
        Category::Wan => {
            &&& record.wan_status is None
            &&& record.wan_ip is None
            &&& record.wan_rx_bytes is None
            &&& record.wan_tx_bytes is None
        },
        Category::Lan => {
            &&& record.lan_clients_count is None
            &&& record.wifi_clients_count is None
            &&& record.total_clients_count is None
        },
    }
}

/// While the scrape takes the responses in turn, every response that it
/// takes for a candidate of `category` is refused: the page fails on all
/// the paths that are tried for it.
pub open spec fn category_refused(
    s: ScrapeView,
    responses: Seq<ResponseView>,
    category: Category,
) -> bool
    decreases responses.len(),
{
    if responses.len() == 0 {
        true
    } else {
        &&& (s.phase is Probing && s.phase->category == category ==> accepted_body(
            category,
            responses[0],
        ) is None)
        &&& match next_step(s, responses[0]) {
            StepView::Send(next, _) => category_refused(next, responses.drop_first(), category),
            StepView::Finished(_) => true,
        }
    }
}

/// The record that the scrape has in hand, if it has one, is without the
/// fields of `category`.
pub open spec fn category_still_absent(s: ScrapeView, category: Category) -> bool {
    match s.phase {
        PhaseView::Probing { record, .. } => category_absent(record, category),
        PhaseView::Logout { outcome: Ok(record) } => category_absent(record, category),
        _ => true,
    }
}

/// Merging one optional page leaves the fields of every other page as they are.
pub proof fn lemma_merge_keeps_other_categories(
    record: OntMetricsView,
    merged_category: Category,
    body: Seq<char>,
    category: Category,
)
    requires
        merged_category != category,
    ensures
        category_absent(merged(record, merged_category, body), category) == category_absent(
            record,
            category,
        ),
{
}

/// Where an optional page fails on every path tried for it, its fields are
/// absent from the record with which the scrape succeeds. This holds from
/// any point of a scrape at which they are absent, and so from its start.
pub proof fn lemma_refused_category_stays_absent(
    s: ScrapeView,
    responses: Seq<ResponseView>,
    category: Category,
)
    requires
        category_still_absent(s, category),
        category_refused(s, responses, category),
        outcome_after(s, responses) is Some,
    ensures
        outcome_after(s, responses).unwrap() matches Ok(record) ==> category_absent(
            record,
            category,
        ),
    decreases responses.len(),
{
    let rest = responses.drop_first();
    match s.phase {
        PhaseView::Optical => {
            if let ResponseView::Reply { success: true, body: Some(body) } = responses[0] {
                lemma_optical_record(body);
            }
        },
        PhaseView::Probing { category: asked, candidate, record } => {
            if let Some(body) = accepted_body(asked, responses[0]) {
                assert(asked != category);
                lemma_merge_keeps_other_categories(record, asked, body, category);
            }
        },
        _ => {},
    }
    match next_step(s, responses[0]) {
        StepView::Send(next, _) => {
            assert(category_still_absent(next, category));
            lemma_refused_category_stays_absent(next, rest, category);
        },
        StepView::Finished(_) => {},
    }
}

/// A whole scrape in which one optional page fails on every path tried for
/// it. Where the token, the login and the optical page are good, the scrape
/// succeeds all the same: its record has the five readings of the optical
/// page, and the fields of the failed page are absent.
pub proof fn lemma_failed_page_leaves_fields_absent(
    s: ScrapeView,
    responses: Seq<ResponseView>,
    category: Category,
)
    requires
        s.phase is Cookie,
        outcome_after(s, responses) is Some,
        responses.len() >= 4,
        token_in(responses[1]) is Some,
        login_outcome(responses[2]) is Ok,
        optical_outcome(responses[3]) is Ok,
        category_refused(s, responses, category),
    ensures
        outcome_after(s, responses).unwrap() matches Ok(record) && record.optical()
            == optical_outcome(responses[3]).unwrap().optical() && record.well_formed()
            && category_absent(record, category),
{
    lemma_scrape_outcome(s, responses);
    lemma_refused_category_stays_absent(s, responses, category);
}

/// A whole scrape in which every optional page fails: the record is that of
/// the optical page, the five readings and nothing else.
pub proof fn lemma_all_pages_failed(s: ScrapeView, responses: Seq<ResponseView>)
    requires
        s.phase is Cookie,
        outcome_after(s, responses) is Some,
        responses.len() >= 4,
        token_in(responses[1]) is Some,
        login_outcome(responses[2]) is Ok,
        optical_outcome(responses[3]) is Ok,
        category_refused(s, responses, Category::Device),
        category_refused(s, responses, Category::Wan),
        category_refused(s, responses, Category::Lan),
    ensures
        outcome_after(s, responses).unwrap() == optical_outcome(responses[3]),
{
    lemma_failed_page_leaves_fields_absent(s, responses, Category::Device);
    lemma_failed_page_leaves_fields_absent(s, responses, Category::Wan);
    lemma_failed_page_leaves_fields_absent(s, responses, Category::Lan);
    if let ResponseView::Reply { success: true, body: Some(body) } = responses[3] {
        lemma_optical_record(body);
    }
    let record = outcome_after(s, responses).unwrap().unwrap();
    let first = optical_outcome(responses[3]).unwrap();
    assert(record == first);
}

/// What a step does on a response, where it sends on; a finished scrape stays finished.
pub open spec fn and_then(step: StepView, response: ResponseView) -> StepView {
    match step {
        StepView::Send(next, _) => next_step(next, response),
        StepView::Finished(outcome) => StepView::Finished(outcome),
    }
}

/// Where all four candidates of one optional page fail, the scrape goes on
/// to what follows that page with the record unchanged.
pub proof fn lemma_exhausted_category(
    s: ScrapeView,
    first: ResponseView,
    second: ResponseView,
    third: ResponseView,
    fourth: ResponseView,
)
    requires
        s.phase is Probing,
        s.phase->candidate == 0,
        accepted_body(s.phase->category, first) is None,
        accepted_body(s.phase->category, second) is None,
        accepted_body(s.phase->category, third) is None,
        accepted_body(s.phase->category, fourth) is None,
    ensures
        and_then(and_then(and_then(next_step(s, first), second), third), fourth)
            == after_category(s.client, s.phase->category, s.phase->record),
{
}

} // verus!
