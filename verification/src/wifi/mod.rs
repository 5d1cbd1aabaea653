//! The station Wi-Fi: its status and scan results, and how they read on the
//! command line.

pub mod storage;
pub mod control;
pub mod handlers;

use vstd::prelude::*;
use crate::text::{decimal_chars, decimal_string, push_text, signed_decimal_chars, signed_decimal_string, string_of};

verus! {

/// Longest SSID, in bytes.
pub const WIFI_SSID_MAX_LEN: usize = 32;
/// Longest passphrase, in bytes.
pub const WIFI_PASS_MAX_LEN: usize = 64;
/// Most access points a scan keeps.
pub const WIFI_SCAN_MAX_RESULTS: usize = 16;
/// Depth of the Wi-Fi command queue.
pub const WIFI_CMD_QUEUE_DEPTH: usize = 8;

#[derive(Clone, Copy, PartialEq, Eq, Structural, Debug)]
pub enum WifiState {
    Disconnected,
    Connecting,
    Connected,
    Scanning,
    Error,
}

/// What the station reports; addresses are IPv4 octets.
#[derive(Clone, Debug)]
pub struct WifiStatus {
    pub state: WifiState,
    pub ssid: Option<String>,
    pub station_ip: Option<[u8; 4]>,
    pub gateway_ip: Option<[u8; 4]>,
    pub last_error: Option<&'static str>,
}

impl WifiStatus {
    /// Disconnected, with nothing known.
    pub fn new() -> (s: Self)
        ensures
            s.state == WifiState::Disconnected,
            s.ssid is None,
            s.station_ip is None,
            s.gateway_ip is None,
            s.last_error is None,
    {
        WifiStatus { state: WifiState::Disconnected, ssid: None, station_ip: None, gateway_ip: None, last_error: None }
    }
}

#[derive(Clone, Copy, PartialEq, Eq, Structural, Debug)]
pub enum ScanAuth {
    Open,
    Wpa,
    Wpa2Personal,
    Wpa3Personal,
    Wpa2Wpa3Personal,
    Unknown,
}

/// An access point found by a scan.
#[derive(Clone, Debug)]
pub struct WifiScanResult {
    pub ssid: String,
    pub bssid: [u8; 6],
    pub channel: u8,
    pub signal_strength: i8,
    pub auth: ScanAuth,
}

/// The access points of the last scan, at most [`WIFI_SCAN_MAX_RESULTS`].
#[derive(Clone, Debug)]
pub struct WifiScanResults {
    pub entries: Vec<WifiScanResult>,
}

impl WifiScanResults {
    pub fn new() -> (r: Self)
        ensures
            r.entries@.len() == 0,
    {
        WifiScanResults { entries: Vec::new() }
    }
}

#[derive(Clone, Copy, PartialEq, Eq, Structural, Debug)]
pub enum PingResult {
    Reply { time_ms: u32 },
    Timeout,
    NoLink,
    Error,
}

pub open spec fn state_text(state: WifiState) -> Seq<char> {
    match state {
        WifiState::Disconnected => "disconnected"@,
        WifiState::Connecting => "connecting"@,
        WifiState::Connected => "connected"@,
        WifiState::Scanning => "scanning"@,
        WifiState::Error => "error"@,
    }
}

/// The state as the command line names it.
pub fn state_str(state: WifiState) -> (s: &'static str)
    ensures
        s@ == state_text(state),
{
    match state {
        WifiState::Disconnected => "disconnected",
        WifiState::Connecting => "connecting",
        WifiState::Connected => "connected",
        WifiState::Scanning => "scanning",
        WifiState::Error => "error",
    }
}

pub open spec fn auth_text(auth: ScanAuth) -> Seq<char> {
    match auth {
        ScanAuth::Open => "open"@,
        ScanAuth::Wpa => "wpa"@,
        ScanAuth::Wpa2Personal => "wpa2"@,
        ScanAuth::Wpa3Personal => "wpa3"@,
        ScanAuth::Wpa2Wpa3Personal => "wpa2-wpa3"@,
        ScanAuth::Unknown => "unknown"@,
    }
}

/// The security of an access point as the command line names it.
pub fn auth_str(auth: ScanAuth) -> (s: &'static str)
    ensures
        s@ == auth_text(auth),
{
    match auth {
        ScanAuth::Open => "open",
        ScanAuth::Wpa => "wpa",
        ScanAuth::Wpa2Personal => "wpa2",
        ScanAuth::Wpa3Personal => "wpa3",
        ScanAuth::Wpa2Wpa3Personal => "wpa2-wpa3",
        ScanAuth::Unknown => "unknown",
    }
}

/// Dotted-decimal notation of an IPv4 address.
pub open spec fn ipv4_text(ip: Seq<u8>) -> Seq<char> {
    decimal_chars(ip[0] as nat) + "."@ + decimal_chars(ip[1] as nat) + "."@ + decimal_chars(ip[2] as nat)
        + "."@ + decimal_chars(ip[3] as nat)
}

pub fn ipv4_string(ip: [u8; 4]) -> (s: String)
    ensures
        s@ == ipv4_text(ip@),
{
    let mut s = decimal_string(ip[0] as u64);
    push_text(&mut s, ".");
    let d = decimal_string(ip[1] as u64);
    push_text(&mut s, d.as_str());
    push_text(&mut s, ".");
    let d = decimal_string(ip[2] as u64);
    push_text(&mut s, d.as_str());
    push_text(&mut s, ".");
    let d = decimal_string(ip[3] as u64);
    push_text(&mut s, d.as_str());
    s
}

/// The lines of `wifi status`.
pub open spec fn status_text(st: WifiStatus) -> Seq<Seq<char>> {
    seq!["wifi state: "@ + state_text(st.state)]
        + (match st.ssid { Some(s) => seq!["ssid: "@ + s@], None => Seq::empty() })
        + (match st.station_ip { Some(ip) => seq!["station ip: "@ + ipv4_text(ip@)], None => Seq::empty() })
        + (match st.gateway_ip { Some(ip) => seq!["gateway ip: "@ + ipv4_text(ip@)], None => Seq::empty() })
        + (match st.last_error { Some(e) => seq!["last error: "@ + e@], None => Seq::empty() })
}

pub open spec fn lines_view(lines: Seq<String>) -> Seq<Seq<char>> {
    lines.map_values(|l: String| l@)
}

fn prefixed(prefix: &str, t: &str) -> (s: String)
    ensures
        s@ == prefix@ + t@,
{
    let mut s = string_of(prefix);
    push_text(&mut s, t);
    s
}

fn push_line(lines: &mut Vec<String>, line: String)
    ensures
        lines_view(final(lines)@) == lines_view(old(lines)@).push(line@),
{
    lines.push(line);
    proof {
        assert(lines_view(lines@) =~= lines_view(old(lines)@).push(line@));
    }
}

/// The lines of `wifi status`.
pub fn status_lines(st: &WifiStatus) -> (lines: Vec<String>)
    ensures
        lines_view(lines@) == status_text(*st),
{
    let mut lines: Vec<String> = Vec::new();
    push_line(&mut lines, prefixed("wifi state: ", state_str(st.state)));
    if let Some(s) = &st.ssid {
        push_line(&mut lines, prefixed("ssid: ", s.as_str()));
    }
    if let Some(ip) = st.station_ip {
        let t = ipv4_string(ip);
        push_line(&mut lines, prefixed("station ip: ", t.as_str()));
    }
    if let Some(ip) = st.gateway_ip {
        let t = ipv4_string(ip);
        push_line(&mut lines, prefixed("gateway ip: ", t.as_str()));
    }
    if let Some(e) = st.last_error {
        push_line(&mut lines, prefixed("last error: ", e));
    }
    proof {
        assert(lines_view(lines@) =~= status_text(*st));
    }
    lines
}

/// The line of `wifi ip` (or `wifi gateway`): the address, or that it is
/// not known.
pub fn address_line(ip: Option<[u8; 4]>, unavailable: &'static str) -> (s: String)
    ensures
        s@ == match ip {
            Some(a) => ipv4_text(a@),
            None => unavailable@,
        },
{
    match ip {
        Some(a) => ipv4_string(a),
        None => string_of(unavailable),
    }
}

/// One line of `wifi scan-results`.
pub open spec fn scan_line_text(e: WifiScanResult) -> Seq<char> {
    "ssid="@ + e.ssid@ + " rssi="@ + signed_decimal_chars(e.signal_strength as int) + " ch="@
        + decimal_chars(e.channel as nat) + " auth="@ + auth_text(e.auth)
}

/// The lines of `wifi scan-results`.
pub open spec fn scan_text(entries: Seq<WifiScanResult>) -> Seq<Seq<char>> {
    if entries.len() == 0 {
        seq!["wifi: no scan results"@]
    } else {
        entries.map_values(|e: WifiScanResult| scan_line_text(e))
    }
}

fn scan_line(e: &WifiScanResult) -> (s: String)
    ensures
        s@ == scan_line_text(*e),
{
    let mut s = prefixed("ssid=", e.ssid.as_str());
    push_text(&mut s, " rssi=");
    let r = signed_decimal_string(e.signal_strength as i64);
    push_text(&mut s, r.as_str());
    push_text(&mut s, " ch=");
    let c = decimal_string(e.channel as u64);
    push_text(&mut s, c.as_str());
    push_text(&mut s, " auth=");
    push_text(&mut s, auth_str(e.auth));
    s
}

pub fn scan_lines(results: &WifiScanResults) -> (lines: Vec<String>)
    ensures
        lines_view(lines@) == scan_text(results.entries@),
{
    let mut lines: Vec<String> = Vec::new();
    if results.entries.len() == 0 {
        push_line(&mut lines, string_of("wifi: no scan results"));
        proof {
            assert(lines_view(lines@) =~= scan_text(results.entries@));
        }
        return lines;
    }
    let mut i: usize = 0;
    while i < results.entries.len()
        invariant
            i <= results.entries@.len(),
            lines_view(lines@) =~= results.entries@.take(i as int).map_values(|e: WifiScanResult| scan_line_text(e)),
        decreases results.entries@.len() - i,
    {
        let line = scan_line(&results.entries[i]);
        push_line(&mut lines, line);
        proof {
            assert(results.entries@.take(i + 1).map_values(|e: WifiScanResult| scan_line_text(e))
                =~= results.entries@.take(i as int).map_values(|e: WifiScanResult| scan_line_text(e)).push(
                scan_line_text(results.entries@[i as int]),
            ));
        }
        i = i + 1;
    }
    proof {
        assert(results.entries@.take(i as int) =~= results.entries@);
    }
    lines
}

/// The line printed for the outcome of `wifi ping`; `None` when no result
/// came in time.
pub open spec fn ping_text(ip: Seq<u8>, result: Option<PingResult>) -> Seq<char> {
    match result {
        Some(PingResult::Reply { time_ms }) => "reply from "@ + ipv4_text(ip) + ": "@ + decimal_chars(
            time_ms as nat,
        ) + " ms"@,
        Some(PingResult::Timeout) => "ping timeout"@,
        Some(PingResult::NoLink) => "wifi link is down"@,
        Some(PingResult::Error) => "ping failed"@,
        None => "ping timed out waiting for response"@,
    }
}

pub fn ping_line(ip: [u8; 4], result: Option<PingResult>) -> (s: String)
    ensures
        s@ == ping_text(ip@, result),
{
    match result {
        Some(PingResult::Reply { time_ms }) => {
            let a = ipv4_string(ip);
            let mut s = prefixed("reply from ", a.as_str());
            push_text(&mut s, ": ");
            let t = decimal_string(time_ms as u64);
            push_text(&mut s, t.as_str());
            push_text(&mut s, " ms");
            s
        },
        Some(PingResult::Timeout) => string_of("ping timeout"),
        Some(PingResult::NoLink) => string_of("wifi link is down"),
        Some(PingResult::Error) => string_of("ping failed"),
        None => string_of("ping timed out waiting for response"),
    }
}

} // verus!
