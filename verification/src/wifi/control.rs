//! The decisions of the Wi-Fi control task: which credentials a connect
//! uses, which security mode it uses and what is reported when it fails,
//! what a scan keeps, and how the status reads after each step.

use vstd::prelude::*;
use vstd::string::StringSliceAdditionalSpecFns;
use vstd::utf8::encode_utf8;
use crate::wifi::{ScanAuth, WifiScanResult, WifiScanResults, WifiState, WifiStatus, WIFI_SCAN_MAX_RESULTS, WIFI_SSID_MAX_LEN};
use crate::wifi::storage::StorageError;

verus! {

/// The security modes the radio knows.
#[derive(Clone, Copy, PartialEq, Eq, Structural, Debug)]
pub enum AuthMethod {
    Open,
    Wep,
    Wpa,
    Wpa2Personal,
    WpaWpa2Personal,
    Wpa2Enterprise,
    Wpa3Personal,
    Wpa2Wpa3Personal,
    WapiPersonal,
    /// Any mode newer than these.
    Other,
}

pub open spec fn scan_auth_of(auth: Option<AuthMethod>) -> ScanAuth {
    match auth {
        Some(AuthMethod::Open) => ScanAuth::Open,
        Some(AuthMethod::Wpa) => ScanAuth::Wpa,
        Some(AuthMethod::Wpa2Personal) => ScanAuth::Wpa2Personal,
        Some(AuthMethod::WpaWpa2Personal) => ScanAuth::Wpa2Personal,
        Some(AuthMethod::Wpa3Personal) => ScanAuth::Wpa3Personal,
        Some(AuthMethod::Wpa2Wpa3Personal) => ScanAuth::Wpa2Wpa3Personal,
        _ => ScanAuth::Unknown,
    }
}

/// The security of a scanned access point as the status reports it.
pub fn map_auth(auth: Option<AuthMethod>) -> (a: ScanAuth)
    ensures
        a == scan_auth_of(auth),
{
    match auth {
        Some(AuthMethod::Open) => ScanAuth::Open,
        Some(AuthMethod::Wpa) => ScanAuth::Wpa,
        Some(AuthMethod::Wpa2Personal) | Some(AuthMethod::WpaWpa2Personal) => ScanAuth::Wpa2Personal,
        Some(AuthMethod::Wpa3Personal) => ScanAuth::Wpa3Personal,
        Some(AuthMethod::Wpa2Wpa3Personal) => ScanAuth::Wpa2Wpa3Personal,
        _ => ScanAuth::Unknown,
    }
}

/// The security a scan reported for a network: that of the first scanned
/// access point with the name.
pub open spec fn scanned_auth(entries: Seq<WifiScanResult>, ssid: Seq<char>) -> Option<ScanAuth>
    decreases entries.len(),
{
    if entries.len() == 0 {
        None
    } else if entries[0].ssid@ == ssid {
        Some(entries[0].auth)
    } else {
        scanned_auth(entries.drop_first(), ssid)
    }
}

/// The one mode a connect uses: an open network for an empty passphrase;
/// else the mode the last scan reported for the network, and WPA2-Personal
/// where the scan did not see it or could not tell.
pub open spec fn auth_method_spec(entries: Seq<WifiScanResult>, ssid: Seq<char>, passphrase: Seq<char>) -> AuthMethod {
    if passphrase.len() == 0 {
        AuthMethod::Open
    } else {
        match scanned_auth(entries, ssid) {
            Some(ScanAuth::Open) => AuthMethod::Open,
            Some(ScanAuth::Wpa) => AuthMethod::Wpa,
            Some(ScanAuth::Wpa3Personal) => AuthMethod::Wpa3Personal,
            Some(ScanAuth::Wpa2Wpa3Personal) => AuthMethod::Wpa2Wpa3Personal,
            _ => AuthMethod::Wpa2Personal,
        }
    }
}

fn find_scanned_auth(entries: &Vec<WifiScanResult>, ssid: &str) -> (r: Option<ScanAuth>)
    ensures
        r == scanned_auth(entries@, ssid@),
{
    let mut i: usize = 0;
    assert(entries@.skip(0) =~= entries@);
    while i < entries.len()
        invariant
            i <= entries@.len(),
            scanned_auth(entries@, ssid@) == scanned_auth(entries@.skip(i as int), ssid@),
        decreases entries@.len() - i,
    {
        proof {
            assert(entries@.skip(i as int).drop_first() =~= entries@.skip(i + 1));
        }
        if crate::text::str_equal(entries[i].ssid.as_str(), ssid) {
            return Some(entries[i].auth);
        }
        i = i + 1;
    }
    assert(entries@.skip(i as int) =~= Seq::<WifiScanResult>::empty());
    None
}

/// Chooses the mode a connect to `ssid` uses, from the last scan's results.
pub fn auth_method_for(scan: &WifiScanResults, ssid: &str, passphrase: &str) -> (m: AuthMethod)
    ensures
        m == auth_method_spec(scan.entries@, ssid@, passphrase@),
{
    if passphrase.is_empty() {
        return AuthMethod::Open;
    }
    match find_scanned_auth(&scan.entries, ssid) {
        Some(ScanAuth::Open) => AuthMethod::Open,
        Some(ScanAuth::Wpa) => AuthMethod::Wpa,
        Some(ScanAuth::Wpa3Personal) => AuthMethod::Wpa3Personal,
        Some(ScanAuth::Wpa2Wpa3Personal) => AuthMethod::Wpa2Wpa3Personal,
        _ => AuthMethod::Wpa2Personal,
    }
}

/// The error reported when a connect fails: whether it got as far as
/// connecting tells a failed connect from a configuration the radio refused.
pub fn connect_failure_message(reached_connect: bool) -> (s: &'static str)
    ensures
        s@ == if reached_connect { "connect failed"@ } else { "config failed"@ },
{
    if reached_connect {
        "connect failed"
    } else {
        "config failed"
    }
}

/// An access point as a scan reports it.
pub struct AccessPoint {
    pub ssid: String,
    pub bssid: [u8; 6],
    pub channel: u8,
    pub signal_strength: i8,
    pub auth: Option<AuthMethod>,
}

/// Whether a scanned access point is kept: its SSID must fit.
pub open spec fn ap_kept(ap: AccessPoint) -> bool {
    encode_utf8(ap.ssid@).len() <= WIFI_SSID_MAX_LEN
}

/// The result kept for an access point.
pub open spec fn result_of(ap: AccessPoint) -> (Seq<char>, Seq<u8>, u8, i8, ScanAuth) {
    (ap.ssid@, ap.bssid@, ap.channel, ap.signal_strength, scan_auth_of(ap.auth))
}

pub open spec fn result_view(r: WifiScanResult) -> (Seq<char>, Seq<u8>, u8, i8, ScanAuth) {
    (r.ssid@, r.bssid@, r.channel, r.signal_strength, r.auth)
}

/// The results a scan keeps: the access points whose SSID fits, in the
/// order found, at most [`WIFI_SCAN_MAX_RESULTS`] of them.
pub open spec fn kept_results(aps: Seq<AccessPoint>) -> Seq<(Seq<char>, Seq<u8>, u8, i8, ScanAuth)>
    decreases aps.len(),
{
    if aps.len() == 0 {
        Seq::empty()
    } else {
        let rest = kept_results(aps.drop_last());
        if ap_kept(aps.last()) && rest.len() < WIFI_SCAN_MAX_RESULTS {
            rest.push(result_of(aps.last()))
        } else {
            rest
        }
    }
}

pub proof fn lemma_kept_bounded(aps: Seq<AccessPoint>)
    ensures
        kept_results(aps).len() <= WIFI_SCAN_MAX_RESULTS,
    decreases aps.len(),
{
    if aps.len() > 0 {
        lemma_kept_bounded(aps.drop_last());
    }
}

/// Builds the scan results from what the radio found.
pub fn collect_scan_results(aps: &Vec<AccessPoint>) -> (r: WifiScanResults)
    ensures
        r.entries@.map_values(|e: WifiScanResult| result_view(e)) == kept_results(aps@),
        r.entries@.len() <= WIFI_SCAN_MAX_RESULTS,
{
    let mut out = WifiScanResults::new();
    let mut i: usize = 0;
    while i < aps.len()
        invariant
            i <= aps@.len(),
            out.entries@.map_values(|e: WifiScanResult| result_view(e)) == kept_results(aps@.take(i as int)),
        decreases aps@.len() - i,
    {
        let ghost before = out.entries@;
        proof {
            assert(aps@.take(i + 1).drop_last() =~= aps@.take(i as int));
            lemma_kept_bounded(aps@.take(i as int));
        }
        let ap = &aps[i];
        let name = ap.ssid.as_str();
        let fits = name.as_bytes().len() <= WIFI_SSID_MAX_LEN;
        assert(fits == ap_kept(aps@[i as int]));
        assert(aps@.take(i + 1).last() == aps@[i as int]);
        if fits && out.entries.len() < WIFI_SCAN_MAX_RESULTS {
            let entry = WifiScanResult {
                ssid: ap.ssid.clone(),
                bssid: ap.bssid,
                channel: ap.channel,
                signal_strength: ap.signal_strength,
                auth: map_auth(ap.auth),
            };
            out.entries.push(entry);
            proof {
                assert(out.entries@.map_values(|e: WifiScanResult| result_view(e)) =~= before.map_values(
                    |e: WifiScanResult| result_view(e),
                ).push(result_of(aps@[i as int])));
            }
        } else {
            assert(out.entries@.map_values(|e: WifiScanResult| result_view(e)).len() == out.entries@.len());
        }
        i = i + 1;
    }
    proof {
        assert(aps@.take(aps@.len() as int) =~= aps@);
        lemma_kept_bounded(aps@);
    }
    out
}

/// The credentials the last connect used, kept for a reconnect.
pub struct WifiControl {
    last_credentials: Option<(String, String)>,
}

pub open spec fn pair_view(p: Option<(String, String)>) -> Option<(Seq<char>, Seq<char>)> {
    match p {
        Some((a, b)) => Some((a@, b@)),
        None => None,
    }
}

impl WifiControl {
    pub closed spec fn last(&self) -> Option<(Seq<char>, Seq<char>)> {
        pair_view(self.last_credentials)
    }

    pub fn new() -> (c: Self)
        ensures
            c.last() is None,
    {
        WifiControl { last_credentials: None }
    }

    /// A connect with explicit credentials: they are kept for a reconnect.
    pub fn remember(&mut self, ssid: &String, passphrase: &String)
        ensures
            final(self).last() == Some((ssid@, passphrase@)),
    {
        self.last_credentials = Some((ssid.clone(), passphrase.clone()));
    }

    /// What a reconnect uses without loading anything: the credentials of the
    /// last connect.
    pub fn reconnect_credentials(&self) -> (c: Option<(String, String)>)
        ensures
            pair_view(c) == self.last(),
    {
        match &self.last_credentials {
            Some((s, p)) => Some((s.clone(), p.clone())),
            None => None,
        }
    }

    /// The saved credentials were loaded for a connect: loaded ones are used
    /// and kept; none saved is refused with the message of the request, a
    /// failed load with "credential load failed".
    pub fn on_credentials_loaded(
        &mut self,
        loaded: Result<Option<(String, String)>, StorageError>,
        purpose: CredentialRequest,
    ) -> (r: Result<(String, String), &'static str>)
        ensures
            match loaded {
                Ok(Some((s, p))) => r matches Ok((a, b)) && a@ == s@ && b@ == p@ && final(self).last() == Some(
                    (s@, p@),
                ),
                Ok(None) => r matches Err(m) && m@ == missing_credentials_message(purpose) && final(self).last()
                    == old(self).last(),
                Err(_) => r matches Err(m) && m@ == "credential load failed"@ && final(self).last()
                    == old(self).last(),
            },
    {
        match loaded {
            Ok(Some((s, p))) => {
                self.remember(&s, &p);
                Ok((s, p))
            },
            Ok(None) => {
                proof {
                    reveal_strlit("no saved credentials");
                    reveal_strlit("no credentials available");
                }
                match purpose {
                    CredentialRequest::ConnectSaved => Err("no saved credentials"),
                    CredentialRequest::Reconnect => Err("no credentials available"),
                }
            },
            Err(_) => Err("credential load failed"),
        }
    }
}

/// Why the saved credentials are loaded.
#[derive(Clone, Copy, PartialEq, Eq, Structural, Debug)]
pub enum CredentialRequest {
    /// `connect-saved`.
    ConnectSaved,
    /// `reconnect`, with no credentials remembered from this session.
    Reconnect,
}

/// The error when nothing is saved.
pub open spec fn missing_credentials_message(purpose: CredentialRequest) -> Seq<char> {
    match purpose {
        CredentialRequest::ConnectSaved => "no saved credentials"@,
        CredentialRequest::Reconnect => "no credentials available"@,
    }
}

/// The status with an error recorded.
pub fn with_error(status: WifiStatus, msg: &'static str) -> (s: WifiStatus)
    ensures
        s.state == WifiState::Error,
        s.last_error == Some(msg),
        s.ssid == status.ssid,
        s.station_ip == status.station_ip,
        s.gateway_ip == status.gateway_ip,
{
    WifiStatus { state: WifiState::Error, last_error: Some(msg), ..status }
}

/// The status in a passing state, with no error.
pub fn with_state(status: WifiStatus, state: WifiState) -> (s: WifiStatus)
    ensures
        s.state == state,
        s.last_error is None,
        s.ssid == status.ssid,
        s.station_ip == status.station_ip,
        s.gateway_ip == status.gateway_ip,
{
    WifiStatus { state, last_error: None, ..status }
}

/// The status while connecting to `ssid`.
pub fn connecting(ssid: String) -> (s: WifiStatus)
    ensures
        s.state == WifiState::Connecting,
        s.ssid == Some(ssid),
        s.station_ip is None,
        s.gateway_ip is None,
        s.last_error is None,
{
    WifiStatus { state: WifiState::Connecting, ssid: Some(ssid), station_ip: None, gateway_ip: None, last_error: None }
}

/// The status once connected to `ssid` with the given addresses.
pub fn connected(ssid: String, station_ip: Option<[u8; 4]>, gateway_ip: Option<[u8; 4]>) -> (s: WifiStatus)
    ensures
        s.state == WifiState::Connected,
        s.ssid == Some(ssid),
        s.station_ip == station_ip,
        s.gateway_ip == gateway_ip,
        s.last_error is None,
{
    WifiStatus { state: WifiState::Connected, ssid: Some(ssid), station_ip, gateway_ip, last_error: None }
}

/// The status after a successful scan, from the status before it: the
/// error is cleared; with the link up it reads connected with the current
/// addresses, and a status left scanning reads disconnected.
pub fn restore_after_scan(
    before: WifiStatus,
    link_up: bool,
    station_ip: Option<[u8; 4]>,
    gateway_ip: Option<[u8; 4]>,
) -> (s: WifiStatus)
    ensures
        s.last_error is None,
        s.ssid == before.ssid,
        link_up ==> s.state == WifiState::Connected && s.station_ip == station_ip && s.gateway_ip == gateway_ip,
        !link_up && before.state == WifiState::Scanning ==> s.state == WifiState::Disconnected
            && s.station_ip is None && s.gateway_ip is None,
        !link_up && before.state != WifiState::Scanning ==> s.state == before.state && s.station_ip
            == before.station_ip && s.gateway_ip == before.gateway_ip,
{
    let mut restored = before;
    restored.last_error = None;
    if link_up {
        restored.state = WifiState::Connected;
        restored.station_ip = station_ip;
        restored.gateway_ip = gateway_ip;
    } else if restored.state == WifiState::Scanning {
        restored.state = WifiState::Disconnected;
        restored.station_ip = None;
        restored.gateway_ip = None;
    }
    restored
}

/// A ping's round-trip time in whole milliseconds, saturated to `u32`.
pub fn reply_time_ms(ms: u64) -> (t: u32)
    ensures
        t == if ms > u32::MAX { u32::MAX as u64 } else { ms },
{
    if ms > u32::MAX as u64 {
        u32::MAX
    } else {
        ms as u32
    }
}

/// What touches the credentials a reconnect uses.
pub enum CredentialEvent {
    /// A connect with explicit credentials.
    Connect(Seq<char>, Seq<char>),
    /// A load of the saved credentials for a connect, and what it gave.
    Loaded(Result<Option<(Seq<char>, Seq<char>)>, StorageError>),
}

/// The credentials kept after one event ([`WifiControl::remember`] and
/// [`WifiControl::on_credentials_loaded`]).
pub open spec fn kept_after(last: Option<(Seq<char>, Seq<char>)>, e: CredentialEvent) -> Option<(Seq<char>, Seq<char>)> {
    match e {
        CredentialEvent::Connect(s, p) => Some((s, p)),
        CredentialEvent::Loaded(Ok(Some(c))) => Some(c),
        CredentialEvent::Loaded(_) => last,
    }
}

/// The credentials kept after a run of events.
pub open spec fn kept_after_run(last: Option<(Seq<char>, Seq<char>)>, events: Seq<CredentialEvent>) -> Option<
    (Seq<char>, Seq<char>),
>
    decreases events.len(),
{
    if events.len() == 0 {
        last
    } else {
        kept_after(kept_after_run(last, events.drop_last()), events.last())
    }
}

/// Whether an event leaves credentials: an explicit connect or a load that
/// found some.
pub open spec fn gives_credentials(e: CredentialEvent) -> bool {
    e is Connect || e matches CredentialEvent::Loaded(Ok(Some(_)))
}

/// The credentials an event leaves.
pub open spec fn credentials_of(e: CredentialEvent) -> (Seq<char>, Seq<char>) {
    match e {
        CredentialEvent::Connect(s, p) => (s, p),
        CredentialEvent::Loaded(Ok(Some(c))) => c,
        _ => (Seq::empty(), Seq::empty()),
    }
}

/// The event at `j` is the latest that leaves credentials.
pub open spec fn latest_giving(events: Seq<CredentialEvent>, j: int) -> bool {
    &&& 0 <= j < events.len()
    &&& gives_credentials(events[j])
    &&& forall|k: int| j < k < events.len() ==> !gives_credentials(#[trigger] events[k])
}

/// A reconnect uses, without reading storage, the credentials of the latest
/// explicit connect or successful load; a failed load or one that found
/// nothing changes nothing; only when no event left credentials are the
/// saved ones read.
pub proof fn law_reconnect_uses_latest(events: Seq<CredentialEvent>)
    ensures
        forall|j: int| #[trigger] latest_giving(events, j) ==> kept_after_run(None, events) == Some(
            credentials_of(events[j]),
        ),
        (forall|i: int| 0 <= i < events.len() ==> !gives_credentials(#[trigger] events[i])) ==> kept_after_run(
            None,
            events,
        ) is None,
    decreases events.len(),
{
    if events.len() > 0 {
        let pre = events.drop_last();
        let n = events.len() - 1;
        law_reconnect_uses_latest(pre);
        assert forall|j: int| #[trigger] latest_giving(events, j) implies kept_after_run(None, events) == Some(
            credentials_of(events[j]),
        ) by {
            if j < n {
                assert(!gives_credentials(events[n]));
                assert(pre[j] == events[j]);
                assert forall|k: int| j < k < pre.len() implies !gives_credentials(#[trigger] pre[k]) by {
                    assert(pre[k] == events[k]);
                }
                assert(latest_giving(pre, j));
            }
        }
        if forall|i: int| 0 <= i < events.len() ==> !gives_credentials(#[trigger] events[i]) {
            assert forall|i: int| 0 <= i < pre.len() implies !gives_credentials(#[trigger] pre[i]) by {
                assert(pre[i] == events[i]);
            }
            assert(!gives_credentials(events[n]));
        }
    }
}

} // verus!
