use beancell_holo::wifi::control::{
    auth_method_for, collect_scan_results, connect_failure_message, connected, connecting, map_auth, reply_time_ms,
    restore_after_scan, with_error, with_state, AccessPoint, AuthMethod, CredentialRequest, WifiControl,
};
use beancell_holo::wifi::handlers::{clear_line, parse_ssid_pass, WifiCliPlan, WifiCommand, WifiCommandHandler, WifiQuery};
use beancell_holo::wifi::storage::{
    decode_credentials, decode_len_prefixed, encode_credentials, encode_len_prefixed, StorageError, PASS_VALUE_LEN,
    SSID_VALUE_LEN,
};
use beancell_holo::wifi::{
    address_line, auth_str, ipv4_string, ping_line, scan_lines, state_str, status_lines, PingResult, ScanAuth,
    WifiScanResult, WifiScanResults, WifiState, WifiStatus,
};

fn args(words: &[&str]) -> Vec<String> {
    words.iter().map(|w| w.to_string()).collect()
}

#[test]
fn len_prefixed_records() {
    let rec = encode_len_prefixed("abc", 6).unwrap();
    assert_eq!(rec, vec![3, b'a', b'b', b'c', 0, 0]);
    assert_eq!(encode_len_prefixed("abcdef", 6), Err(StorageError::ValueTooLong));
    assert_eq!(encode_len_prefixed("", 1).unwrap(), vec![0]);
    assert_eq!(decode_len_prefixed(&rec, 32).unwrap(), "abc");
    assert_eq!(decode_len_prefixed(&rec, 2), Err(StorageError::InvalidEncoding));
    assert_eq!(decode_len_prefixed(&[9, b'a'], 32), Err(StorageError::InvalidEncoding));
    assert_eq!(decode_len_prefixed(&[1, 0xff], 32), Err(StorageError::InvalidEncoding));
}

#[test]
fn credentials_round_trip() {
    let (a, b) = encode_credentials("My \"Quoted\" SSID", "pa\"ss").unwrap();
    assert_eq!(a.len(), SSID_VALUE_LEN);
    assert_eq!(b.len(), PASS_VALUE_LEN);
    let (s, p) = decode_credentials(Some(a.as_slice()), Some(b.as_slice())).unwrap().unwrap();
    assert_eq!(s, "My \"Quoted\" SSID");
    assert_eq!(p, "pa\"ss");
    let (a, b) = encode_credentials("caf\u{e9}", "").unwrap();
    let (s, p) = decode_credentials(Some(a.as_slice()), Some(b.as_slice())).unwrap().unwrap();
    assert_eq!(s, "caf\u{e9}");
    assert_eq!(p, "");
    assert_eq!(decode_credentials(Some(a.as_slice()), None).unwrap(), None);
    assert_eq!(encode_credentials(&"s".repeat(33), "x"), Err(StorageError::ValueTooLong));
    assert_eq!(encode_credentials("s", &"p".repeat(65)), Err(StorageError::ValueTooLong));
    let bad = [40u8; 33];
    assert_eq!(decode_credentials(Some(&bad[..]), Some(b.as_slice())), Err(StorageError::InvalidEncoding));
}

#[test]
fn names_of_states() {
    assert_eq!(state_str(WifiState::Disconnected), "disconnected");
    assert_eq!(state_str(WifiState::Error), "error");
    assert_eq!(auth_str(ScanAuth::Wpa2Wpa3Personal), "wpa2-wpa3");
    assert_eq!(auth_str(ScanAuth::Unknown), "unknown");
}

#[test]
fn status_and_address_lines() {
    let mut st = WifiStatus::new();
    assert_eq!(status_lines(&st), args(&["wifi state: disconnected"]));
    st = connected("home".to_string(), Some([192, 168, 1, 23]), Some([192, 168, 1, 1]));
    st = with_error(st, "scan failed");
    assert_eq!(
        status_lines(&st),
        args(&[
            "wifi state: error",
            "ssid: home",
            "station ip: 192.168.1.23",
            "gateway ip: 192.168.1.1",
            "last error: scan failed",
        ])
    );
    assert_eq!(ipv4_string([10, 0, 0, 255]), "10.0.0.255");
    assert_eq!(address_line(None, "wifi: station ip unavailable"), "wifi: station ip unavailable");
    assert_eq!(address_line(Some([1, 2, 3, 4]), "x"), "1.2.3.4");
}

#[test]
fn scan_result_lines() {
    let mut r = WifiScanResults::new();
    assert_eq!(scan_lines(&r), args(&["wifi: no scan results"]));
    r.entries.push(WifiScanResult {
        ssid: "home".to_string(),
        bssid: [0; 6],
        channel: 11,
        signal_strength: -67,
        auth: ScanAuth::Wpa2Personal,
    });
    assert_eq!(scan_lines(&r), args(&["ssid=home rssi=-67 ch=11 auth=wpa2"]));
}

#[test]
fn ping_lines() {
    assert_eq!(ping_line([8, 8, 8, 8], Some(PingResult::Reply { time_ms: 23 })), "reply from 8.8.8.8: 23 ms");
    assert_eq!(ping_line([8, 8, 8, 8], Some(PingResult::Timeout)), "ping timeout");
    assert_eq!(ping_line([8, 8, 8, 8], Some(PingResult::NoLink)), "wifi link is down");
    assert_eq!(ping_line([8, 8, 8, 8], Some(PingResult::Error)), "ping failed");
    assert_eq!(ping_line([8, 8, 8, 8], None), "ping timed out waiting for response");
    assert_eq!(reply_time_ms(5_000_000_000), u32::MAX);
    assert_eq!(reply_time_ms(12), 12);
}

fn ap(ssid: &str, auth: Option<AuthMethod>) -> AccessPoint {
    AccessPoint { ssid: ssid.to_string(), bssid: [1, 2, 3, 4, 5, 6], channel: 1, signal_strength: -50, auth }
}

#[test]
fn scan_keeps_fitting_names_up_to_the_limit() {
    let mut aps = vec![ap(&"x".repeat(33), Some(AuthMethod::Wpa3Personal)), ap("a", Some(AuthMethod::WpaWpa2Personal))];
    for i in 0..20 {
        aps.push(ap(&format!("n{}", i), None));
    }
    let r = collect_scan_results(&aps);
    assert_eq!(r.entries.len(), 16);
    assert_eq!(r.entries[0].ssid, "a");
    assert_eq!(r.entries[0].auth, ScanAuth::Wpa2Personal);
    assert_eq!(r.entries[0].bssid, [1, 2, 3, 4, 5, 6]);
    assert_eq!(r.entries[1].auth, ScanAuth::Unknown);
    assert_eq!(r.entries[15].ssid, "n14");
}

#[test]
fn auth_mapping() {
    assert_eq!(map_auth(Some(AuthMethod::Open)), ScanAuth::Open);
    assert_eq!(map_auth(Some(AuthMethod::Wpa)), ScanAuth::Wpa);
    assert_eq!(map_auth(Some(AuthMethod::Wpa2Wpa3Personal)), ScanAuth::Wpa2Wpa3Personal);
    assert_eq!(map_auth(Some(AuthMethod::Wep)), ScanAuth::Unknown);
    assert_eq!(map_auth(None), ScanAuth::Unknown);
    let mut scan = WifiScanResults::new();
    scan.entries.push(WifiScanResult {
        ssid: "lab".to_string(),
        bssid: [0; 6],
        channel: 3,
        signal_strength: -30,
        auth: ScanAuth::Wpa3Personal,
    });
    assert_eq!(auth_method_for(&scan, "lab", "secret"), AuthMethod::Wpa3Personal);
    assert_eq!(auth_method_for(&scan, "lab", ""), AuthMethod::Open);
    assert_eq!(auth_method_for(&scan, "other", "secret"), AuthMethod::Wpa2Personal);
    assert_eq!(connect_failure_message(true), "connect failed");
    assert_eq!(connect_failure_message(false), "config failed");
}

#[test]
fn reconnect_uses_last_or_loaded_credentials() {
    let mut c = WifiControl::new();
    assert!(c.reconnect_credentials().is_none());
    assert_eq!(c.on_credentials_loaded(Ok(None), CredentialRequest::ConnectSaved), Err("no saved credentials"));
    assert_eq!(c.on_credentials_loaded(Ok(None), CredentialRequest::Reconnect), Err("no credentials available"));
    assert_eq!(c.on_credentials_loaded(Err(StorageError::Flash), CredentialRequest::Reconnect), Err("credential load failed"));
    let got = c.on_credentials_loaded(Ok(Some(("home".to_string(), "pw".to_string()))), CredentialRequest::ConnectSaved).unwrap();
    assert_eq!(got, ("home".to_string(), "pw".to_string()));
    assert_eq!(c.reconnect_credentials(), Some(("home".to_string(), "pw".to_string())));
    c.remember(&"lab".to_string(), &"".to_string());
    assert_eq!(c.reconnect_credentials(), Some(("lab".to_string(), "".to_string())));
}

#[test]
fn status_transitions() {
    let st = connecting("home".to_string());
    assert_eq!(st.state, WifiState::Connecting);
    let scanning = with_state(st.clone(), WifiState::Scanning);
    let restored = restore_after_scan(scanning.clone(), false, None, None);
    assert_eq!(restored.state, WifiState::Disconnected);
    let restored = restore_after_scan(scanning, true, Some([1, 1, 1, 1]), None);
    assert_eq!(restored.state, WifiState::Connected);
    assert_eq!(restored.station_ip, Some([1, 1, 1, 1]));
    let restored = restore_after_scan(with_error(st, "e"), false, None, None);
    assert_eq!(restored.state, WifiState::Error);
    assert!(restored.last_error.is_none());
}

#[test]
fn ssid_and_passphrase_arguments() {
    assert_eq!(parse_ssid_pass(&args(&["wifi", "save", "home", "pw"])), Ok(("home".to_string(), "pw".to_string())));
    assert_eq!(parse_ssid_pass(&args(&["wifi", "connect", "Open Network"])), Ok(("Open Network".to_string(), String::new())));
    assert_eq!(parse_ssid_pass(&args(&["wifi", "save"])), Err("Usage: wifi <save|connect> <ssid> <passphrase>"));
    assert_eq!(parse_ssid_pass(&args(&["wifi", "save", &"s".repeat(33)])), Err("SSID too long (max 32 bytes)"));
    assert_eq!(
        parse_ssid_pass(&args(&["wifi", "save", "s", &"p".repeat(65)])),
        Err("Passphrase too long (max 64 bytes)")
    );
}

#[test]
fn wifi_plans() {
    let w = WifiCommandHandler;
    match w.plan(&args(&["wifi", "status"]), false) {
        WifiCliPlan::Print(l) => assert_eq!(l, args(&["wifi: subsystem not initialized"])),
        _ => panic!(),
    }
    match w.plan(&args(&["wifi"]), false) {
        WifiCliPlan::Print(l) => assert_eq!(l.len(), 1),
        _ => panic!(),
    }
    assert!(matches!(w.plan(&args(&["wifi", "status"]), true), WifiCliPlan::Query(WifiQuery::Status)));
    match w.plan(&args(&["wifi", "connect", "lab"]), true) {
        WifiCliPlan::Send { cmd: WifiCommand::Connect { ssid, passphrase }, reply } => {
            assert_eq!(ssid, "lab");
            assert_eq!(passphrase, "");
            assert_eq!(reply, "wifi: connect request sent");
        }
        _ => panic!(),
    }
    match w.plan(&args(&["wifi", "ping", "192.168.4.1"]), true) {
        WifiCliPlan::Ping { ip } => assert_eq!(ip, [192, 168, 4, 1]),
        _ => panic!(),
    }
    match w.plan(&args(&["wifi", "ping", "1.2.3"]), true) {
        WifiCliPlan::Print(l) => assert_eq!(l, args(&["Invalid IPv4 address"])),
        _ => panic!(),
    }
    for bad in ["01.2.3.4", "256.1.1.1", "1.2.3.4.", "1..2.3", "1.2.3.4 ", "0x1.2.3.4", "+1.2.3.4", "1234.1.1.1"] {
        match w.plan(&args(&["wifi", "ping", bad]), true) {
            WifiCliPlan::Print(l) => assert_eq!(l, args(&["Invalid IPv4 address"])),
            _ => panic!("{}", bad),
        }
    }
    match w.plan(&args(&["wifi", "ping", "0.0.0.0"]), true) {
        WifiCliPlan::Ping { ip } => assert_eq!(ip, [0, 0, 0, 0]),
        _ => panic!(),
    }
    match w.plan(&args(&["wifi", "ping", "255.10.0.9"]), true) {
        WifiCliPlan::Ping { ip } => assert_eq!(ip, [255, 10, 0, 9]),
        _ => panic!(),
    }
    assert!(matches!(w.plan(&args(&["wifi", "clear"]), true), WifiCliPlan::Clear));
    assert_eq!(clear_line(true), "wifi: cleared saved credentials");
    assert_eq!(clear_line(false), "wifi: failed to clear credentials");
}
