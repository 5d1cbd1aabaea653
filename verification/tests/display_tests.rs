use beancell_holo::display::ap::{
    choose_display_ap, connected_to, default_display_passphrase, join_error_message, ApChoice, DisplayJoin, JoinError,
    JoinPhase, JoinStep,
};
use beancell_holo::display::command::{
    active_plan, boot_plan, controller_takes_commands, ends_session, follow_up_requests, off_action, DisplayCommand,
    OffAction, ReplyUse,
};
use beancell_holo::display::hex::{decode_hex_filename, decode_hex_nibble, encode_filename_to_hex, encode_hex_nibble};
use beancell_holo::display::http::{find_header_end, http_get_request, response_body_range, HttpResponseReader, ReadOutcome};
use beancell_holo::display::json::{
    extract_onplayinfo, find_content_length, find_json_flat_str_value, find_json_int_value, find_json_str_value,
    handshake_accepted, needs_login, parse_config_response, parse_dcim_files, parse_play_status, ConfigEntry,
};
use beancell_holo::display::status::{DisplayPlayState, DisplayPowerState, DisplayStatus};
use beancell_holo::display::ws::{
    decode_ws_frame, drain_frames, frame_action, heartbeat_due, heartbeat_message, next_heartbeat_id, parse_incoming_ws_frame_buffered,
    ws_frame_text, FrameAction, WsFrame,
};
use beancell_holo::wifi::{ScanAuth, WifiScanResult, WifiState, WifiStatus};

#[test]
fn hex_file_names_round_trip() {
    assert_eq!(encode_filename_to_hex("F_1389.bin").unwrap(), "465f313338392e62696e");
    assert_eq!(decode_hex_filename("465f313338392e62696e").unwrap(), "F_1389.bin");
    assert_eq!(decode_hex_filename("465F313338392E62696E").unwrap(), "F_1389.bin");
    assert!(decode_hex_filename("abc").is_none());
    assert!(decode_hex_filename("zz").is_none());
    assert!(decode_hex_filename("ff").is_none());
    assert!(encode_filename_to_hex(&"n".repeat(33)).is_none());
    let name = "clip-07.mp4";
    assert_eq!(decode_hex_filename(&encode_filename_to_hex(name).unwrap()).unwrap(), name);
}

#[test]
fn hex_nibbles() {
    assert_eq!(decode_hex_nibble(b'7'), Some(7));
    assert_eq!(decode_hex_nibble(b'c'), Some(12));
    assert_eq!(decode_hex_nibble(b'C'), Some(12));
    assert_eq!(decode_hex_nibble(b'g'), None);
    assert_eq!(encode_hex_nibble(3), '3');
    assert_eq!(encode_hex_nibble(15), 'f');
    assert_eq!(encode_hex_nibble(16), '0');
}

#[test]
fn json_values() {
    let flat = "{\"brightness\": 2, \"ssid\": \"5D_1234\"}";
    assert_eq!(find_json_int_value(flat, "\"brightness\""), Some(2));
    assert_eq!(find_json_int_value(flat, "\"volum\""), None);
    let listed = "[{\"key\":\"loop\",\"value\":\"one\"},{\"key\":\"ssid\",\"value\":\"5D_1234\"}]";
    assert_eq!(find_json_str_value(listed, "\"loop\"", 10).unwrap(), "one");
    assert_eq!(find_json_str_value(listed, "\"ssid\"", 4), None);
    assert_eq!(find_json_str_value(listed, "\"ssid\"", 32).unwrap(), "5D_1234");
    let info = "{\"model\":\"F-MINI12\",\"sw\":\"1.1.0\"}";
    assert_eq!(find_json_flat_str_value(info, "\"model\"", 16).unwrap(), "F-MINI12");
    assert_eq!(find_json_flat_str_value(info, "\"sw\"", 16).unwrap(), "1.1.0");
}

#[test]
fn content_length_header() {
    assert_eq!(find_content_length("HTTP/1.1 200 OK\r\nContent-Length: 42\r\n"), Some(42));
    assert_eq!(find_content_length("HTTP/1.1 200 OK\r\nContent-Length: x\r\n"), None);
    assert_eq!(find_content_length("HTTP/1.1 200 OK\r\n"), None);
}

#[test]
fn dcim_listing() {
    let body = "{\"files\": [\"465f313338392e62696e\", \"\", \"6162\"]}";
    assert_eq!(parse_dcim_files(body), vec!["465f313338392e62696e".to_string(), "6162".to_string()]);
    assert!(parse_dcim_files("no list").is_empty());
}

#[test]
fn config_values_keep_escapes() {
    let body = "[{\"key\": \"angle\", \"value\": 90}, {\"key\": \"x\", \"value\": \"{\\\"\\\":\\\"\\\"}\"}]";
    let mut configs: Vec<ConfigEntry> = Vec::new();
    parse_config_response(body, &mut configs);
    assert_eq!(configs.len(), 2);
    assert_eq!(configs[0].key, "angle");
    assert_eq!(configs[0].value, "90");
    assert_eq!(configs[1].key, "x");
    assert_eq!(configs[1].value, "{\\\"\\\":\\\"\\\"}");
}

#[test]
fn play_status_and_notifications() {
    let body = "{\"current\":\"6162\",\"progress\":12,\"total\":30,\"state\":\"playing\"}";
    let st = parse_play_status(body);
    assert_eq!(st.current.unwrap(), "6162");
    assert_eq!(st.progress, Some(12));
    assert_eq!(st.total, Some(30));
    assert!(st.playing);
    let mut status = DisplayStatus::new();
    status.apply_play_status_reply(body);
    assert_eq!(status.current_file.as_deref(), Some("6162"));
    assert_eq!(status.play_state, DisplayPlayState::Playing);
    let note = "{\"cmd\":\"OnPlayInfo\",\"current\":\"6263\",\"progress\":3,\"state\":\"pause\",\"total\":9}";
    assert!(extract_onplayinfo(note).is_some());
    status.apply_play_notification(note);
    assert_eq!(status.current_file.as_deref(), Some("6263"));
    assert_eq!(status.progress, 3);
    assert_eq!(status.total, 9);
    assert_eq!(status.play_state, DisplayPlayState::Paused);
}

#[test]
fn status_config_reply() {
    let mut status = DisplayStatus::new();
    status.apply_config_reply(
        "[{\"key\":\"brightness\",\"value\":1},{\"key\":\"volum\",\"value\":2},{\"key\":\"angle\",\"value\":70000},{\"key\":\"switch\",\"value\":\"on\"}]",
    );
    assert_eq!(status.brightness, 1);
    assert_eq!(status.volume, 2);
    assert_eq!(status.angle, Some((70000u32 % 65536) as u16));
    assert_eq!(status.switcher.as_deref(), Some("on"));
    assert!(status.ble.is_none());
    status.set_switcher(false);
    assert_eq!(status.switcher.as_deref(), Some("off"));
    status.apply_info_reply("{\"model\":\"F-MINI12\"}");
    assert_eq!(status.model.as_deref(), Some("F-MINI12"));
    status.on_connect_result(true);
    assert_eq!(status.power, DisplayPowerState::On);
    assert!(status.wifi_connected);
    status.on_monitor_lost();
    assert!(!status.wifi_connected);
    assert_eq!(status.play_state, DisplayPlayState::Offline);
    status.on_connect_result(false);
    assert_eq!(status.power, DisplayPowerState::Off);
}

#[test]
fn login_and_handshake_markers() {
    assert!(needs_login("{\"code\": 1}"));
    assert!(needs_login("No active session"));
    assert!(!needs_login("{\"code\": 0}"));
    assert!(handshake_accepted("HTTP/1.1 101 Switching Protocols\r\n"));
    assert!(!handshake_accepted("HTTP/1.1 400 Bad Request\r\n"));
}

#[test]
fn requests_for_commands() {
    let p = active_plan(&DisplayCommand::SetBrightness(2));
    assert_eq!(p.len(), 1);
    assert_eq!(p[0].path, "/ctrl/set?brightness=2");
    assert_eq!(p[0].reply, ReplyUse::Ignore);
    let p = active_plan(&DisplayCommand::PlayFile { filename_hex: "6162".to_string() });
    assert_eq!(p.len(), 2);
    assert_eq!(p[0].path, "/ctrl/set?switcher=on");
    assert_eq!(p[0].reply, ReplyUse::Switcher(true));
    assert_eq!(p[1].path, "/DCIM/6162?act=play");
    let p = active_plan(&DisplayCommand::SetConfig { key: "ble".to_string(), value: "off".to_string() });
    assert_eq!(p[0].path, "/ctrl/set?ble=off");
    assert_eq!(active_plan(&DisplayCommand::GetInfo)[0].reply, ReplyUse::Info);
    assert!(active_plan(&DisplayCommand::PowerOn).is_empty());
    let b = boot_plan();
    assert_eq!(b.len(), 6);
    assert_eq!(b[0].path, "/ctrl/session");
    assert_eq!(b[5].reply, ReplyUse::FilesSwitcherOff);
    assert!(ends_session(&DisplayCommand::PowerOff));
    assert!(!ends_session(&DisplayCommand::Pause));
}

#[test]
fn http_request_and_reply() {
    assert_eq!(
        http_get_request("/info").unwrap(),
        "GET /info HTTP/1.1\r\nHost: 192.168.4.1\r\nConnection: keep-alive\r\n\r\n"
    );
    assert!(http_get_request(&"/x".repeat(60)).is_none());
    let reply = b"HTTP/1.1 200 OK\r\nContent-Length: 2\r\n\r\nok";
    assert_eq!(find_header_end(reply, reply.len()), Some(34));
    assert_eq!(response_body_range(reply, reply.len()), Some((38, 40)));
}

#[test]
fn http_reader_stops_at_declared_length() {
    let mut rx = [0u8; 128];
    let reply = b"HTTP/1.1 200 OK\r\nContent-Length: 2\r\nConnection: keep-alive\r\n\r\nok";
    let mut r = HttpResponseReader::new(rx.len());
    assert_eq!(r.wait_ms(), Some(1500));
    rx[..10].copy_from_slice(&reply[..10]);
    assert_eq!(r.on_data(&rx, 10), ReadOutcome::Continue);
    assert_eq!(r.on_timeout(), ReadOutcome::Failed);
    rx[10..reply.len()].copy_from_slice(&reply[10..]);
    assert_eq!(r.on_data(&rx, reply.len() - 10), ReadOutcome::Continue);
    assert_eq!(r.total_read(), reply.len());
    assert_eq!(r.wait_ms(), None);
    assert_eq!(r.on_timeout(), ReadOutcome::Complete);
}

#[test]
fn http_reader_waits_briefly_without_a_usable_length() {
    let mut rx = [0u8; 128];
    let reply = b"HTTP/1.1 200 OK\r\nContent-Length: 2\r\n\r\nok";
    rx[..reply.len()].copy_from_slice(reply);
    let mut r = HttpResponseReader::new(rx.len());
    assert_eq!(r.on_data(&rx, reply.len()), ReadOutcome::Continue);
    assert_eq!(r.wait_ms(), Some(50));
    assert_eq!(r.on_data(&rx, 0), ReadOutcome::Complete);
    let mut small = [0u8; 8];
    small.copy_from_slice(&reply[..8]);
    let mut r = HttpResponseReader::new(small.len());
    assert_eq!(r.on_data(&small, 8), ReadOutcome::Complete);
}

#[test]
fn ws_frames() {
    let mut out = [0u8; 16];
    let n = ws_frame_text("hi", &mut out);
    assert_eq!(n, 8);
    assert_eq!(&out[..8], &[0x81, 0x82, 0x12, 0x34, 0x56, 0x78, b'h' ^ 0x12, b'i' ^ 0x34]);
    assert_eq!(parse_incoming_ws_frame_buffered(&out[..8]), Some((6, 2)));
    assert_eq!(parse_incoming_ws_frame_buffered(&out[..7]), None);
    let f = decode_ws_frame(&out[..8]).unwrap();
    assert_eq!(f.opcode, 1);
    assert_eq!(f.total_len, 8);
    assert_eq!(f.payload, b"hi".to_vec());
    let plain = [0x81, 0x03, b'a', b'b', b'c', 0x89];
    let f = decode_ws_frame(&plain).unwrap();
    assert_eq!(f.payload, b"abc".to_vec());
    assert_eq!(f.total_len, 5);
    let ext = [0x82, 126, 0x00, 0x03, 1, 2];
    assert_eq!(parse_incoming_ws_frame_buffered(&ext), None);
    assert_eq!(heartbeat_message(7), "{\"cmd\": \"heartbeat\", \"msgId\": \"7\"}");
    assert_eq!(heartbeat_due(16000), (true, 15000));
    assert_eq!(heartbeat_due(4000), (false, 11000));
}

fn entry(ssid: &str) -> WifiScanResult {
    WifiScanResult { ssid: ssid.to_string(), bssid: [0; 6], channel: 6, signal_strength: -40, auth: ScanAuth::Wpa2Personal }
}

#[test]
fn display_access_point_choice() {
    let entries = vec![entry("home"), entry("5D_00A1"), entry("5D_00B2")];
    match choose_display_ap(None, &entries) {
        ApChoice::Discovered { ssid } => assert_eq!(ssid, "5D_00A1"),
        _ => panic!(),
    }
    let saved = "5D_00B2".to_string();
    assert!(matches!(choose_display_ap(Some(&saved), &entries), ApChoice::Saved));
    let missing = "5D_FFFF".to_string();
    assert!(matches!(choose_display_ap(Some(&missing), &entries), ApChoice::NotFound));
    assert!(matches!(choose_display_ap(None, &vec![entry("5d_low")]), ApChoice::NotFound));
    assert_eq!(default_display_passphrase(), "12345678");
    let mut st = WifiStatus::new();
    assert!(!connected_to(&st, &saved));
    st.state = WifiState::Connected;
    st.ssid = Some("5D_00B2".to_string());
    assert!(connected_to(&st, &saved));
    assert!(!connected_to(&st, &missing));
}

fn join_status(state: WifiState, ssid: Option<&str>) -> WifiStatus {
    let mut s = WifiStatus::new();
    s.state = state;
    s.ssid = ssid.map(|x| x.to_string());
    s
}

#[test]
fn display_join_refused_when_wifi_is_down() {
    let (join, step) = DisplayJoin::start(false, None);
    assert_eq!(join.phase(), JoinPhase::Done);
    match step {
        JoinStep::Finish { delay_ms: 0, result: Err(e) } => {
            assert_eq!(e, JoinError::NotReady);
            assert_eq!(join_error_message(e), "WiFi subsystem not initialized");
        }
        _ => panic!(),
    }
}

#[test]
fn display_join_discovers_saves_and_connects() {
    let (mut join, step) = DisplayJoin::start(true, None);
    assert!(matches!(step, JoinStep::Scan { delay_ms: 0 }));
    let empty: Vec<WifiScanResult> = Vec::new();
    assert!(matches!(join.on_scan_poll(WifiState::Scanning, &empty), JoinStep::Poll { after_ms: 100 }));
    let entries = vec![entry("home"), entry("5D_00A1")];
    match join.on_scan_poll(WifiState::Disconnected, &entries) {
        JoinStep::Connect { ssid, passphrase, save } => {
            assert_eq!(ssid, "5D_00A1");
            assert_eq!(passphrase, "12345678");
            assert!(save);
        }
        _ => panic!(),
    }
    assert_eq!(join.phase(), JoinPhase::ConnectWait);
    let connecting = join_status(WifiState::Connecting, None);
    assert!(matches!(join.on_connect_poll(&connecting), JoinStep::Poll { after_ms: 500 }));
    let other = join_status(WifiState::Connected, Some("home"));
    assert!(matches!(join.on_connect_poll(&other), JoinStep::Poll { after_ms: 500 }));
    let up = join_status(WifiState::Connected, Some("5D_00A1"));
    assert!(matches!(join.on_connect_poll(&up), JoinStep::Finish { delay_ms: 0, result: Ok(()) }));
    assert_eq!(join.phase(), JoinPhase::Done);
}

#[test]
fn display_join_gives_up_after_twelve_scans() {
    let saved = Some(("5D_SAVED".to_string(), "pw".to_string()));
    let (mut join, mut step) = DisplayJoin::start(true, saved);
    let entries = vec![entry("home"), entry("5D_OTHER")];
    let mut scans = 0;
    loop {
        match step {
            JoinStep::Scan { .. } => scans += 1,
            JoinStep::Finish { delay_ms, result } => {
                assert_eq!(delay_ms, 500);
                assert_eq!(result, Err(JoinError::NotFound));
                assert_eq!(
                    join_error_message(JoinError::NotFound),
                    "Display AP not found (either saved SSID was not visible or no matching 5D_ network was found)"
                );
                break;
            }
            JoinStep::Connect { .. } => panic!(),
            JoinStep::Poll { .. } => {}
        }
        step = join.on_scan_poll(WifiState::Disconnected, &entries);
    }
    assert_eq!(scans, 12);
}

#[test]
fn display_join_saved_network_and_scan_timeouts() {
    let saved = Some(("5D_SAVED".to_string(), "pw".to_string()));
    let (mut join, _) = DisplayJoin::start(true, saved);
    let empty: Vec<WifiScanResult> = Vec::new();
    let mut step = JoinStep::Poll { after_ms: 0 };
    for _ in 0..40 {
        step = join.on_scan_poll(WifiState::Scanning, &empty);
    }
    assert!(matches!(step, JoinStep::Scan { delay_ms: 0 }));
    match join.on_scan_poll(WifiState::Disconnected, &vec![entry("5D_SAVED")]) {
        JoinStep::Connect { ssid, passphrase, save } => {
            assert_eq!(ssid, "5D_SAVED");
            assert_eq!(passphrase, "pw");
            assert!(!save);
        }
        _ => panic!(),
    }
    let down = join_status(WifiState::Disconnected, None);
    for _ in 0..59 {
        assert!(matches!(join.on_connect_poll(&down), JoinStep::Poll { after_ms: 500 }));
    }
    match join.on_connect_poll(&down) {
        JoinStep::Finish { result: Err(e), .. } => {
            assert_eq!(e, JoinError::Timeout);
            assert_eq!(join_error_message(e), "WiFi connection timeout/failed");
        }
        _ => panic!(),
    }
}

#[test]
fn powered_off_commands() {
    assert!(controller_takes_commands(DisplayPowerState::Off));
    assert!(!controller_takes_commands(DisplayPowerState::On));
    assert!(!controller_takes_commands(DisplayPowerState::PoweringOn));
    assert!(matches!(off_action(DisplayCommand::PowerOn), OffAction::PowerOn));
    match off_action(DisplayCommand::SetWifi { ssid: "5D_1".to_string(), passphrase: "pw".to_string() }) {
        OffAction::SaveWifi { ssid, passphrase } => {
            assert_eq!(ssid, "5D_1");
            assert_eq!(passphrase, "pw");
        }
        _ => panic!(),
    }
    assert!(matches!(off_action(DisplayCommand::Pause), OffAction::Ignore));
    assert!(matches!(off_action(DisplayCommand::PowerOff), OffAction::Ignore));
}

#[test]
fn monitor_frames_and_heartbeat_ids() {
    let ping = WsFrame { opcode: 9, total_len: 2, payload: Vec::new() };
    match frame_action(&ping) {
        FrameAction::Pong(p) => assert_eq!(p, vec![0x8a, 0x00]),
        _ => panic!(),
    }
    let text = WsFrame { opcode: 1, total_len: 4, payload: b"hi".to_vec() };
    match frame_action(&text) {
        FrameAction::Notify(s) => assert_eq!(s, "hi"),
        _ => panic!(),
    }
    let bad = WsFrame { opcode: 1, total_len: 3, payload: vec![0xff] };
    assert!(matches!(frame_action(&bad), FrameAction::BadText));
    let close = WsFrame { opcode: 8, total_len: 2, payload: Vec::new() };
    assert!(matches!(frame_action(&close), FrameAction::Ignore));
    assert_eq!(next_heartbeat_id(1), 2);
    assert_eq!(next_heartbeat_id(u32::MAX), 0);
}

#[test]
fn monitor_buffer_drains_complete_frames() {
    let mut buf: Vec<u8> = vec![0x89, 0x00];
    buf.extend_from_slice(&[0x81, 0x02, b'o', b'k']);
    buf.extend_from_slice(&[0x89, 0x00]);
    buf.extend_from_slice(&[0x81, 0x05, b'p']);
    let (actions, consumed) = drain_frames(&buf);
    assert_eq!(consumed, 8);
    assert_eq!(actions.len(), 3);
    assert!(matches!(&actions[0], FrameAction::Pong(p) if p == &vec![0x8a, 0x00]));
    assert!(matches!(&actions[1], FrameAction::Notify(s) if s == "ok"));
    assert!(matches!(&actions[2], FrameAction::Pong(p) if p == &vec![0x8a, 0x00]));
    let (none, zero) = drain_frames(&[0x81]);
    assert!(none.is_empty());
    assert_eq!(zero, 0);
}

#[test]
fn login_retry_requests() {
    assert_eq!(
        follow_up_requests("/ctrl/play?action=next", Some("{\"code\": 1, \"desc\": \"No active session\"}")),
        vec!["/ctrl/session".to_string(), "/ctrl/play?action=next".to_string()]
    );
    assert!(follow_up_requests("/ctrl/play?action=next", Some("{\"code\": 0}")).is_empty());
    assert!(follow_up_requests("/ctrl/play?action=next", None).is_empty());
}

#[test]
fn heartbeat_ids_wrap() {
    let mut id: u32 = u32::MAX - 1;
    id = next_heartbeat_id(id);
    assert_eq!(id, u32::MAX);
    id = next_heartbeat_id(id);
    assert_eq!(id, 0);
}
