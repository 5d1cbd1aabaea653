use beancell_holo::text::{char_is_whitespace, str_equal};
use beancell_holo::cli::args::{parse_args, ParseError};
use beancell_holo::cli::dispatcher::{rejection_message, route_lines, Command, CommandDispatcher, Route};
use beancell_holo::cli::display_handler::{
    files_report, info_report, settings_report, status_report, CommandView, DisplayCliPlan, DisplayCommandHandler,
    DisplayReport,
};
use beancell_holo::cli::editor::{accept_line, render_line, EditAction, LineEditor};
use beancell_holo::cli::handlers::{
    direction_line, encoder_lines, raw_drive_lines, EchoCommand, EncoderReport, MotorCliPlan, MotorCommandHandler,
    MotorQuery, MotorRequest, RebootCommand, RebootPlan,
};
use beancell_holo::cli::history::History;
use beancell_holo::cli::newline::{is_newline, is_newline_pair, NewlineNormalizer};
use beancell_holo::display::command::DisplayCommand;
use beancell_holo::display::json::ConfigEntry;
use beancell_holo::display::status::{DisplayPlayState, DisplayPowerState, DisplayStatus};

fn args(words: &[&str]) -> Vec<String> {
    words.iter().map(|w| w.to_string()).collect()
}

#[test]
fn parse_args_splits_on_whitespace() {
    assert_eq!(parse_args("echo  hello   world").unwrap(), args(&["echo", "hello", "world"]));
    assert_eq!(parse_args("   ").unwrap(), Vec::<String>::new());
}

#[test]
fn parse_args_quoted_arguments_keep_spaces() {
    assert_eq!(
        parse_args("wifi connect \"joshua 5GHz_2G\" \"secret pass\"").unwrap(),
        args(&["wifi", "connect", "joshua 5GHz_2G", "secret pass"])
    );
    assert_eq!(parse_args("wifi connect \"Open Network\"").unwrap(), args(&["wifi", "connect", "Open Network"]));
}

#[test]
fn parse_args_escaped_quotes_are_literal() {
    assert_eq!(
        parse_args("wifi save \"My \\\"Quoted\\\" SSID\" \"pa\\\"ss\"").unwrap(),
        args(&["wifi", "save", "My \"Quoted\" SSID", "pa\"ss"])
    );
}

#[test]
fn parse_args_trailing_backslash_is_kept() {
    assert_eq!(parse_args("echo a\\").unwrap(), args(&["echo", "a\\"]));
}

#[test]
fn parse_args_errors() {
    assert_eq!(parse_args("a b c d e f g h i"), Err(ParseError::TooManyArgs));
    assert!(parse_args("a b c d e f g h").is_ok());
    let long = "x".repeat(97);
    assert_eq!(parse_args(&long), Err(ParseError::ArgTooLong));
    assert!(parse_args(&"x".repeat(96)).is_ok());
    assert_eq!(parse_args("echo \"open"), Err(ParseError::UnterminatedQuote));
}

#[test]
fn parse_args_quote_parity() {
    assert_eq!(parse_args("a \"b\" \"c"), Err(ParseError::UnterminatedQuote));
    assert_eq!(parse_args("a \\\"b"), Ok(args(&["a", "\"b"])));
    assert_eq!(parse_args("\"\""), Ok(args(&[""])));
    assert_eq!(parse_args("a \"\" b"), Ok(args(&["a", "", "b"])));
    assert_eq!(parse_args("a b c d e f g h i \"j"), Err(ParseError::TooManyArgs));
}

#[test]
fn rejection_messages() {
    assert_eq!(rejection_message(ParseError::TooManyArgs), "Too many arguments (max 8).");
    assert_eq!(rejection_message(ParseError::ArgTooLong), "Argument too long (max 96 chars).");
    assert_eq!(rejection_message(ParseError::UnterminatedQuote), "Unterminated quoted string.");
}

#[test]
fn dispatcher_routes_lines() {
    let table = [
        Command::new("echo", "Echo back the message", 1u8),
        Command::new("reboot", "Reboot the device", 2u8),
    ];
    let d = CommandDispatcher::new(&table);
    match d.route("echo hi there") {
        Route::Run { index, args: a } => {
            assert_eq!(index, 0);
            assert_eq!(a, args(&["echo", "hi", "there"]));
            assert_eq!(d.command(index).handler, 1u8);
        }
        _ => panic!("expected a run"),
    }
    assert!(matches!(d.route(""), Route::Empty));
    assert!(matches!(d.route("help"), Route::Help));
    match d.route("nope 1") {
        Route::Unknown { name } => assert_eq!(name, "nope"),
        _ => panic!("expected unknown"),
    }
    assert!(matches!(d.route("\"x"), Route::Rejected(ParseError::UnterminatedQuote)));
}

#[test]
fn dispatcher_help_listing() {
    let table = [Command::new("echo", "Echo back the message", ()), Command::new("reboot", "Reboot", ())];
    let d = CommandDispatcher::new(&table);
    assert_eq!(
        d.help_lines(),
        args(&[
            "Available commands:",
            "  help       - Show this help output",
            "  echo       - Echo back the message",
            "  reboot     - Reboot",
        ])
    );
    let unknown = route_lines(&d, &Route::Unknown { name: "zap".to_string() });
    assert!(!unknown.is_empty());
}

#[test]
fn echo_joins_arguments() {
    let e = EchoCommand;
    assert_eq!(e.execute(&args(&["echo", "hello", "from", "cli"])), "hello from cli");
    assert_eq!(e.execute(&args(&["echo"])), "Usage: echo <message>");
    let word = "y".repeat(64);
    assert_eq!(e.execute(&args(&["echo", &word, &word])), "Message too long");
    let w63 = "y".repeat(63);
    assert_eq!(e.execute(&args(&["echo", &w63, &word])).len(), 128);
}

#[test]
fn reboot_modes() {
    let r = RebootCommand;
    match r.plan(&args(&["reboot"])) {
        RebootPlan::Reset { notice } => assert_eq!(notice, "Rebooting now..."),
        _ => panic!("expected reset"),
    }
    assert!(matches!(r.plan(&args(&["reboot", "normal"])), RebootPlan::Reset { .. }));
    match r.plan(&args(&["reboot", "bootloader"])) {
        RebootPlan::Print(lines) => {
            assert_eq!(lines.len(), 2);
            assert_eq!(lines[1], "Use `cargo espflash` for flashing workflows.");
        }
        _ => panic!("expected lines"),
    }
    match r.plan(&args(&["reboot", "later"])) {
        RebootPlan::Print(lines) => assert_eq!(lines, args(&["Usage: reboot [normal|bootloader]"])),
        _ => panic!("expected usage"),
    }
}

#[test]
fn motor_plans() {
    let m = MotorCommandHandler;
    match m.plan(&args(&["motor", "home"])) {
        MotorCliPlan::Send { request, reply } => {
            assert_eq!(request, MotorRequest::Home);
            assert_eq!(reply, "motor: homing requested");
        }
        _ => panic!(),
    }
    match m.plan(&args(&["motor", "raw", "1", "0"])) {
        MotorCliPlan::Send { request, reply } => {
            assert_eq!(request, MotorRequest::DirectDrive { ph_high: true, en_high: false });
            assert_eq!(reply, "motor: raw drive set ph=1 en=0");
        }
        _ => panic!(),
    }
    match m.plan(&args(&["motor", "raw", "2", "0"])) {
        MotorCliPlan::Print(l) => assert_eq!(l, args(&["Invalid ph value: 2 (use 0 or 1)"])),
        _ => panic!(),
    }
    match m.plan(&args(&["motor", "raw", "1", "x"])) {
        MotorCliPlan::Print(l) => assert_eq!(l, args(&["Invalid en value: x (use 0 or 1)"])),
        _ => panic!(),
    }
    match m.plan(&args(&["motor", "goto", "42.5"])) {
        MotorCliPlan::Goto { arg } => assert_eq!(arg, "42.5"),
        _ => panic!(),
    }
    match m.plan(&args(&["motor", "pid", "set", "1", "2", "3"])) {
        MotorCliPlan::SetPid { kp, ki, kd } => assert_eq!((kp.as_str(), ki.as_str(), kd.as_str()), ("1", "2", "3")),
        _ => panic!(),
    }
    assert!(matches!(m.plan(&args(&["motor", "enc", "zero"])), MotorCliPlan::ZeroEncoder { .. }));
    assert!(matches!(m.plan(&args(&["motor", "enc"])), MotorCliPlan::Query(MotorQuery::Encoder)));
    assert!(matches!(m.plan(&args(&["motor", "autotune", "status"])), MotorCliPlan::Query(MotorQuery::Tuning)));
    assert!(matches!(m.plan(&args(&["motor", "autotune"])), MotorCliPlan::Autotune));
    match m.plan(&args(&["motor"])) {
        MotorCliPlan::Print(l) => assert_eq!(
            l,
            args(&["Usage: motor <home|goto|vel|dir|raw|enc|stop|status|pid|autotune|autotune-status>"])
        ),
        _ => panic!(),
    }
    let a = m.autotune(false);
    assert!(!a.start);
    assert_eq!(a.before, args(&["motor autotune: Motor must be homed first"]));
    assert!(m.autotune(true).start);
}

#[test]
fn motor_reports() {
    assert_eq!(direction_line(true), "motor: direction mapping is normal (PH high => top)");
    assert_eq!(raw_drive_lines(true, false, true), args(&["raw_mode: true", "raw_ph_high: false", "raw_en_high: true"]));
    let r = EncoderReport {
        raw_count: -12,
        logical_count: 0,
        position_clamped_to_limit: true,
        a_high: false,
        b_high: true,
        transitions: 40,
        valid_pos_steps: 14,
        valid_neg_steps: 26,
        invalid_transitions: 0,
    };
    let lines = encoder_lines(&r);
    assert_eq!(lines[0], "raw_encoder_count: -12");
    assert_eq!(lines[2], "position_clamped_to_limit: true");
    assert_eq!(lines[8], "encoder_invalid_transitions: 0");
}

fn display_send(plan: DisplayCliPlan) -> (DisplayCommand, String) {
    match plan {
        DisplayCliPlan::Send { cmd, reply } => (cmd, reply),
        _ => panic!("expected a send"),
    }
}

#[test]
fn display_play_encodes_the_file_name() {
    let d = DisplayCommandHandler;
    let (cmd, reply) = display_send(d.plan(&args(&["display", "play", "F_1389.bin"])));
    assert_eq!(reply, "display: play file requested");
    match cmd {
        DisplayCommand::PlayFile { filename_hex } => assert_eq!(filename_hex, "465f313338392e62696e"),
        _ => panic!(),
    }
}

#[test]
fn display_levels() {
    let d = DisplayCommandHandler;
    let (cmd, _) = display_send(d.plan(&args(&["display", "brightness", "+2"])));
    assert!(matches!(cmd, DisplayCommand::SetBrightness(2)));
    match d.plan(&args(&["display", "brightness", "4"])) {
        DisplayCliPlan::Print(l) => assert_eq!(l, args(&["Brightness must be between 1 and 3"])),
        _ => panic!(),
    }
    match d.plan(&args(&["display", "volume", "loud"])) {
        DisplayCliPlan::Print(l) => assert_eq!(l, args(&["Invalid volume level"])),
        _ => panic!(),
    }
    match d.plan(&args(&["display", "volume", "300"])) {
        DisplayCliPlan::Print(l) => assert_eq!(l, args(&["Invalid volume level"])),
        _ => panic!(),
    }
    let (cmd, reply) = display_send(d.plan(&args(&["display", "mute"])));
    assert!(matches!(cmd, DisplayCommand::SetVolume(1)));
    assert_eq!(reply, "display: mute set requested (volume = 1)");
}

#[test]
fn display_queries_and_limits() {
    let d = DisplayCommandHandler;
    match d.plan(&args(&["display", "dcim"])) {
        DisplayCliPlan::Query { cmd, sent, wait_ms, report } => {
            assert!(matches!(cmd, DisplayCommand::GetDcim));
            assert_eq!(sent.unwrap(), "display: DCIM list request sent");
            assert_eq!(wait_ms, 800);
            assert_eq!(report, DisplayReport::Files);
        }
        _ => panic!(),
    }
    match d.plan(&args(&["display", "status"])) {
        DisplayCliPlan::Query { sent, wait_ms, report, .. } => {
            assert!(sent.is_none());
            assert_eq!(wait_ms, 200);
            assert_eq!(report, DisplayReport::Status);
        }
        _ => panic!(),
    }
    let long = "s".repeat(33);
    match d.plan(&args(&["display", "wifi", &long])) {
        DisplayCliPlan::Print(l) => assert_eq!(l, args(&["SSID too long"])),
        _ => panic!(),
    }
    let (cmd, _) = display_send(d.plan(&args(&["display", "wifi", "5D_ABCD"])));
    match cmd {
        DisplayCommand::SetWifi { ssid, passphrase } => {
            assert_eq!(ssid, "5D_ABCD");
            assert_eq!(passphrase, "");
        }
        _ => panic!(),
    }
    match d.plan(&args(&["display", "config", "k", &"v".repeat(49)])) {
        DisplayCliPlan::Print(l) => assert_eq!(l, args(&["display: error: key or value too long"])),
        _ => panic!(),
    }
    match d.plan(&args(&["display", "switcher", "maybe"])) {
        DisplayCliPlan::Print(l) => assert_eq!(l, args(&["Invalid switcher value. Use 'on' or 'off'"])),
        _ => panic!(),
    }
    let _ = CommandView::GetInfo;
}

#[test]
fn display_reports() {
    let mut st = DisplayStatus::new();
    st.files = vec!["465f313338392e62696e".to_string(), "zz".to_string()];
    assert_eq!(
        files_report(&st),
        args(&[
            "Available display files:",
            "  F_1389.bin (465f313338392e62696e)",
            "  <invalid hex> (zz)",
        ])
    );
    let s = settings_report(&st);
    assert_eq!(s[0], "Display Settings:");
    assert_eq!(s[1], "  brightness: 3");
    assert_eq!(s[3], "  loop_mode: unknown");
    st.configs = vec![ConfigEntry { key: "ble".to_string(), value: "on".to_string() }];
    assert_eq!(settings_report(&st), args(&["Display Settings:", "  ble: on"]));
    assert_eq!(status_report(&st), args(&["power state: off"]));
    st.power = DisplayPowerState::On;
    st.wifi_connected = true;
    st.play_state = DisplayPlayState::Playing;
    st.current_file = Some("465f313338392e62696e".to_string());
    st.progress = 5;
    st.total = 60;
    assert_eq!(
        status_report(&st),
        args(&[
            "power state: on",
            "station wifi: connected",
            "play state: playing",
            "current file: F_1389.bin (465f313338392e62696e)",
            "progress: 5 / 60",
        ])
    );
    assert_eq!(info_report(&st), args(&["Device Info:", "  model: unknown", "  software version: unknown"]));
}

fn feed_all(ed: &mut LineEditor, h: &History, bytes: &[u8]) -> Option<Vec<u8>> {
    let mut submitted = None;
    for &b in bytes {
        if let EditAction::Submit(line) = ed.feed(b, h) {
            submitted = Some(line);
        }
    }
    submitted
}

#[test]
fn editor_edits_and_submits() {
    let h = History::new();
    let mut ed = LineEditor::new();
    assert!(feed_all(&mut ed, &h, b"abc").is_none());
    assert_eq!(ed.cursor(), 3);
    feed_all(&mut ed, &h, b"\x1b[D\x08");
    assert_eq!(ed.line().as_slice(), b"ac");
    assert_eq!(ed.cursor(), 1);
    feed_all(&mut ed, &h, b"\x1b[3~");
    assert_eq!(ed.line().as_slice(), b"a");
    let line = feed_all(&mut ed, &h, b"\r").unwrap();
    assert_eq!(line, b"a".to_vec());
    assert_eq!(ed.line().len(), 0);
}

#[test]
fn editor_line_is_bounded() {
    let h = History::new();
    let mut ed = LineEditor::new();
    let many = vec![b'x'; 200];
    feed_all(&mut ed, &h, &many);
    assert_eq!(ed.line().len(), 95);
}

#[test]
fn editor_recalls_history() {
    let mut h = History::new();
    h.push(b"first");
    h.push(b"second");
    let mut ed = LineEditor::new();
    feed_all(&mut ed, &h, b"\x1b[A");
    assert_eq!(ed.line().as_slice(), b"second");
    feed_all(&mut ed, &h, b"\x1b[A");
    assert_eq!(ed.line().as_slice(), b"first");
    feed_all(&mut ed, &h, b"\x1b[A");
    assert_eq!(ed.line().as_slice(), b"first");
    feed_all(&mut ed, &h, b"\x1b[B");
    assert_eq!(ed.line().as_slice(), b"second");
    feed_all(&mut ed, &h, b"\x1b[B");
    assert_eq!(ed.line().len(), 0);
}

#[test]
fn editor_edits_a_recalled_line_and_keeps_the_recall_position() {
    let mut h = History::new();
    h.push(b"ls");
    h.push(b"help");
    let mut ed = LineEditor::new();
    assert_eq!(ed.history_cursor(), None);
    let line = feed_all(&mut ed, &h, b"\x1b[A\x1b[A\x1b[B\x1b[D\x1b[DX\x7f\x1b[3~\x1b[C!\r").unwrap();
    assert_eq!(line, b"hep!".to_vec());
    assert_eq!(ed.history_cursor(), Some(1));
    assert_eq!(ed.line().len(), 0);
    assert_eq!(ed.cursor(), 0);
}

#[test]
fn editor_ignores_control_bytes() {
    let h = History::new();
    let mut ed = LineEditor::new();
    feed_all(&mut ed, &h, b"ab\x01\x02\x80\xffc");
    assert_eq!(ed.line().as_slice(), b"abc");
    assert_eq!(ed.history_cursor(), None);
}

#[test]
fn history_evicts_oldest_within_budget() {
    let mut h = History::new();
    let line = vec![b'a'; 60];
    for _ in 0..5 {
        h.push(&line);
    }
    assert_eq!(h.len(), 4);
    assert_eq!(h.bytes_used(), 244);
    h.push(b"");
    assert_eq!(h.len(), 4);
    let mut h2 = History::new();
    for i in 0..20u8 {
        h2.push(&[b'a' + (i % 26)]);
    }
    assert_eq!(h2.len(), 16);
}

#[test]
fn accept_line_trims_and_records() {
    let mut h = History::new();
    assert_eq!(accept_line(&mut h, &b"  help  ".to_vec()), Some("help".to_string()));
    assert_eq!(h.len(), 1);
    assert_eq!(h.get(0).unwrap().as_slice(), b"help");
    assert_eq!(accept_line(&mut h, &b"   ".to_vec()), None);
    assert_eq!(h.len(), 1);
}

#[test]
fn render_line_moves_the_cursor_back() {
    assert_eq!(render_line("beancell> ", b"abc", 1), b"\rbeancell> abc\x1b[K\x1b[2D".to_vec());
    assert_eq!(render_line("> ", b"ab", 2), b"\r> ab\x1b[K".to_vec());
}

#[test]
fn newline_bytes() {
    assert!(is_newline(b'\r'));
    assert!(is_newline(b'\n'));
    assert!(!is_newline(b'a'));
    assert!(is_newline_pair(b'\r', b'\n'));
    assert!(is_newline_pair(b'\n', b'\r'));
    assert!(!is_newline_pair(b'\n', b'\n'));
}

#[test]
fn normalizer_expands_line_endings() {
    let mut n = NewlineNormalizer::new();
    let mut out = Vec::new();
    let used = n.fill_normalized_chunk(b"a\nb\r\nc", &mut out, 128);
    assert_eq!(used, 6);
    assert_eq!(out, b"a\r\nb\r\nc".to_vec());
    let mut out = Vec::new();
    let used = n.fill_normalized_chunk(b"x\n", &mut out, 128);
    assert_eq!(used, 2);
    assert_eq!(out, b"x".to_vec());
    assert!(n.take_pending());
    assert!(!n.take_pending());
}

#[test]
fn normalizer_respects_room_and_progresses() {
    let mut n = NewlineNormalizer::new();
    let mut out = Vec::new();
    let used = n.fill_normalized_chunk(b"abcdef", &mut out, 4);
    assert_eq!(used, 4);
    assert_eq!(out, b"abcd".to_vec());
    let mut out = Vec::new();
    let used = n.fill_normalized_chunk(b"\n\nz", &mut out, 2);
    assert!(used > 0 || !out.is_empty());
    assert!(out.len() <= 2);
}

#[test]
fn text_equality_and_whitespace() {
    assert!(str_equal("help", "help"));
    assert!(!str_equal("help", "hel"));
    assert!(!str_equal("help", "hElp"));
    assert!(str_equal("", ""));
    for c in [' ', '\t', '\n', '\r', '\u{0b}', '\u{0c}', '\u{85}', '\u{a0}', '\u{1680}', '\u{2000}', '\u{200a}',
        '\u{2028}', '\u{2029}', '\u{202f}', '\u{205f}', '\u{3000}'] {
        assert!(char_is_whitespace(c));
        assert_eq!(char_is_whitespace(c), c.is_whitespace());
    }
    for c in ['a', '_', '\u{0}', '\u{200b}', '\u{180e}', '\u{feff}', '\u{2060}'] {
        assert!(!char_is_whitespace(c));
        assert_eq!(char_is_whitespace(c), c.is_whitespace());
    }
}

#[test]
fn history_drops_oldest_and_keeps_order() {
    let mut h = History::new();
    for i in 0..16u8 {
        h.push(&[b'a' + i]);
    }
    assert_eq!(h.len(), 16);
    h.push(b"new");
    assert_eq!(h.len(), 16);
    assert_eq!(h.get(15).unwrap().as_slice(), b"p");
    let mut g = History::new();
    let long = vec![b'x'; 90];
    g.push(&long);
    g.push(b"one");
    g.push(&long);
    g.push(&long);
    assert_eq!(g.len(), 3);
    assert_eq!(g.get(0).unwrap().as_slice(), b"one");
    g.push(&long);
    assert_eq!(g.len(), 2);
    assert_eq!(g.get(0).unwrap().as_slice(), &long[..]);
    assert_eq!(g.get(1).unwrap().as_slice(), &long[..]);
}
