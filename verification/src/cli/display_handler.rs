//! The `display` command: which request each subcommand queues for the
//! display task, and the reports it prints from the display's status.

use vstd::prelude::*;
use vstd::string::StringSliceAdditionalSpecFns;
use vstd::utf8::encode_utf8;
use crate::cli::args::string_views;
use crate::cli::handlers::{byte_len, is_text, line1, string_byte_len};
use crate::display::command::{
    DisplayCommand, DISPLAY_NAME_MAX_LEN, DISPLAY_PASS_MAX_LEN, LOOP_MODE_CAP, SET_KEY_CAP, SET_VALUE_CAP,
};
use crate::display::hex::{decode_hex_filename, decoded_filename, encode_filename_to_hex, encoded_filename};
use crate::display::json::ConfigEntry;
use crate::display::status::{DisplayPlayState, DisplayPowerState, DisplayStatus};
use crate::scan::{parse_u8, parse_unsigned};
use crate::text::{decimal_chars, decimal_string, push_text, str_chars, string_of};

verus! {

/// A display command over the characters of its texts.
pub enum CommandView {
    PowerOn,
    PowerOff,
    SetWifi(Seq<char>, Seq<char>),
    PlayFile(Seq<char>),
    Pause,
    Next,
    Previous,
    SetBrightness(u8),
    SetVolume(u8),
    SetLoop(Seq<char>),
    SetConfig(Seq<char>, Seq<char>),
    GetDcim,
    GetConfig,
    GetStatus,
    SetSwitcher(bool),
    GetInfo,
}

pub open spec fn command_view(c: DisplayCommand) -> CommandView {
    match c {
        DisplayCommand::PowerOn => CommandView::PowerOn,
        DisplayCommand::PowerOff => CommandView::PowerOff,
        DisplayCommand::SetWifi { ssid, passphrase } => CommandView::SetWifi(ssid@, passphrase@),
        DisplayCommand::PlayFile { filename_hex } => CommandView::PlayFile(filename_hex@),
        DisplayCommand::Pause => CommandView::Pause,
        DisplayCommand::Next => CommandView::Next,
        DisplayCommand::Previous => CommandView::Previous,
        DisplayCommand::SetBrightness(b) => CommandView::SetBrightness(b),
        DisplayCommand::SetVolume(v) => CommandView::SetVolume(v),
        DisplayCommand::SetLoop(m) => CommandView::SetLoop(m@),
        DisplayCommand::SetConfig { key, value } => CommandView::SetConfig(key@, value@),
        DisplayCommand::GetDcim => CommandView::GetDcim,
        DisplayCommand::GetConfig => CommandView::GetConfig,
        DisplayCommand::GetStatus => CommandView::GetStatus,
        DisplayCommand::SetSwitcher(on) => CommandView::SetSwitcher(on),
        DisplayCommand::GetInfo => CommandView::GetInfo,
    }
}

/// The report printed after a request for the display's state.
#[derive(Clone, Copy, PartialEq, Eq, Structural, Debug)]
pub enum DisplayReport {
    Files,
    Settings,
    Status,
    Info,
}

/// What `display` does. Queuing fails when the queue is full; then only
/// "display: error: system busy" is printed.
pub enum DisplayCliPlan {
    Print(Vec<String>),
    /// Queue the command, then print the line.
    Send { cmd: DisplayCommand, reply: String },
    /// Queue the command, print the line if any, wait, then print the report.
    Query { cmd: DisplayCommand, sent: Option<String>, wait_ms: u64, report: DisplayReport },
}

pub enum DisplayPlanSpec {
    Print(Seq<Seq<char>>),
    Send(CommandView, Seq<char>),
    Query(CommandView, Option<Seq<char>>, u64, DisplayReport),
}

pub open spec fn display_plan_view(p: DisplayCliPlan) -> DisplayPlanSpec {
    match p {
        DisplayCliPlan::Print(v) => DisplayPlanSpec::Print(string_views(v@)),
        DisplayCliPlan::Send { cmd, reply } => DisplayPlanSpec::Send(command_view(cmd), reply@),
        DisplayCliPlan::Query { cmd, sent, wait_ms, report } => DisplayPlanSpec::Query(
            command_view(cmd),
            match sent {
                Some(s) => Some(s@),
                None => None,
            },
            wait_ms,
            report,
        ),
    }
}

pub open spec fn display_usage() -> Seq<char> {
    "Usage: display <power|wifi|play|pause|next|prev|brightness|volume|loop|status|dcim|config|switcher|info>"@
}

/// A level of 1 to 3 given as text: `Err(true)` when it is no number of
/// 8 bits, `Err(false)` when it is one out of range.
pub open spec fn level_of(t: Seq<char>) -> Result<u8, bool> {
    match parse_unsigned(t) {
        Some(n) => if n > 255 {
            Err(true)
        } else if 1 <= n <= 3 {
            Ok(n as u8)
        } else {
            Err(false)
        },
        None => Err(true),
    }
}

pub open spec fn display_wifi_spec(a: Seq<Seq<char>>) -> DisplayPlanSpec {
    if a.len() < 3 {
        DisplayPlanSpec::Print(seq!["Usage: display wifi <ssid> [passphrase]"@])
    } else if byte_len(a[2]) > DISPLAY_NAME_MAX_LEN {
        DisplayPlanSpec::Print(seq!["SSID too long"@])
    } else if a.len() >= 4 && byte_len(a[3]) > DISPLAY_PASS_MAX_LEN {
        DisplayPlanSpec::Print(seq!["Passphrase too long"@])
    } else {
        DisplayPlanSpec::Send(
            CommandView::SetWifi(a[2], if a.len() >= 4 { a[3] } else { Seq::empty() }),
            "display: wifi credentials configured"@,
        )
    }
}

pub open spec fn display_level_spec(a: Seq<Seq<char>>, volume: bool) -> DisplayPlanSpec {
    if a.len() < 3 {
        DisplayPlanSpec::Print(
            seq![if volume { "Usage: display volume <1-3>"@ } else { "Usage: display brightness <1-3>"@ }],
        )
    } else {
        match level_of(a[2]) {
            Err(true) => DisplayPlanSpec::Print(
                seq![if volume { "Invalid volume level"@ } else { "Invalid brightness level"@ }],
            ),
            Err(false) => DisplayPlanSpec::Print(
                seq![if volume { "Volume must be between 1 and 3"@ } else { "Brightness must be between 1 and 3"@ }],
            ),
            Ok(l) => if volume {
                DisplayPlanSpec::Send(CommandView::SetVolume(l), "display: volume set requested"@)
            } else {
                DisplayPlanSpec::Send(CommandView::SetBrightness(l), "display: brightness set requested"@)
            },
        }
    }
}

pub open spec fn display_plan_spec(a: Seq<Seq<char>>) -> DisplayPlanSpec {
    if a.len() < 2 {
        DisplayPlanSpec::Print(seq![display_usage()])
    } else if a[1] == "power"@ {
        if a.len() < 3 {
            DisplayPlanSpec::Print(seq!["Usage: display power <on|off>"@])
        } else if a[2] == "on"@ {
            DisplayPlanSpec::Send(CommandView::PowerOn, "display: power on requested"@)
        } else if a[2] == "off"@ {
            DisplayPlanSpec::Send(CommandView::PowerOff, "display: power off requested"@)
        } else {
            DisplayPlanSpec::Print(seq!["Usage: display power <on|off>"@])
        }
    } else if a[1] == "wifi"@ {
        display_wifi_spec(a)
    } else if a[1] == "play"@ {
        if a.len() < 3 {
            DisplayPlanSpec::Print(seq!["Usage: display play <filename>"@])
        } else {
            match encoded_filename(encode_utf8(a[2])) {
                Some(h) => DisplayPlanSpec::Send(CommandView::PlayFile(h), "display: play file requested"@),
                None => DisplayPlanSpec::Print(seq!["Failed to encode filename to hex"@]),
            }
        }
    } else if a[1] == "pause"@ {
        DisplayPlanSpec::Send(CommandView::Pause, "display: pause requested"@)
    } else if a[1] == "next"@ {
        DisplayPlanSpec::Send(CommandView::Next, "display: next file requested"@)
    } else if a[1] == "prev"@ {
        DisplayPlanSpec::Send(CommandView::Previous, "display: previous file requested"@)
    } else if a[1] == "brightness"@ {
        display_level_spec(a, false)
    } else if a[1] == "volume"@ {
        display_level_spec(a, true)
    } else if a[1] == "loop"@ {
        if a.len() < 3 {
            DisplayPlanSpec::Print(seq!["Usage: display loop <one|all>"@])
        } else if byte_len(a[2]) > LOOP_MODE_CAP {
            DisplayPlanSpec::Print(seq!["Invalid loop mode value"@])
        } else {
            DisplayPlanSpec::Send(CommandView::SetLoop(a[2]), "display: loop mode set requested"@)
        }
    } else if a[1] == "mute"@ {
        DisplayPlanSpec::Send(CommandView::SetVolume(1), "display: mute set requested (volume = 1)"@)
    } else if a[1] == "unmute"@ {
        DisplayPlanSpec::Send(CommandView::SetVolume(3), "display: unmute set requested (volume = 3)"@)
    } else if a[1] == "dcim"@ {
        DisplayPlanSpec::Query(CommandView::GetDcim, Some("display: DCIM list request sent"@), 800, DisplayReport::Files)
    } else if a[1] == "config"@ {
        if a.len() >= 4 {
            if byte_len(a[2]) > SET_KEY_CAP || byte_len(a[3]) > SET_VALUE_CAP {
                DisplayPlanSpec::Print(seq!["display: error: key or value too long"@])
            } else {
                DisplayPlanSpec::Send(CommandView::SetConfig(a[2], a[3]), "display: config set request sent"@)
            }
        } else {
            DisplayPlanSpec::Query(CommandView::GetConfig, Some("display: config request sent"@), 800, DisplayReport::Settings)
        }
    } else if a[1] == "status"@ {
        DisplayPlanSpec::Query(CommandView::GetStatus, None, 200, DisplayReport::Status)
    } else if a[1] == "switcher"@ {
        if a.len() < 3 {
            DisplayPlanSpec::Print(seq!["Usage: display switcher <on|off>"@])
        } else if a[2] == "on"@ {
            DisplayPlanSpec::Send(CommandView::SetSwitcher(true), "display: switcher set requested"@)
        } else if a[2] == "off"@ {
            DisplayPlanSpec::Send(CommandView::SetSwitcher(false), "display: switcher set requested"@)
        } else {
            DisplayPlanSpec::Print(seq!["Invalid switcher value. Use 'on' or 'off'"@])
        }
    } else if a[1] == "info"@ {
        DisplayPlanSpec::Query(CommandView::GetInfo, Some("display: info request sent"@), 500, DisplayReport::Info)
    } else {
        DisplayPlanSpec::Print(seq![display_usage()])
    }
}

fn send(cmd: DisplayCommand, reply: &str) -> (p: DisplayCliPlan)
    ensures
        display_plan_view(p) == DisplayPlanSpec::Send(command_view(cmd), reply@),
{
    DisplayCliPlan::Send { cmd, reply: string_of(reply) }
}

fn query(cmd: DisplayCommand, sent: Option<&str>, wait_ms: u64, report: DisplayReport) -> (p: DisplayCliPlan)
    ensures
        display_plan_view(p) == DisplayPlanSpec::Query(
            command_view(cmd),
            match sent {
                Some(s) => Some(s@),
                None => None,
            },
            wait_ms,
            report,
        ),
{
    let sent = match sent {
        Some(s) => Some(string_of(s)),
        None => None,
    };
    DisplayCliPlan::Query { cmd, sent, wait_ms, report }
}

pub struct DisplayCommandHandler;

impl DisplayCommandHandler {
    pub fn plan(&self, args: &Vec<String>) -> (p: DisplayCliPlan)
        ensures
            display_plan_view(p) == display_plan_spec(string_views(args@)),
    {
        let ghost a = string_views(args@);
        let n = args.len();
        if n < 2 {
            return DisplayCliPlan::Print(line1(
                "Usage: display <power|wifi|play|pause|next|prev|brightness|volume|loop|status|dcim|config|switcher|info>",
            ));
        }
        let sub = &args[1];
        assert(a[1] == sub@);
        if n >= 3 {
            assert(a[2] == args@[2]@);
        }
        if n >= 4 {
            assert(a[3] == args@[3]@);
        }
        if is_text(sub, "power") {
            if n < 3 {
                DisplayCliPlan::Print(line1("Usage: display power <on|off>"))
            } else if is_text(&args[2], "on") {
                send(DisplayCommand::PowerOn, "display: power on requested")
            } else if is_text(&args[2], "off") {
                send(DisplayCommand::PowerOff, "display: power off requested")
            } else {
                DisplayCliPlan::Print(line1("Usage: display power <on|off>"))
            }
        } else if is_text(sub, "wifi") {
            Self::plan_wifi(args)
        } else if is_text(sub, "play") {
            if n < 3 {
                DisplayCliPlan::Print(line1("Usage: display play <filename>"))
            } else {
                match encode_filename_to_hex(args[2].as_str()) {
                    Some(h) => send(DisplayCommand::PlayFile { filename_hex: h }, "display: play file requested"),
                    None => DisplayCliPlan::Print(line1("Failed to encode filename to hex")),
                }
            }
        } else if is_text(sub, "pause") {
            send(DisplayCommand::Pause, "display: pause requested")
        } else if is_text(sub, "next") {
            send(DisplayCommand::Next, "display: next file requested")
        } else if is_text(sub, "prev") {
            send(DisplayCommand::Previous, "display: previous file requested")
        } else if is_text(sub, "brightness") {
            Self::plan_level(args, false)
        } else if is_text(sub, "volume") {
            Self::plan_level(args, true)
        } else if is_text(sub, "loop") {
            if n < 3 {
                DisplayCliPlan::Print(line1("Usage: display loop <one|all>"))
            } else if string_byte_len(&args[2]) > LOOP_MODE_CAP {
                DisplayCliPlan::Print(line1("Invalid loop mode value"))
            } else {
                send(DisplayCommand::SetLoop(args[2].clone()), "display: loop mode set requested")
            }
        } else if is_text(sub, "mute") {
            send(DisplayCommand::SetVolume(1), "display: mute set requested (volume = 1)")
        } else if is_text(sub, "unmute") {
            send(DisplayCommand::SetVolume(3), "display: unmute set requested (volume = 3)")
        } else if is_text(sub, "dcim") {
            query(DisplayCommand::GetDcim, Some("display: DCIM list request sent"), 800, DisplayReport::Files)
        } else if is_text(sub, "config") {
            if n >= 4 {
                if string_byte_len(&args[2]) > SET_KEY_CAP || string_byte_len(&args[3]) > SET_VALUE_CAP {
                    DisplayCliPlan::Print(line1("display: error: key or value too long"))
                } else {
                    send(
                        DisplayCommand::SetConfig { key: args[2].clone(), value: args[3].clone() },
                        "display: config set request sent",
                    )
                }
            } else {
                query(DisplayCommand::GetConfig, Some("display: config request sent"), 800, DisplayReport::Settings)
            }
        } else if is_text(sub, "status") {
            query(DisplayCommand::GetStatus, None, 200, DisplayReport::Status)
        } else if is_text(sub, "switcher") {
            if n < 3 {
                DisplayCliPlan::Print(line1("Usage: display switcher <on|off>"))
            } else if is_text(&args[2], "on") {
                send(DisplayCommand::SetSwitcher(true), "display: switcher set requested")
            } else if is_text(&args[2], "off") {
                send(DisplayCommand::SetSwitcher(false), "display: switcher set requested")
            } else {
                DisplayCliPlan::Print(line1("Invalid switcher value. Use 'on' or 'off'"))
            }
        } else if is_text(sub, "info") {
            query(DisplayCommand::GetInfo, Some("display: info request sent"), 500, DisplayReport::Info)
        } else {
            DisplayCliPlan::Print(line1(
                "Usage: display <power|wifi|play|pause|next|prev|brightness|volume|loop|status|dcim|config|switcher|info>",
            ))
        }
    }

    fn plan_wifi(args: &Vec<String>) -> (p: DisplayCliPlan)
        requires
            args@.len() >= 2,
        ensures
            display_plan_view(p) == display_wifi_spec(string_views(args@)),
    {
        let ghost a = string_views(args@);
        let n = args.len();
        if n < 3 {
            return DisplayCliPlan::Print(line1("Usage: display wifi <ssid> [passphrase]"));
        }
        assert(a[2] == args@[2]@);
        if string_byte_len(&args[2]) > DISPLAY_NAME_MAX_LEN {
            return DisplayCliPlan::Print(line1("SSID too long"));
        }
        let pass = if n >= 4 {
            assert(a[3] == args@[3]@);
            if string_byte_len(&args[3]) > DISPLAY_PASS_MAX_LEN {
                return DisplayCliPlan::Print(line1("Passphrase too long"));
            }
            args[3].clone()
        } else {
            String::new()
        };
        send(
            DisplayCommand::SetWifi { ssid: args[2].clone(), passphrase: pass },
            "display: wifi credentials configured",
        )
    }

    fn plan_level(args: &Vec<String>, volume: bool) -> (p: DisplayCliPlan)
        requires
            args@.len() >= 2,
        ensures
            display_plan_view(p) == display_level_spec(string_views(args@), volume),
    {
        let ghost a = string_views(args@);
        if args.len() < 3 {
            return DisplayCliPlan::Print(
                line1(if volume { "Usage: display volume <1-3>" } else { "Usage: display brightness <1-3>" }),
            );
        }
        assert(a[2] == args@[2]@);
        let chars = str_chars(args[2].as_str());
        match parse_u8(&chars) {
            None => DisplayCliPlan::Print(
                line1(if volume { "Invalid volume level" } else { "Invalid brightness level" }),
            ),
            Some(l) => {
                if !(1 <= l && l <= 3) {
                    DisplayCliPlan::Print(
                        line1(
                            if volume { "Volume must be between 1 and 3" } else { "Brightness must be between 1 and 3" },
                        ),
                    )
                } else if volume {
                    send(DisplayCommand::SetVolume(l), "display: volume set requested")
                } else {
                    send(DisplayCommand::SetBrightness(l), "display: brightness set requested")
                }
            },
        }
    }
}

/// The line printed when the display's queue is full.
pub fn busy_line() -> (s: String)
    ensures
        s@ == "display: error: system busy"@,
{
    string_of("display: error: system busy")
}

/// A file name for the listing: the name a hex file name stands for, or a
/// marker when it stands for none.
pub open spec fn decoded_or_invalid(hex: Seq<char>) -> Seq<char> {
    match decoded_filename(encode_utf8(hex)) {
        Some(d) => d,
        None => "<invalid hex>"@,
    }
}

fn decoded_name(hex: &String) -> (s: String)
    ensures
        s@ == decoded_or_invalid(hex@),
{
    match decode_hex_filename(hex.as_str()) {
        Some(d) => d,
        None => string_of("<invalid hex>"),
    }
}

/// A file as the listings show it: its name, then its hex name in brackets.
pub open spec fn file_text(hex: Seq<char>) -> Seq<char> {
    decoded_or_invalid(hex) + " ("@ + hex + ")"@
}

fn file_string(hex: &String) -> (s: String)
    ensures
        s@ == file_text(hex@),
{
    let mut s = decoded_name(hex);
    push_text(&mut s, " (");
    push_text(&mut s, hex.as_str());
    push_text(&mut s, ")");
    s
}

fn labeled(label: &str, value: &str) -> (s: String)
    ensures
        s@ == label@ + value@,
{
    let mut s = string_of(label);
    push_text(&mut s, value);
    s
}

fn push_line(lines: &mut Vec<String>, line: String)
    ensures
        string_views(final(lines)@) == string_views(old(lines)@).push(line@),
{
    lines.push(line);
    proof {
        assert(string_views(lines@) =~= string_views(old(lines)@).push(line@));
    }
}

/// The report after `display dcim`.
pub open spec fn files_text(files: Seq<Seq<char>>) -> Seq<Seq<char>> {
    seq!["Available display files:"@] + files.map_values(|f: Seq<char>| "  "@ + file_text(f))
}

pub fn files_report(status: &DisplayStatus) -> (lines: Vec<String>)
    ensures
        string_views(lines@) == files_text(string_views(status.files@)),
{
    let mut lines = line1("Available display files:");
    let mut i: usize = 0;
    while i < status.files.len()
        invariant
            i <= status.files@.len(),
            string_views(lines@) == seq!["Available display files:"@] + string_views(status.files@).take(
                i as int,
            ).map_values(|f: Seq<char>| "  "@ + file_text(f)),
        decreases status.files@.len() - i,
    {
        let f = file_string(&status.files[i]);
        let mut l = string_of("  ");
        push_text(&mut l, f.as_str());
        push_line(&mut lines, l);
        proof {
            let fs = string_views(status.files@);
            assert(fs.take(i + 1).map_values(|f: Seq<char>| "  "@ + file_text(f)) =~= fs.take(i as int).map_values(
                |f: Seq<char>| "  "@ + file_text(f),
            ).push("  "@ + file_text(fs[i as int])));
        }
        i = i + 1;
    }
    proof {
        assert(string_views(status.files@).take(status.files@.len() as int) =~= string_views(status.files@));
    }
    lines
}

/// A text, or "unknown" when there is none.
pub open spec fn or_unknown(s: Option<String>) -> Seq<char> {
    match s {
        Some(t) => t@,
        None => "unknown"@,
    }
}

fn or_unknown_string(s: &Option<String>) -> (r: String)
    ensures
        r@ == or_unknown(*s),
{
    match s {
        Some(t) => t.clone(),
        None => string_of("unknown"),
    }
}

/// The report after `display config`: the listed settings, or, when none
/// were listed, what the status holds of each.
pub open spec fn settings_text(st: DisplayStatus) -> Seq<Seq<char>> {
    seq!["Display Settings:"@] + if st.configs@.len() > 0 {
        st.configs@.map_values(|e: ConfigEntry| "  "@ + e.key@ + ": "@ + e.value@)
    } else {
        seq![
            "  brightness: "@ + decimal_chars(st.brightness as nat),
            "  volume: "@ + decimal_chars(st.volume as nat),
            "  loop_mode: "@ + or_unknown(st.loop_mode),
            "  angle: "@ + match st.angle {
                Some(a) => decimal_chars(a as nat),
                None => "unknown"@,
            },
            "  ble: "@ + or_unknown(st.ble),
            "  switch: "@ + or_unknown(st.switcher),
            "  ssid: "@ + or_unknown(st.ssid_config),
        ]
    }
}

pub fn settings_report(st: &DisplayStatus) -> (lines: Vec<String>)
    ensures
        string_views(lines@) == settings_text(*st),
{
    let mut lines = line1("Display Settings:");
    if st.configs.len() > 0 {
        let mut i: usize = 0;
        while i < st.configs.len()
            invariant
                i <= st.configs@.len(),
                string_views(lines@) == seq!["Display Settings:"@] + st.configs@.take(i as int).map_values(
                    |e: ConfigEntry| "  "@ + e.key@ + ": "@ + e.value@,
                ),
            decreases st.configs@.len() - i,
        {
            let e = &st.configs[i];
            let mut l = labeled("  ", e.key.as_str());
            push_text(&mut l, ": ");
            push_text(&mut l, e.value.as_str());
            push_line(&mut lines, l);
            proof {
                assert(st.configs@.take(i + 1).map_values(|e: ConfigEntry| "  "@ + e.key@ + ": "@ + e.value@)
                    =~= st.configs@.take(i as int).map_values(|e: ConfigEntry| "  "@ + e.key@ + ": "@ + e.value@).push(
                    "  "@ + st.configs@[i as int].key@ + ": "@ + st.configs@[i as int].value@,
                ));
            }
            i = i + 1;
        }
        proof {
            assert(st.configs@.take(st.configs@.len() as int) =~= st.configs@);
        }
    } else {
        let b = decimal_string(st.brightness as u64);
        push_line(&mut lines, labeled("  brightness: ", b.as_str()));
        let v = decimal_string(st.volume as u64);
        push_line(&mut lines, labeled("  volume: ", v.as_str()));
        let l = or_unknown_string(&st.loop_mode);
        push_line(&mut lines, labeled("  loop_mode: ", l.as_str()));
        let a = match st.angle {
            Some(a) => decimal_string(a as u64),
            None => string_of("unknown"),
        };
        push_line(&mut lines, labeled("  angle: ", a.as_str()));
        let t = or_unknown_string(&st.ble);
        push_line(&mut lines, labeled("  ble: ", t.as_str()));
        let t = or_unknown_string(&st.switcher);
        push_line(&mut lines, labeled("  switch: ", t.as_str()));
        let t = or_unknown_string(&st.ssid_config);
        push_line(&mut lines, labeled("  ssid: ", t.as_str()));
        proof {
            assert(string_views(lines@) =~= settings_text(*st));
        }
    }
    lines
}

pub open spec fn power_text(p: DisplayPowerState) -> Seq<char> {
    match p {
        DisplayPowerState::Off => "off"@,
        DisplayPowerState::PoweringOn => "booting"@,
        DisplayPowerState::On => "on"@,
        DisplayPowerState::PoweringOff => "shutting down"@,
    }
}

pub open spec fn play_text(p: DisplayPlayState) -> Seq<char> {
    match p {
        DisplayPlayState::Playing => "playing"@,
        DisplayPlayState::Paused => "paused (idle)"@,
        DisplayPlayState::Offline => "offline"@,
    }
}

/// The report after `display status`: the power state, and while the
/// display is on its Wi-Fi and playback, with the file playing and how far.
pub open spec fn status_text(st: DisplayStatus) -> Seq<Seq<char>> {
    seq!["power state: "@ + power_text(st.power)] + if st.power == DisplayPowerState::On {
        seq![
            "station wifi: "@ + if st.wifi_connected { "connected"@ } else { "disconnected"@ },
            "play state: "@ + play_text(st.play_state),
        ] + match st.current_file {
            Some(f) => seq![
                "current file: "@ + file_text(f@),
                "progress: "@ + decimal_chars(st.progress as nat) + " / "@ + decimal_chars(st.total as nat),
            ],
            None => Seq::empty(),
        }
    } else {
        Seq::empty()
    }
}

pub fn status_report(st: &DisplayStatus) -> (lines: Vec<String>)
    ensures
        string_views(lines@) == status_text(*st),
{
    let p = match st.power {
        DisplayPowerState::Off => "off",
        DisplayPowerState::PoweringOn => "booting",
        DisplayPowerState::On => "on",
        DisplayPowerState::PoweringOff => "shutting down",
    };
    let mut lines: Vec<String> = Vec::new();
    push_line(&mut lines, labeled("power state: ", p));
    if st.power == DisplayPowerState::On {
        push_line(
            &mut lines,
            labeled("station wifi: ", if st.wifi_connected { "connected" } else { "disconnected" }),
        );
        let ps = match st.play_state {
            DisplayPlayState::Playing => "playing",
            DisplayPlayState::Paused => "paused (idle)",
            DisplayPlayState::Offline => "offline",
        };
        push_line(&mut lines, labeled("play state: ", ps));
        if let Some(f) = &st.current_file {
            let t = file_string(f);
            push_line(&mut lines, labeled("current file: ", t.as_str()));
            let a = decimal_string(st.progress as u64);
            let mut l = labeled("progress: ", a.as_str());
            push_text(&mut l, " / ");
            let b = decimal_string(st.total as u64);
            push_text(&mut l, b.as_str());
            push_line(&mut lines, l);
        }
    }
    proof {
        assert(string_views(lines@) =~= status_text(*st));
    }
    lines
}

/// The report after `display info`.
pub open spec fn info_text(st: DisplayStatus) -> Seq<Seq<char>> {
    seq![
        "Device Info:"@,
        "  model: "@ + or_unknown(st.model),
        "  software version: "@ + or_unknown(st.sw_version),
    ]
}

pub fn info_report(st: &DisplayStatus) -> (lines: Vec<String>)
    ensures
        string_views(lines@) == info_text(*st),
{
    let mut lines = line1("Device Info:");
    let m = or_unknown_string(&st.model);
    push_line(&mut lines, labeled("  model: ", m.as_str()));
    let v = or_unknown_string(&st.sw_version);
    push_line(&mut lines, labeled("  software version: ", v.as_str()));
    proof {
        assert(string_views(lines@) =~= info_text(*st));
    }
    lines
}

/// Every command `display` sends is the one its words name: `power on|off`
/// powers on or off, `pause`, `next` and `prev` pause, go forward and go
/// back, `switcher on|off` sets the switcher as it says, `mute` and `unmute`
/// set the volume to 1 and 3, `loop` and `config` hand their values on as
/// given, and the level, Wi-Fi and play commands come from their own words.
pub proof fn law_display_commands_named(a: Seq<Seq<char>>)
    ensures
        display_plan_spec(a) matches DisplayPlanSpec::Send(cv, _) ==> a.len() >= 2 && match cv {
            CommandView::PowerOn => a[1] == "power"@ && a[2] == "on"@,
            CommandView::PowerOff => a[1] == "power"@ && a[2] == "off"@,
            CommandView::Pause => a[1] == "pause"@,
            CommandView::Next => a[1] == "next"@,
            CommandView::Previous => a[1] == "prev"@,
            CommandView::SetSwitcher(on) => a[1] == "switcher"@ && (on <==> a[2] == "on"@),
            CommandView::SetLoop(m) => a[1] == "loop"@ && m == a[2],
            CommandView::SetConfig(k, v) => a[1] == "config"@ && k == a[2] && v == a[3],
            CommandView::SetVolume(v) => a[1] == "volume"@ || (a[1] == "mute"@ && v == 1) || (a[1] == "unmute"@
                && v == 3),
            CommandView::SetBrightness(_) => a[1] == "brightness"@,
            CommandView::SetWifi(_, _) => a[1] == "wifi"@,
            CommandView::PlayFile(_) => a[1] == "play"@,
            _ => false,
        },
{
}

} // verus!
