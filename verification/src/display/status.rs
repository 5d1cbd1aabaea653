//! What is known of the display, and how each reply of the display updates it.

use vstd::prelude::*;
use crate::display::json::{
    config_entries, config_views, current_file_of, dcim_files, extract_onplayinfo, find_json_flat_str_value,
    find_json_int_value, find_json_str_value, is_playing_of, json_flat_str_value, json_int_value,
    json_str_value, parse_config_response, parse_dcim_files, parse_play_status, ConfigEntry,
};

use crate::text::string_of;

verus! {

/// Longest loop mode, BLE or switcher value, in bytes, that the status keeps.
pub const SHORT_VALUE_CAP: usize = 10;

/// Longest SSID, in bytes, that the status keeps.
pub const SSID_CAP: usize = 32;

/// Longest model name or software version, in bytes, that the status keeps.
pub const INFO_CAP: usize = 16;

#[derive(Clone, Copy, Debug, PartialEq, Eq, Structural)]
pub enum DisplayPowerState {
    Off,
    PoweringOn,
    On,
    PoweringOff,
}

#[derive(Clone, Copy, Debug, PartialEq, Eq, Structural)]
pub enum DisplayPlayState {
    Playing,
    Paused,
    Offline,
}

pub struct DisplayStatus {
    pub power: DisplayPowerState,
    pub wifi_connected: bool,
    pub current_file: Option<String>,
    pub progress: u32,
    pub total: u32,
    pub play_state: DisplayPlayState,
    pub brightness: u8,
    pub volume: u8,
    pub loop_mode: Option<String>,
    pub angle: Option<u16>,
    pub ble: Option<String>,
    pub switcher: Option<String>,
    pub ssid_config: Option<String>,
    pub configs: Vec<ConfigEntry>,
    pub files: Vec<String>,
    pub model: Option<String>,
    pub sw_version: Option<String>,
}

/// The characters of an optional string.
pub open spec fn opt_view(s: Option<String>) -> Option<Seq<char>> {
    match s {
        Some(t) => Some(t@),
        None => None,
    }
}

/// Power and link are the same in both.
pub open spec fn keeps_link(a: DisplayStatus, b: DisplayStatus) -> bool {
    a.power == b.power && a.wifi_connected == b.wifi_connected
}

/// Playback is the same in both.
pub open spec fn keeps_playback(a: DisplayStatus, b: DisplayStatus) -> bool {
    a.current_file == b.current_file && a.progress == b.progress && a.total == b.total && a.play_state
        == b.play_state
}

/// The settings are the same in both, the switcher aside.
pub open spec fn keeps_settings_but_switcher(a: DisplayStatus, b: DisplayStatus) -> bool {
    &&& a.brightness == b.brightness
    &&& a.volume == b.volume
    &&& a.loop_mode == b.loop_mode
    &&& a.angle == b.angle
    &&& a.ble == b.ble
    &&& a.ssid_config == b.ssid_config
    &&& a.configs == b.configs
}

/// The file list and the device description are the same in both.
pub open spec fn keeps_files_and_info(a: DisplayStatus, b: DisplayStatus) -> bool {
    a.files == b.files && a.model == b.model && a.sw_version == b.sw_version
}

impl DisplayStatus {
    /// The status of a display that is off and of which nothing is known.
    pub fn new() -> (s: Self)
        ensures
            s.power == DisplayPowerState::Off,
            !s.wifi_connected,
            s.current_file is None,
            s.progress == 0,
            s.total == 0,
            s.play_state == DisplayPlayState::Offline,
            s.brightness == 3,
            s.volume == 3,
            s.loop_mode is None,
            s.angle is None,
            s.ble is None,
            s.switcher is None,
            s.ssid_config is None,
            s.configs@.len() == 0,
            s.files@.len() == 0,
            s.model is None,
            s.sw_version is None,
    {
        DisplayStatus {
            power: DisplayPowerState::Off,
            wifi_connected: false,
            current_file: None,
            progress: 0,
            total: 0,
            play_state: DisplayPlayState::Offline,
            brightness: 3,
            volume: 3,
            loop_mode: None,
            angle: None,
            ble: None,
            switcher: None,
            ssid_config: None,
            configs: Vec::new(),
            files: Vec::new(),
            model: None,
            sw_version: None,
        }
    }

    /// Takes in a `/DCIM` reply: the listed files replace those known.
    pub fn apply_dcim_reply(&mut self, body: &str)
        ensures
            final(self).files@.map_values(|f: String| f@) == dcim_files(body@),
            keeps_link(*final(self), *old(self)),
            keeps_playback(*final(self), *old(self)),
            keeps_settings_but_switcher(*final(self), *old(self)),
            final(self).switcher == old(self).switcher,
            final(self).model == old(self).model,
            final(self).sw_version == old(self).sw_version,
    {
        self.files = parse_dcim_files(body);
    }

    /// Takes in a play-status reply: the file, progress and length when given,
    /// and whether it plays.
    pub fn apply_play_status_reply(&mut self, body: &str)
        ensures
            opt_view(final(self).current_file) == match current_file_of(body@) {
                Some(c) => Some(c),
                None => opt_view(old(self).current_file),
            },
            final(self).progress == match json_int_value(body@, "\"progress\""@) {
                Some(p) => p,
                None => old(self).progress,
            },
            final(self).total == match json_int_value(body@, "\"total\""@) {
                Some(t) => t,
                None => old(self).total,
            },
            final(self).play_state == if is_playing_of(body@) {
                DisplayPlayState::Playing
            } else {
                DisplayPlayState::Paused
            },
            keeps_link(*final(self), *old(self)),
            keeps_settings_but_switcher(*final(self), *old(self)),
            final(self).switcher == old(self).switcher,
            keeps_files_and_info(*final(self), *old(self)),
    {
        let st = parse_play_status(body);
        if let Some(c) = st.current {
            self.current_file = Some(c);
        }
        if let Some(p) = st.progress {
            self.progress = p;
        }
        if let Some(t) = st.total {
            self.total = t;
        }
        self.play_state = if st.playing {
            DisplayPlayState::Playing
        } else {
            DisplayPlayState::Paused
        };
    }

    /// Takes in a play notification of the monitor channel: when it carries the
    /// file, progress and length, they replace those known, with whether it plays.
    pub fn apply_play_notification(&mut self, frame: &str)
        ensures
            match (current_file_of(frame@), json_int_value(frame@, "\"progress\""@), json_int_value(frame@, "\"total\""@)) {
                (Some(c), Some(p), Some(t)) => opt_view(final(self).current_file) == Some(c)
                    && final(self).progress == p && final(self).total == t
                    && final(self).play_state == if is_playing_of(frame@) {
                        DisplayPlayState::Playing
                    } else {
                        DisplayPlayState::Paused
                    },
                _ => opt_view(final(self).current_file) == opt_view(old(self).current_file)
                    && final(self).progress == old(self).progress && final(self).total == old(self).total
                    && final(self).play_state == old(self).play_state,
            },
            keeps_link(*final(self), *old(self)),
            keeps_settings_but_switcher(*final(self), *old(self)),
            final(self).switcher == old(self).switcher,
            keeps_files_and_info(*final(self), *old(self)),
    {
        if let Some((current, progress, playing, total)) = extract_onplayinfo(frame) {
            self.current_file = Some(current);
            self.progress = progress;
            self.total = total;
            self.play_state = if playing {
                DisplayPlayState::Playing
            } else {
                DisplayPlayState::Paused
            };
        }
    }

    /// Takes in a configuration reply: brightness, volume and loop mode when
    /// given (brightness and volume keep their low eight bits), the angle, BLE,
    /// switcher and SSID as given, and the listed settings.
    pub fn apply_config_reply(&mut self, body: &str)
        ensures
            final(self).brightness == match json_int_value(body@, "\"brightness\""@) {
                Some(b) => (b % 256) as u8,
                None => old(self).brightness,
            },
            final(self).volume == match json_int_value(body@, "\"volum\""@) {
                Some(v) => (v % 256) as u8,
                None => old(self).volume,
            },
            opt_view(final(self).loop_mode) == match json_str_value(body@, "\"loop\""@, SHORT_VALUE_CAP as nat) {
                Some(l) => Some(l),
                None => opt_view(old(self).loop_mode),
            },
            final(self).angle == match json_int_value(body@, "\"angle\""@) {
                Some(a) => Some((a % 65536) as u16),
                None => None,
            },
            opt_view(final(self).ble) == json_str_value(body@, "\"ble\""@, SHORT_VALUE_CAP as nat),
            opt_view(final(self).switcher) == json_str_value(body@, "\"switch\""@, SHORT_VALUE_CAP as nat),
            opt_view(final(self).ssid_config) == json_str_value(body@, "\"ssid\""@, SSID_CAP as nat),
            config_views(final(self).configs@) == config_entries(body@, Seq::empty()),
            keeps_link(*final(self), *old(self)),
            keeps_playback(*final(self), *old(self)),
            keeps_files_and_info(*final(self), *old(self)),
    {
        let brightness = find_json_int_value(body, "\"brightness\"");
        let volume = find_json_int_value(body, "\"volum\"");
        let loop_mode = find_json_str_value(body, "\"loop\"", SHORT_VALUE_CAP);
        let angle = find_json_int_value(body, "\"angle\"");
        let ble = find_json_str_value(body, "\"ble\"", SHORT_VALUE_CAP);
        let switcher = find_json_str_value(body, "\"switch\"", SHORT_VALUE_CAP);
        let ssid_config = find_json_str_value(body, "\"ssid\"", SSID_CAP);
        if let Some(b) = brightness {
            self.brightness = (b % 256) as u8;
        }
        if let Some(v) = volume {
            self.volume = (v % 256) as u8;
        }
        if let Some(l) = loop_mode {
            self.loop_mode = Some(l);
        }
        self.angle = match angle {
            Some(a) => Some((a % 65536) as u16),
            None => None,
        };
        self.ble = ble;
        self.switcher = switcher;
        self.ssid_config = ssid_config;
        parse_config_response(body, &mut self.configs);
    }

    /// Takes in an `/info` reply: the model and software version as given.
    pub fn apply_info_reply(&mut self, body: &str)
        ensures
            opt_view(final(self).model) == json_flat_str_value(body@, "\"model\""@, INFO_CAP as nat),
            opt_view(final(self).sw_version) == json_flat_str_value(body@, "\"sw\""@, INFO_CAP as nat),
            keeps_link(*final(self), *old(self)),
            keeps_playback(*final(self), *old(self)),
            keeps_settings_but_switcher(*final(self), *old(self)),
            final(self).switcher == old(self).switcher,
            final(self).files == old(self).files,
    {
        self.model = find_json_flat_str_value(body, "\"model\"", INFO_CAP);
        self.sw_version = find_json_flat_str_value(body, "\"sw\"", INFO_CAP);
    }

    /// Records the switcher as set on or off.
    pub fn set_switcher(&mut self, on: bool)
        ensures
            opt_view(final(self).switcher) == Some(if on { "on"@ } else { "off"@ }),
            keeps_link(*final(self), *old(self)),
            keeps_playback(*final(self), *old(self)),
            keeps_settings_but_switcher(*final(self), *old(self)),
            keeps_files_and_info(*final(self), *old(self)),
    {
        self.switcher = Some(string_of(if on { "on" } else { "off" }));
    }

    /// The outcome of joining the display's network after power-on: on
    /// success the display is on and reachable, else it is off and offline.
    pub fn on_connect_result(&mut self, connected: bool)
        ensures
            connected ==> final(self).power == DisplayPowerState::On && final(self).wifi_connected
                && final(self).play_state == old(self).play_state,
            !connected ==> final(self).power == DisplayPowerState::Off && !final(self).wifi_connected
                && final(self).play_state == DisplayPlayState::Offline,
            final(self).current_file == old(self).current_file,
            final(self).progress == old(self).progress,
            final(self).total == old(self).total,
            keeps_settings_but_switcher(*final(self), *old(self)),
            final(self).switcher == old(self).switcher,
            keeps_files_and_info(*final(self), *old(self)),
    {
        if connected {
            self.power = DisplayPowerState::On;
            self.wifi_connected = true;
        } else {
            self.power = DisplayPowerState::Off;
            self.wifi_connected = false;
            self.play_state = DisplayPlayState::Offline;
        }
    }

    /// The monitor channel went down: the display is unreachable and offline.
    pub fn on_monitor_lost(&mut self)
        ensures
            !final(self).wifi_connected,
            final(self).play_state == DisplayPlayState::Offline,
            final(self).power == old(self).power,
            final(self).current_file == old(self).current_file,
            final(self).progress == old(self).progress,
            final(self).total == old(self).total,
            keeps_settings_but_switcher(*final(self), *old(self)),
            final(self).switcher == old(self).switcher,
            keeps_files_and_info(*final(self), *old(self)),
    {
        self.wifi_connected = false;
        self.play_state = DisplayPlayState::Offline;
    }
}

} // verus!
