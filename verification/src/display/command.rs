//! The commands the display controller takes, and the requests each one makes
//! of the display while it is on.

use vstd::prelude::*;
use vstd::string::StringSliceAdditionalSpecFns;
use crate::text::{decimal_chars, decimal_string, push_text, string_of, utf8_len};
use crate::display::json::{fits_utf8, needs_login};
use crate::scan::contains_seq;
use crate::cli::args::string_views;
use crate::display::status::DisplayPowerState;

verus! {

/// Longest display SSID, in bytes.
pub const DISPLAY_NAME_MAX_LEN: usize = 32;
/// Longest display passphrase, in bytes.
pub const DISPLAY_PASS_MAX_LEN: usize = 64;
/// Longest hex file name, in bytes.
pub const FILENAME_HEX_CAP: usize = 64;
/// Longest loop mode, in bytes.
pub const LOOP_MODE_CAP: usize = 10;
/// Longest setting name, in bytes, of a setting to change.
pub const SET_KEY_CAP: usize = 16;
/// Longest setting value, in bytes, of a setting to change.
pub const SET_VALUE_CAP: usize = 48;
/// Capacity, in bytes, of a short request path.
pub const SHORT_PATH_CAP: usize = 64;
/// Capacity, in bytes, of a long request path.
pub const LONG_PATH_CAP: usize = 128;
/// Depth of the display command queue.
pub const DISPLAY_CMD_QUEUE_DEPTH: usize = 8;

pub enum DisplayCommand {
    PowerOn,
    PowerOff,
    SetWifi { ssid: String, passphrase: String },
    PlayFile { filename_hex: String },
    Pause,
    Next,
    Previous,
    SetBrightness(u8),
    SetVolume(u8),
    SetLoop(String),
    SetConfig { key: String, value: String },
    GetDcim,
    GetConfig,
    GetStatus,
    SetSwitcher(bool),
    GetInfo,
}

/// What the reply to a request is used for.
#[derive(Clone, Copy, Debug, PartialEq, Eq, Structural)]
pub enum ReplyUse {
    Ignore,
    /// After the request, the switcher is known to be on (`true`) or off.
    Switcher(bool),
    /// The reply lists the files.
    Files,
    /// The reply lists the files, and the switcher is then known to be off.
    FilesSwitcherOff,
    /// The reply lists the settings.
    Config,
    /// The reply reports playback.
    PlayStatus,
    /// The reply describes the device.
    Info,
}

/// A request to make and what its reply is for.
pub struct PlannedRequest {
    pub path: String,
    pub reply: ReplyUse,
}

/// The view of a list of planned requests.
pub open spec fn plan_view(p: Seq<PlannedRequest>) -> Seq<(Seq<char>, ReplyUse)> {
    p.map_values(|r: PlannedRequest| (r.path@, r.reply))
}

/// `prefix` + `value`, when its UTF-8 fits in `cap` bytes.
pub open spec fn fitted_path(prefix: Seq<char>, value: Seq<char>, suffix: Seq<char>, cap: nat) -> Seq<(Seq<char>, ReplyUse)> {
    if utf8_len(prefix + value + suffix) <= cap {
        seq![(prefix + value + suffix, ReplyUse::Ignore)]
    } else {
        Seq::empty()
    }
}

/// The requests a command makes while the display is on.
pub open spec fn active_requests(cmd: DisplayCommand) -> Seq<(Seq<char>, ReplyUse)> {
    match cmd {
        DisplayCommand::PowerOff => seq![("/ctrl/session?action=quit"@, ReplyUse::Ignore)],
        DisplayCommand::PlayFile { filename_hex } => seq![("/ctrl/set?switcher=on"@, ReplyUse::Switcher(true))]
            + fitted_path("/DCIM/"@, filename_hex@, "?act=play"@, LONG_PATH_CAP as nat),
        DisplayCommand::Pause => seq![("/ctrl/play?action=pause"@, ReplyUse::Ignore)],
        DisplayCommand::Next => seq![("/ctrl/play?action=next"@, ReplyUse::Ignore)],
        DisplayCommand::Previous => seq![("/ctrl/play?action=previous"@, ReplyUse::Ignore)],
        DisplayCommand::SetBrightness(b) => seq![("/ctrl/set?brightness="@ + decimal_chars(b as nat), ReplyUse::Ignore)],
        DisplayCommand::SetVolume(v) => seq![("/ctrl/set?volum="@ + decimal_chars(v as nat), ReplyUse::Ignore)],
        DisplayCommand::SetLoop(mode) => fitted_path("/ctrl/set?loop="@, mode@, ""@, SHORT_PATH_CAP as nat),
        DisplayCommand::GetDcim => seq![("/DCIM"@, ReplyUse::Files)],
        DisplayCommand::GetConfig => seq![("/ctrl/get?k=all"@, ReplyUse::Config)],
        DisplayCommand::SetConfig { key, value } => fitted_path("/ctrl/set?"@, key@ + "="@ + value@, ""@, LONG_PATH_CAP as nat),
        DisplayCommand::GetStatus => seq![("/ctrl/play?action=status"@, ReplyUse::PlayStatus)],
        DisplayCommand::SetSwitcher(on) => seq![(
            "/ctrl/set?switcher="@ + if on { "on"@ } else { "off"@ },
            ReplyUse::Switcher(on),
        )],
        DisplayCommand::GetInfo => seq![("/info"@, ReplyUse::Info)],
        _ => Seq::empty(),
    }
}

/// The requests that set the display up once it has come on: log in, set
/// volume and brightness to full, loop one file, stop the panel, then list the files.
pub open spec fn boot_requests() -> Seq<(Seq<char>, ReplyUse)> {
    seq![
        ("/ctrl/session"@, ReplyUse::Ignore),
        ("/ctrl/set?volum=3"@, ReplyUse::Ignore),
        ("/ctrl/set?brightness=3"@, ReplyUse::Ignore),
        ("/ctrl/set?loop=one"@, ReplyUse::Ignore),
        ("/ctrl/set?switcher=off"@, ReplyUse::Ignore),
        ("/DCIM"@, ReplyUse::FilesSwitcherOff),
    ]
}

fn request(path: &str, reply: ReplyUse) -> (r: PlannedRequest)
    ensures
        r.path@ == path@,
        r.reply == reply,
{
    PlannedRequest { path: string_of(path), reply }
}

fn push_fitted(plan: &mut Vec<PlannedRequest>, prefix: &str, value: &str, suffix: &str, cap: usize)
    ensures
        plan_view(final(plan)@) == plan_view(old(plan)@) + fitted_path(prefix@, value@, suffix@, cap as nat),
{
    let mut path = string_of(prefix);
    push_text(&mut path, value);
    push_text(&mut path, suffix);
    let chars = crate::text::str_chars(path.as_str());
    if fits_utf8(&chars, cap) {
        plan.push(PlannedRequest { path, reply: ReplyUse::Ignore });
        proof {
            assert(plan_view(plan@) =~= plan_view(old(plan)@) + fitted_path(prefix@, value@, suffix@, cap as nat));
        }
    } else {
        proof {
            assert(plan_view(plan@) =~= plan_view(old(plan)@) + fitted_path(prefix@, value@, suffix@, cap as nat));
        }
    }
}

fn single(path: String, reply: ReplyUse) -> (plan: Vec<PlannedRequest>)
    ensures
        plan_view(plan@) == seq![(path@, reply)],
{
    let mut plan: Vec<PlannedRequest> = Vec::new();
    let ghost p = path@;
    plan.push(PlannedRequest { path, reply });
    proof {
        assert(plan_view(plan@) =~= seq![(p, reply)]);
    }
    plan
}

/// The requests a command makes of the display while it is on.
pub fn active_plan(cmd: &DisplayCommand) -> (plan: Vec<PlannedRequest>)
    ensures
        plan_view(plan@) == active_requests(*cmd),
{
    match cmd {
        DisplayCommand::PowerOff => single(string_of("/ctrl/session?action=quit"), ReplyUse::Ignore),
        DisplayCommand::PlayFile { filename_hex } => {
            let mut plan = single(string_of("/ctrl/set?switcher=on"), ReplyUse::Switcher(true));
            push_fitted(&mut plan, "/DCIM/", filename_hex.as_str(), "?act=play", LONG_PATH_CAP);
            plan
        },
        DisplayCommand::Pause => single(string_of("/ctrl/play?action=pause"), ReplyUse::Ignore),
        DisplayCommand::Next => single(string_of("/ctrl/play?action=next"), ReplyUse::Ignore),
        DisplayCommand::Previous => single(string_of("/ctrl/play?action=previous"), ReplyUse::Ignore),
        DisplayCommand::SetBrightness(b) => {
            let mut path = string_of("/ctrl/set?brightness=");
            let n = decimal_string(*b as u64);
            push_text(&mut path, n.as_str());
            single(path, ReplyUse::Ignore)
        },
        DisplayCommand::SetVolume(v) => {
            let mut path = string_of("/ctrl/set?volum=");
            let n = decimal_string(*v as u64);
            push_text(&mut path, n.as_str());
            single(path, ReplyUse::Ignore)
        },
        DisplayCommand::SetLoop(mode) => {
            let mut plan: Vec<PlannedRequest> = Vec::new();
            push_fitted(&mut plan, "/ctrl/set?loop=", mode.as_str(), "", SHORT_PATH_CAP);
            proof {
                assert(plan_view(Seq::<PlannedRequest>::empty()) =~= Seq::<(Seq<char>, ReplyUse)>::empty());
            }
            plan
        },
        DisplayCommand::GetDcim => single(string_of("/DCIM"), ReplyUse::Files),
        DisplayCommand::GetConfig => single(string_of("/ctrl/get?k=all"), ReplyUse::Config),
        DisplayCommand::SetConfig { key, value } => {
            let mut kv = string_of(key.as_str());
            push_text(&mut kv, "=");
            push_text(&mut kv, value.as_str());
            let mut plan: Vec<PlannedRequest> = Vec::new();
            push_fitted(&mut plan, "/ctrl/set?", kv.as_str(), "", LONG_PATH_CAP);
            proof {
                assert(plan_view(Seq::<PlannedRequest>::empty()) =~= Seq::<(Seq<char>, ReplyUse)>::empty());
            }
            plan
        },
        DisplayCommand::GetStatus => single(string_of("/ctrl/play?action=status"), ReplyUse::PlayStatus),
        DisplayCommand::SetSwitcher(on) => {
            let mut path = string_of("/ctrl/set?switcher=");
            if *on {
                push_text(&mut path, "on");
            } else {
                push_text(&mut path, "off");
            }
            single(path, ReplyUse::Switcher(*on))
        },
        DisplayCommand::GetInfo => single(string_of("/info"), ReplyUse::Info),
        _ => {
            let plan: Vec<PlannedRequest> = Vec::new();
            proof {
                assert(plan_view(plan@) =~= Seq::<(Seq<char>, ReplyUse)>::empty());
            }
            plan
        },
    }
}

/// The requests that set the display up once it has come on.
pub fn boot_plan() -> (plan: Vec<PlannedRequest>)
    ensures
        plan_view(plan@) == boot_requests(),
{
    let mut plan: Vec<PlannedRequest> = Vec::new();
    plan.push(request("/ctrl/session", ReplyUse::Ignore));
    plan.push(request("/ctrl/set?volum=3", ReplyUse::Ignore));
    plan.push(request("/ctrl/set?brightness=3", ReplyUse::Ignore));
    plan.push(request("/ctrl/set?loop=one", ReplyUse::Ignore));
    plan.push(request("/ctrl/set?switcher=off", ReplyUse::Ignore));
    plan.push(request("/DCIM", ReplyUse::FilesSwitcherOff));
    proof {
        assert(plan_view(plan@) =~= boot_requests());
    }
    plan
}

/// Whether the command ends the session with the display (power off).
pub fn ends_session(cmd: &DisplayCommand) -> (r: bool)
    ensures
        r == (*cmd is PowerOff),
{
    match cmd {
        DisplayCommand::PowerOff => true,
        _ => false,
    }
}

/// What the display controller does with a command while the display is
/// off: it only powers on or stores the display's Wi-Fi credentials.
pub enum OffAction {
    PowerOn,
    SaveWifi { ssid: String, passphrase: String },
    /// The display must be powered on first.
    Ignore,
}

/// The controller takes commands only while the display is off; in any other
/// state the active session handles them.
pub open spec fn takes_commands(power: DisplayPowerState) -> bool {
    power == DisplayPowerState::Off
}

/// Whether the controller takes the next command itself.
pub fn controller_takes_commands(power: DisplayPowerState) -> (r: bool)
    ensures
        r == takes_commands(power),
{
    power == DisplayPowerState::Off
}

/// The action for a command received while the display is off.
pub fn off_action(cmd: DisplayCommand) -> (a: OffAction)
    ensures
        match cmd {
            DisplayCommand::PowerOn => a is PowerOn,
            DisplayCommand::SetWifi { ssid, passphrase } => a matches OffAction::SaveWifi { ssid: s, passphrase: p }
                && s@ == ssid@ && p@ == passphrase@,
            _ => a is Ignore,
        },
{
    match cmd {
        DisplayCommand::PowerOn => OffAction::PowerOn,
        DisplayCommand::SetWifi { ssid, passphrase } => OffAction::SaveWifi { ssid, passphrase },
        _ => OffAction::Ignore,
    }
}

/// The path of the login request.
pub open spec fn login_path() -> Seq<char> {
    "/ctrl/session"@
}

/// Whether a reply says the session must be established first.
pub open spec fn asks_login(body: Seq<char>) -> bool {
    contains_seq(body, "No active session"@) || contains_seq(body, "\"code\": 1"@)
}

/// The requests that follow the reply to a request of `path` (`None` when no
/// readable reply came): when the display asks for a login, the login and
/// then the same request again; else none.
pub open spec fn follow_up(path: Seq<char>, reply: Option<Seq<char>>) -> Seq<Seq<char>> {
    match reply {
        Some(b) => if asks_login(b) {
            seq![login_path(), path]
        } else {
            Seq::empty()
        },
        None => Seq::empty(),
    }
}

/// The requests to make after the reply to `path`.
pub fn follow_up_requests(path: &str, reply: Option<&str>) -> (r: Vec<String>)
    ensures
        string_views(r@) == follow_up(
            path@,
            match reply {
                Some(b) => Some(b@),
                None => None,
            },
        ),
{
    let mut r: Vec<String> = Vec::new();
    match reply {
        Some(b) => {
            if needs_login(b) {
                r.push(string_of("/ctrl/session"));
                r.push(string_of(path));
            }
        },
        None => {},
    }
    proof {
        reveal_strlit("/ctrl/session");
        assert(string_views(r@) =~= follow_up(
            path@,
            match reply {
                Some(b) => Some(b@),
                None => None,
            },
        ));
    }
    r
}

/// Every request made for a plan of paths, with the replies to the first try
/// of each: each path, followed by what its reply calls for.
pub open spec fn issued_requests(paths: Seq<Seq<char>>, replies: Seq<Option<Seq<char>>>) -> Seq<Seq<char>>
    decreases paths.len(),
{
    if paths.len() == 0 {
        Seq::empty()
    } else {
        seq![paths[0]] + follow_up(paths[0], replies[0]) + issued_requests(paths.drop_first(), replies.drop_first())
    }
}

/// Carrying out a plan makes only its own requests and logins, and tries
/// every planned request: each request made is a planned path or the login,
/// and each planned path is requested.
pub proof fn law_requests_planned_or_login(paths: Seq<Seq<char>>, replies: Seq<Option<Seq<char>>>)
    requires
        replies.len() == paths.len(),
    ensures
        forall|i: int| 0 <= i < issued_requests(paths, replies).len() ==> {
            let x = #[trigger] issued_requests(paths, replies)[i];
            x == login_path() || paths.contains(x)
        },
        forall|j: int| 0 <= j < paths.len() ==> issued_requests(paths, replies).contains(#[trigger] paths[j]),
    decreases paths.len(),
{
    if paths.len() > 0 {
        let rest = issued_requests(paths.drop_first(), replies.drop_first());
        let f = follow_up(paths[0], replies[0]);
        law_requests_planned_or_login(paths.drop_first(), replies.drop_first());
        let all = issued_requests(paths, replies);
        assert(all == seq![paths[0]] + f + rest);
        assert forall|i: int| 0 <= i < all.len() implies {
            let x = #[trigger] all[i];
            x == login_path() || paths.contains(x)
        } by {
            if i == 0 {
                assert(paths[0] == all[0]);
            } else if i < 1 + f.len() {
                assert(all[i] == f[i - 1]);
            } else {
                let x = rest[i - 1 - f.len()];
                assert(all[i] == x);
                if paths.drop_first().contains(x) {
                    let j = choose|j: int| 0 <= j < paths.drop_first().len() && paths.drop_first()[j] == x;
                    assert(paths[j + 1] == x);
                }
            }
        }
        assert forall|j: int| 0 <= j < paths.len() implies all.contains(#[trigger] paths[j]) by {
            if j == 0 {
                assert(all[0] == paths[0]);
            } else {
                assert(paths[j] == paths.drop_first()[j - 1]);
                assert(rest.contains(paths.drop_first()[j - 1]));
                let k = choose|k: int| 0 <= k < rest.len() && rest[k] == paths[j];
                assert(all[1 + f.len() + k] == rest[k]);
            }
        }
    }
}

/// The display's name for the playback action a command asks for.
pub open spec fn playback_action(cmd: DisplayCommand) -> Option<Seq<char>> {
    match cmd {
        DisplayCommand::Pause => Some("pause"@),
        DisplayCommand::Next => Some("next"@),
        DisplayCommand::Previous => Some("previous"@),
        DisplayCommand::GetStatus => Some("status"@),
        _ => None,
    }
}

/// A playback command makes exactly one request: the play endpoint with the
/// action named after the command. So the requests of different playback
/// commands differ, and only the status query uses its reply.
pub proof fn law_playback_requests(cmd: DisplayCommand, other: DisplayCommand)
    ensures
        playback_action(cmd) matches Some(w) ==> active_requests(cmd).len() == 1 && active_requests(cmd)[0].0
            == "/ctrl/play?action="@ + w && (active_requests(cmd)[0].1 == ReplyUse::Ignore <==> !(cmd
            is GetStatus)),
        playback_action(cmd) is Some && playback_action(other) is Some && playback_action(cmd)
            != playback_action(other) ==> active_requests(cmd)[0].0 != active_requests(other)[0].0,
{
    reveal_strlit("/ctrl/play?action=pause");
    reveal_strlit("/ctrl/play?action=next");
    reveal_strlit("/ctrl/play?action=previous");
    reveal_strlit("/ctrl/play?action=status");
    reveal_strlit("/ctrl/play?action=");
    reveal_strlit("pause");
    reveal_strlit("next");
    reveal_strlit("previous");
    reveal_strlit("status");
    if playback_action(cmd) is Some {
        let w = playback_action(cmd)->0;
        assert(active_requests(cmd)[0].0 =~= "/ctrl/play?action="@ + w);
    }
    if playback_action(cmd) is Some && playback_action(other) is Some && playback_action(cmd) != playback_action(
        other,
    ) {
        let w1 = playback_action(cmd)->0;
        let w2 = playback_action(other)->0;
        let p1 = active_requests(cmd)[0].0;
        let p2 = active_requests(other)[0].0;
        assert(p1 =~= "/ctrl/play?action="@ + w1);
        assert(p2 =~= "/ctrl/play?action="@ + w2);
        if p1 == p2 {
            assert(p1.skip(18) =~= w1);
            assert(p2.skip(18) =~= w2);
        }
    }
}

/// Brightness and volume go to their own settings: no brightness request is
/// a volume request.
pub proof fn law_level_requests_differ(b: u8, v: u8)
    ensures
        active_requests(DisplayCommand::SetBrightness(b))[0].0 != active_requests(DisplayCommand::SetVolume(v))[0].0,
        active_requests(DisplayCommand::SetBrightness(b))[0].0.subrange(0, 21) == "/ctrl/set?brightness="@,
        active_requests(DisplayCommand::SetVolume(v))[0].0.subrange(0, 16) == "/ctrl/set?volum="@,
{
    reveal_strlit("/ctrl/set?brightness=");
    reveal_strlit("/ctrl/set?volum=");
    let p1 = active_requests(DisplayCommand::SetBrightness(b))[0].0;
    let p2 = active_requests(DisplayCommand::SetVolume(v))[0].0;
    assert(p1.subrange(0, 21) =~= "/ctrl/set?brightness="@);
    assert(p2.subrange(0, 16) =~= "/ctrl/set?volum="@);
    assert(p1[10] == 'b');
    assert(p2[10] == 'v');
}

} // verus!
