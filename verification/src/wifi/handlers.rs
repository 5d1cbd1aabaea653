//! The `wifi` command: what each subcommand asks of the Wi-Fi task.

use vstd::prelude::*;
use crate::cli::args::string_views;
use crate::cli::handlers::{byte_len, is_text, line1, string_byte_len};
use crate::text::string_of;
use crate::wifi::{WIFI_PASS_MAX_LEN, WIFI_SSID_MAX_LEN};

verus! {

/// What the Wi-Fi task is asked to do.
pub enum WifiCommand {
    SaveDefault { ssid: String, passphrase: String },
    ClearCredentials,
    ConnectSaved,
    Connect { ssid: String, passphrase: String },
    Reconnect,
    Disconnect,
    Scan,
    Ping { ip: [u8; 4] },
}

pub enum WifiCommandView {
    SaveDefault(Seq<char>, Seq<char>),
    ClearCredentials,
    ConnectSaved,
    Connect(Seq<char>, Seq<char>),
    Reconnect,
    Disconnect,
    Scan,
    Ping(Seq<u8>),
}

pub open spec fn wifi_command_view(c: WifiCommand) -> WifiCommandView {
    match c {
        WifiCommand::SaveDefault { ssid, passphrase } => WifiCommandView::SaveDefault(ssid@, passphrase@),
        WifiCommand::ClearCredentials => WifiCommandView::ClearCredentials,
        WifiCommand::ConnectSaved => WifiCommandView::ConnectSaved,
        WifiCommand::Connect { ssid, passphrase } => WifiCommandView::Connect(ssid@, passphrase@),
        WifiCommand::Reconnect => WifiCommandView::Reconnect,
        WifiCommand::Disconnect => WifiCommandView::Disconnect,
        WifiCommand::Scan => WifiCommandView::Scan,
        WifiCommand::Ping { ip } => WifiCommandView::Ping(ip@),
    }
}

/// Where the first `.` of a text stands, or its length when it has none.
pub open spec fn first_dot(t: Seq<char>) -> nat
    decreases t.len(),
{
    if t.len() == 0 || t[0] == '.' {
        0
    } else {
        1 + first_dot(t.drop_first())
    }
}

pub open spec fn is_decimal_digit(c: char) -> bool {
    48 <= (c as u32) <= 57
}

/// The number that a run of decimal digits writes.
pub open spec fn decimal_value(g: Seq<char>) -> int
    decreases g.len(),
{
    if g.len() == 0 {
        0
    } else {
        decimal_value(g.drop_last()) * 10 + ((g.last() as u32) - 48)
    }
}

/// One octet in dot-decimal notation: one to three decimal digits, no
/// leading zero (which would read as octal) unless the octet is `0`, and a
/// value of at most 255.
pub open spec fn is_decimal_octet(g: Seq<char>) -> bool {
    &&& 1 <= g.len() <= 3
    &&& forall|i: int| 0 <= i < g.len() ==> is_decimal_digit(#[trigger] g[i])
    &&& (g.len() > 1 ==> g[0] != '0')
    &&& decimal_value(g) <= 255
}

/// The `n` octets of a text written as `n` decimal octets separated by `.`,
/// with nothing before, between or after them; `None` for any other text.
pub open spec fn dotted_octets(t: Seq<char>, n: nat) -> Option<Seq<u8>>
    decreases n,
{
    let d = first_dot(t);
    let g = t.take(d as int);
    if n == 0 || !is_decimal_octet(g) {
        None
    } else if n == 1 {
        if d == t.len() {
            Some(seq![decimal_value(g) as u8])
        } else {
            None
        }
    } else if d >= t.len() {
        None
    } else {
        match dotted_octets(t.skip(d + 1 as int), (n - 1) as nat) {
            Some(rest) => Some(seq![decimal_value(g) as u8] + rest),
            None => None,
        }
    }
}

/// `core::net::Ipv4Addr::from_str`, and the address's octets. Its
/// documentation reads an address in dot-decimal notation: four decimal
/// octets divided by `.`, with octal (a leading `0`) and hexadecimal refused.
/// Claimed: an address exactly for such a text, with the octets it writes.
#[verifier::external_body]
fn parse_ipv4(text: &str) -> (r: Option<[u8; 4]>)
    ensures
        r is None <==> dotted_octets(text@, 4) is None,
        r matches Some(a) ==> dotted_octets(text@, 4) == Some(a@),
{
    match text.parse::<core::net::Ipv4Addr>() {
        Ok(ip) => Some(ip.octets()),
        Err(_) => None,
    }
}

/// What the status query of a subcommand prints.
#[derive(Clone, Copy, PartialEq, Eq, Structural, Debug)]
pub enum WifiQuery {
    Status,
    Ip,
    Gateway,
    ScanResults,
}

/// What `wifi` does.
pub enum WifiCliPlan {
    Print(Vec<String>),
    /// Queue the command, then print the line.
    Send { cmd: WifiCommand, reply: String },
    Query(WifiQuery),
    /// Ping the address and print the outcome.
    Ping { ip: [u8; 4] },
    /// Clear the saved credentials and print the outcome.
    Clear,
}

pub enum WifiPlanSpec {
    Print(Seq<Seq<char>>),
    Send(WifiCommandView, Seq<char>),
    Query(WifiQuery),
    Ping(Seq<u8>),
    Clear,
}

pub open spec fn wifi_plan_view(p: WifiCliPlan) -> WifiPlanSpec {
    match p {
        WifiCliPlan::Print(v) => WifiPlanSpec::Print(string_views(v@)),
        WifiCliPlan::Send { cmd, reply } => WifiPlanSpec::Send(wifi_command_view(cmd), reply@),
        WifiCliPlan::Query(q) => WifiPlanSpec::Query(q),
        WifiCliPlan::Ping { ip } => WifiPlanSpec::Ping(ip@),
        WifiCliPlan::Clear => WifiPlanSpec::Clear,
    }
}

pub open spec fn wifi_usage() -> Seq<char> {
    "Usage: wifi <save|connect|connect-saved|reconnect|disconnect|status|ip|gateway|scan|scan-results|ping|clear>"@
}

/// The SSID and passphrase of `wifi save` or `wifi connect`, or the message
/// that refuses them; an omitted passphrase is empty (an open network).
pub open spec fn ssid_pass_spec(a: Seq<Seq<char>>) -> Result<(Seq<char>, Seq<char>), Seq<char>> {
    if a.len() != 3 && a.len() != 4 {
        Err("Usage: wifi <save|connect> <ssid> <passphrase>"@)
    } else if byte_len(a[2]) > WIFI_SSID_MAX_LEN {
        Err("SSID too long (max 32 bytes)"@)
    } else if a.len() == 4 && byte_len(a[3]) > WIFI_PASS_MAX_LEN {
        Err("Passphrase too long (max 64 bytes)"@)
    } else {
        Ok((a[2], if a.len() == 4 { a[3] } else { Seq::empty() }))
    }
}

pub fn parse_ssid_pass(args: &Vec<String>) -> (r: Result<(String, String), &'static str>)
    ensures
        match ssid_pass_spec(string_views(args@)) {
            Ok((s, p)) => r matches Ok((x, y)) && x@ == s && y@ == p,
            Err(m) => r matches Err(e) && e@ == m,
        },
{
    let ghost a = string_views(args@);
    let n = args.len();
    if n != 3 && n != 4 {
        return Err("Usage: wifi <save|connect> <ssid> <passphrase>");
    }
    assert(a[2] == args@[2]@);
    if string_byte_len(&args[2]) > WIFI_SSID_MAX_LEN {
        return Err("SSID too long (max 32 bytes)");
    }
    if n == 4 {
        assert(a[3] == args@[3]@);
        if string_byte_len(&args[3]) > WIFI_PASS_MAX_LEN {
            return Err("Passphrase too long (max 64 bytes)");
        }
        Ok((args[2].clone(), args[3].clone()))
    } else {
        Ok((args[2].clone(), String::new()))
    }
}

/// The plan of `wifi ...`; `ready` tells whether the Wi-Fi task is running.
pub open spec fn wifi_plan_spec(a: Seq<Seq<char>>, ready: bool) -> WifiPlanSpec {
    if a.len() < 2 {
        WifiPlanSpec::Print(seq![wifi_usage()])
    } else if !ready {
        WifiPlanSpec::Print(seq!["wifi: subsystem not initialized"@])
    } else if a[1] == "save"@ {
        match ssid_pass_spec(a) {
            Ok((s, p)) => WifiPlanSpec::Send(WifiCommandView::SaveDefault(s, p), "wifi: saved default credentials"@),
            Err(m) => WifiPlanSpec::Print(seq![m]),
        }
    } else if a[1] == "connect-saved"@ {
        WifiPlanSpec::Send(WifiCommandView::ConnectSaved, "wifi: connect request sent"@)
    } else if a[1] == "connect"@ {
        match ssid_pass_spec(a) {
            Ok((s, p)) => WifiPlanSpec::Send(WifiCommandView::Connect(s, p), "wifi: connect request sent"@),
            Err(m) => WifiPlanSpec::Print(seq![m]),
        }
    } else if a[1] == "reconnect"@ {
        WifiPlanSpec::Send(WifiCommandView::Reconnect, "wifi: reconnect request sent"@)
    } else if a[1] == "disconnect"@ {
        WifiPlanSpec::Send(WifiCommandView::Disconnect, "wifi: disconnect request sent"@)
    } else if a[1] == "status"@ {
        WifiPlanSpec::Query(WifiQuery::Status)
    } else if a[1] == "ip"@ {
        WifiPlanSpec::Query(WifiQuery::Ip)
    } else if a[1] == "gateway"@ {
        WifiPlanSpec::Query(WifiQuery::Gateway)
    } else if a[1] == "scan"@ {
        WifiPlanSpec::Send(WifiCommandView::Scan, "wifi: scan started"@)
    } else if a[1] == "scan-results"@ {
        WifiPlanSpec::Query(WifiQuery::ScanResults)
    } else if a[1] == "ping"@ {
        if a.len() < 3 {
            WifiPlanSpec::Print(seq!["Usage: wifi ping <ipv4>"@])
        } else {
            match dotted_octets(a[2], 4) {
                Some(ip) => WifiPlanSpec::Ping(ip),
                None => WifiPlanSpec::Print(seq!["Invalid IPv4 address"@]),
            }
        }
    } else if a[1] == "clear"@ {
        WifiPlanSpec::Clear
    } else {
        WifiPlanSpec::Print(seq![wifi_usage()])
    }
}

fn send(cmd: WifiCommand, reply: &str) -> (p: WifiCliPlan)
    ensures
        wifi_plan_view(p) == WifiPlanSpec::Send(wifi_command_view(cmd), reply@),
{
    WifiCliPlan::Send { cmd, reply: string_of(reply) }
}

fn refused(m: &str) -> (p: WifiCliPlan)
    ensures
        wifi_plan_view(p) == WifiPlanSpec::Print(seq![m@]),
{
    WifiCliPlan::Print(line1(m))
}

pub struct WifiCommandHandler;

impl WifiCommandHandler {
    pub fn plan(&self, args: &Vec<String>, ready: bool) -> (p: WifiCliPlan)
        ensures
            wifi_plan_view(p) == wifi_plan_spec(string_views(args@), ready),
    {
        let ghost a = string_views(args@);
        let n = args.len();
        if n < 2 {
            return refused(
                "Usage: wifi <save|connect|connect-saved|reconnect|disconnect|status|ip|gateway|scan|scan-results|ping|clear>",
            );
        }
        if !ready {
            return refused("wifi: subsystem not initialized");
        }
        let sub = &args[1];
        assert(a[1] == sub@);
        if is_text(sub, "save") {
            match parse_ssid_pass(args) {
                Ok((ssid, passphrase)) => send(
                    WifiCommand::SaveDefault { ssid, passphrase },
                    "wifi: saved default credentials",
                ),
                Err(m) => refused(m),
            }
        } else if is_text(sub, "connect-saved") {
            send(WifiCommand::ConnectSaved, "wifi: connect request sent")
        } else if is_text(sub, "connect") {
            match parse_ssid_pass(args) {
                Ok((ssid, passphrase)) => send(WifiCommand::Connect { ssid, passphrase }, "wifi: connect request sent"),
                Err(m) => refused(m),
            }
        } else if is_text(sub, "reconnect") {
            send(WifiCommand::Reconnect, "wifi: reconnect request sent")
        } else if is_text(sub, "disconnect") {
            send(WifiCommand::Disconnect, "wifi: disconnect request sent")
        } else if is_text(sub, "status") {
            WifiCliPlan::Query(WifiQuery::Status)
        } else if is_text(sub, "ip") {
            WifiCliPlan::Query(WifiQuery::Ip)
        } else if is_text(sub, "gateway") {
            WifiCliPlan::Query(WifiQuery::Gateway)
        } else if is_text(sub, "scan") {
            send(WifiCommand::Scan, "wifi: scan started")
        } else if is_text(sub, "scan-results") {
            WifiCliPlan::Query(WifiQuery::ScanResults)
        } else if is_text(sub, "ping") {
            if n < 3 {
                refused("Usage: wifi ping <ipv4>")
            } else {
                assert(a[2] == args@[2]@);
                match parse_ipv4(args[2].as_str()) {
                    Some(ip) => WifiCliPlan::Ping { ip },
                    None => refused("Invalid IPv4 address"),
                }
            }
        } else if is_text(sub, "clear") {
            WifiCliPlan::Clear
        } else {
            refused(
                "Usage: wifi <save|connect|connect-saved|reconnect|disconnect|status|ip|gateway|scan|scan-results|ping|clear>",
            )
        }
    }
}

/// The line after `wifi clear`, given whether clearing succeeded.
pub fn clear_line(cleared: bool) -> (s: String)
    ensures
        s@ == if cleared { "wifi: cleared saved credentials"@ } else { "wifi: failed to clear credentials"@ },
{
    if cleared {
        string_of("wifi: cleared saved credentials")
    } else {
        string_of("wifi: failed to clear credentials")
    }
}

/// The subcommand word of each command the Wi-Fi task is asked for.
pub open spec fn command_word(c: WifiCommandView) -> Seq<char> {
    match c {
        WifiCommandView::SaveDefault(_, _) => "save"@,
        WifiCommandView::ClearCredentials => "clear"@,
        WifiCommandView::ConnectSaved => "connect-saved"@,
        WifiCommandView::Connect(_, _) => "connect"@,
        WifiCommandView::Reconnect => "reconnect"@,
        WifiCommandView::Disconnect => "disconnect"@,
        WifiCommandView::Scan => "scan"@,
        WifiCommandView::Ping(_) => "ping"@,
    }
}

/// Each subcommand sends the command of its own name, and nothing is sent
/// while the Wi-Fi task is not running. A save or connect sends the SSID and
/// passphrase it was given.
pub proof fn law_wifi_command_words(a: Seq<Seq<char>>, ready: bool)
    ensures
        wifi_plan_spec(a, ready) matches WifiPlanSpec::Send(c, _) ==> ready && a.len() >= 2 && command_word(c)
            == a[1],
        wifi_plan_spec(a, ready) matches WifiPlanSpec::Send(WifiCommandView::SaveDefault(s, p), _) ==> s == a[2]
            && p == (if a.len() == 4 { a[3] } else { Seq::empty() }),
        wifi_plan_spec(a, ready) matches WifiPlanSpec::Send(WifiCommandView::Connect(s, p), _) ==> s == a[2] && p
            == (if a.len() == 4 { a[3] } else { Seq::empty() }),
        !ready ==> !(wifi_plan_spec(a, ready) is Send),
{
}

} // verus!
