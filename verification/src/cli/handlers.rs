//! What the built-in commands do with their arguments. Each handler turns the
//! arguments of its command line into a plan: lines to print, a request for
//! one of the firmware's tasks with the line that acknowledges it, or a report
//! to print from a task's status.

use vstd::prelude::*;
use vstd::string::StringSliceAdditionalSpecFns;
use vstd::utf8::encode_utf8;
use crate::cli::args::string_views;
use crate::text::{decimal_chars, push_text, signed_decimal_chars, signed_decimal_string, str_equal, string_of};

verus! {

/// The byte length of a text's UTF-8.
pub open spec fn byte_len(t: Seq<char>) -> nat {
    encode_utf8(t).len()
}

pub fn string_byte_len(s: &String) -> (n: usize)
    ensures
        n == byte_len(s@),
{
    s.as_str().as_bytes().len()
}

/// Whether a string holds exactly a given text.
pub fn is_text(s: &String, t: &str) -> (r: bool)
    ensures
        r == (s@ == t@),
{
    str_equal(s.as_str(), t)
}

/// A single line.
pub fn line1(a: &str) -> (v: Vec<String>)
    ensures
        string_views(v@) == seq![a@],
{
    let v = vec![string_of(a)];
    proof {
        assert(string_views(v@) =~= seq![a@]);
    }
    v
}

/// Two lines.
pub fn line2(a: &str, b: &str) -> (v: Vec<String>)
    ensures
        string_views(v@) == seq![a@, b@],
{
    let v = vec![string_of(a), string_of(b)];
    proof {
        assert(string_views(v@) =~= seq![a@, b@]);
    }
    v
}

fn concat3(a: &str, b: &str, c: &str) -> (s: String)
    ensures
        s@ == a@ + b@ + c@,
{
    let mut s = string_of(a);
    push_text(&mut s, b);
    push_text(&mut s, c);
    s
}

/// "true" or "false", as `{}` prints a `bool`.
pub open spec fn bool_text(b: bool) -> Seq<char> {
    if b { "true"@ } else { "false"@ }
}

pub fn bool_str(b: bool) -> (s: &'static str)
    ensures
        s@ == bool_text(b),
{
    if b { "true" } else { "false" }
}

/// The longest message `echo` repeats, in bytes.
pub const ECHO_MESSAGE_CAP: usize = 128;

/// Words joined by single spaces.
pub open spec fn joined(words: Seq<Seq<char>>) -> Seq<char>
    decreases words.len(),
{
    if words.len() == 0 {
        Seq::empty()
    } else if words.len() == 1 {
        words[0]
    } else {
        joined(words.drop_last()) + " "@ + words.last()
    }
}

/// What `echo` prints: its arguments joined by spaces, unless they make no
/// message or too long a one.
pub open spec fn echo_text(args: Seq<Seq<char>>) -> Seq<char> {
    if args.len() < 2 {
        "Usage: echo <message>"@
    } else if byte_len(joined(args.drop_first())) > ECHO_MESSAGE_CAP {
        "Message too long"@
    } else {
        joined(args.drop_first())
    }
}

pub struct EchoCommand;

impl EchoCommand {
    /// The line `echo` prints.
    pub fn execute(&self, args: &Vec<String>) -> (line: String)
        ensures
            line@ == echo_text(string_views(args@)),
    {
        let ghost a = string_views(args@);
        if args.len() < 2 {
            return string_of("Usage: echo <message>");
        }
        let mut message = String::new();
        let mut i: usize = 1;
        while i < args.len()
            invariant
                a == string_views(args@),
                1 <= i <= args@.len(),
                message@ == joined(a.subrange(1, i as int)),
            decreases args@.len() - i,
        {
            if i > 1 {
                push_text(&mut message, " ");
            }
            push_text(&mut message, args[i].as_str());
            proof {
                let w = a.subrange(1, i + 1);
                assert(w.drop_last() =~= a.subrange(1, i as int));
                if i == 1 {
                    assert(a.subrange(1, 1) =~= Seq::<Seq<char>>::empty());
                    assert(message@ =~= w[0]);
                }
            }
            i = i + 1;
        }
        proof {
            assert(a.subrange(1, args@.len() as int) =~= a.drop_first());
        }
        if string_byte_len(&message) > ECHO_MESSAGE_CAP {
            string_of("Message too long")
        } else {
            message
        }
    }
}

/// What `reboot` does.
pub enum RebootPlan {
    /// Print the line, then reset the chip.
    Reset { notice: String },
    Print(Vec<String>),
}

pub open spec fn reboot_mode(args: Seq<Seq<char>>) -> Seq<char> {
    if args.len() >= 2 { args[1] } else { "normal"@ }
}

pub struct RebootCommand;

impl RebootCommand {
    pub fn plan(&self, args: &Vec<String>) -> (p: RebootPlan)
        ensures
            ({
                let mode = reboot_mode(string_views(args@));
                if mode == "normal"@ {
                    p matches RebootPlan::Reset { notice } && notice@ == "Rebooting now..."@
                } else if mode == "bootloader"@ {
                    p matches RebootPlan::Print(v) && string_views(v@) == seq![
                        "Bootloader mode is not supported via USB Serial/JTAG CLI on ESP32-C3."@,
                        "Use `cargo espflash` for flashing workflows."@,
                    ]
                } else {
                    p matches RebootPlan::Print(v) && string_views(v@) == seq!["Usage: reboot [normal|bootloader]"@]
                }
            }),
    {
        let normal = if args.len() >= 2 { is_text(&args[1], "normal") } else { true };
        let bootloader = args.len() >= 2 && is_text(&args[1], "bootloader");
        proof {
            if args@.len() < 2 {
                assert(reboot_mode(string_views(args@)) == "normal"@);
            } else {
                assert(string_views(args@)[1] == args@[1]@);
            }
        }
        if normal {
            RebootPlan::Reset { notice: string_of("Rebooting now...") }
        } else if bootloader {
            RebootPlan::Print(
                line2(
                    "Bootloader mode is not supported via USB Serial/JTAG CLI on ESP32-C3.",
                    "Use `cargo espflash` for flashing workflows.",
                ),
            )
        } else {
            RebootPlan::Print(line1("Usage: reboot [normal|bootloader]"))
        }
    }
}

/// A request for the motor task that needs no number.
#[derive(Clone, Copy, PartialEq, Eq, Structural, Debug)]
pub enum MotorRequest {
    Home,
    Stop,
    SetDirectionPolarity { high_is_toward_top: bool },
    DirectDrive { ph_high: bool, en_high: bool },
    LoadPidGains,
    ResetPidGains,
    StartTuning,
}

/// A report of the motor's status.
#[derive(Clone, Copy, PartialEq, Eq, Structural, Debug)]
pub enum MotorQuery {
    Direction,
    RawDrive,
    Encoder,
    Status,
    Pid,
    Tuning,
}

/// What `motor` does.
pub enum MotorCliPlan {
    Print(Vec<String>),
    /// Send the request, then print the line.
    Send { request: MotorRequest, reply: String },
    /// Parse the argument as a position and ask to go there.
    Goto { arg: String },
    /// Parse the argument as a velocity and ask to move at it.
    Velocity { arg: String },
    /// Parse the three gains and ask to use them.
    SetPid { kp: String, ki: String, kd: String },
    Query(MotorQuery),
    /// Clear the encoder's diagnostic counters, then print the line.
    ResetEncoderDiagnostics { reply: String },
    /// Zero the raw encoder count, then print the line.
    ZeroEncoder { reply: String },
    /// Start tuning if the motor is homed.
    Autotune,
}

/// The plan of `motor`, over the characters of its texts.
pub enum MotorPlanSpec {
    Print(Seq<Seq<char>>),
    Send(MotorRequest, Seq<char>),
    Goto(Seq<char>),
    Velocity(Seq<char>),
    SetPid(Seq<char>, Seq<char>, Seq<char>),
    Query(MotorQuery),
    ResetEncoderDiagnostics(Seq<char>),
    ZeroEncoder(Seq<char>),
    Autotune,
}

pub open spec fn motor_plan_view(p: MotorCliPlan) -> MotorPlanSpec {
    match p {
        MotorCliPlan::Print(v) => MotorPlanSpec::Print(string_views(v@)),
        MotorCliPlan::Send { request, reply } => MotorPlanSpec::Send(request, reply@),
        MotorCliPlan::Goto { arg } => MotorPlanSpec::Goto(arg@),
        MotorCliPlan::Velocity { arg } => MotorPlanSpec::Velocity(arg@),
        MotorCliPlan::SetPid { kp, ki, kd } => MotorPlanSpec::SetPid(kp@, ki@, kd@),
        MotorCliPlan::Query(q) => MotorPlanSpec::Query(q),
        MotorCliPlan::ResetEncoderDiagnostics { reply } => MotorPlanSpec::ResetEncoderDiagnostics(reply@),
        MotorCliPlan::ZeroEncoder { reply } => MotorPlanSpec::ZeroEncoder(reply@),
        MotorCliPlan::Autotune => MotorPlanSpec::Autotune,
    }
}

pub open spec fn motor_usage() -> Seq<char> {
    "Usage: motor <home|goto|vel|dir|raw|enc|stop|status|pid|autotune|autotune-status>"@
}

pub open spec fn raw_usage() -> Seq<char> {
    "Usage: motor raw <ph:0|1> <en:0|1> | off | status"@
}

/// The plan of `motor dir ...`.
pub open spec fn motor_dir_spec(a: Seq<Seq<char>>) -> MotorPlanSpec {
    if a.len() < 3 {
        MotorPlanSpec::Print(seq!["Usage: motor dir <normal|reversed|status>"@])
    } else if a[2] == "normal"@ {
        MotorPlanSpec::Send(
            MotorRequest::SetDirectionPolarity { high_is_toward_top: true },
            "motor: direction set to normal (PH high => toward top)"@,
        )
    } else if a[2] == "reversed"@ {
        MotorPlanSpec::Send(
            MotorRequest::SetDirectionPolarity { high_is_toward_top: false },
            "motor: direction set to reversed (PH low => toward top)"@,
        )
    } else if a[2] == "status"@ {
        MotorPlanSpec::Query(MotorQuery::Direction)
    } else {
        MotorPlanSpec::Print(seq!["Usage: motor dir <normal|reversed|status>"@])
    }
}

/// The plan of `motor raw ...`.
pub open spec fn motor_raw_spec(a: Seq<Seq<char>>) -> MotorPlanSpec {
    if a.len() < 3 {
        MotorPlanSpec::Print(seq![raw_usage()])
    } else if a[2] == "status"@ {
        MotorPlanSpec::Query(MotorQuery::RawDrive)
    } else if a[2] == "off"@ {
        MotorPlanSpec::Send(MotorRequest::Stop, "motor: raw drive disabled"@)
    } else if a.len() < 4 {
        MotorPlanSpec::Print(seq![raw_usage()])
    } else if a[2] != "0"@ && a[2] != "1"@ {
        MotorPlanSpec::Print(seq!["Invalid ph value: "@ + a[2] + " (use 0 or 1)"@])
    } else if a[3] != "0"@ && a[3] != "1"@ {
        MotorPlanSpec::Print(seq!["Invalid en value: "@ + a[3] + " (use 0 or 1)"@])
    } else {
        MotorPlanSpec::Send(
            MotorRequest::DirectDrive { ph_high: a[2] == "1"@, en_high: a[3] == "1"@ },
            "motor: raw drive set ph="@ + a[2] + " en="@ + a[3],
        )
    }
}

/// The plan of `motor pid ...`.
pub open spec fn motor_pid_spec(a: Seq<Seq<char>>) -> MotorPlanSpec {
    if a.len() < 3 {
        MotorPlanSpec::Print(seq!["Usage: motor pid <status|set|load|reset>"@])
    } else if a[2] == "status"@ {
        MotorPlanSpec::Query(MotorQuery::Pid)
    } else if a[2] == "set"@ {
        if a.len() < 6 {
            MotorPlanSpec::Print(seq!["Usage: motor pid set <kp> <ki> <kd>"@])
        } else {
            MotorPlanSpec::SetPid(a[3], a[4], a[5])
        }
    } else if a[2] == "load"@ {
        MotorPlanSpec::Send(MotorRequest::LoadPidGains, "motor pid: reload requested"@)
    } else if a[2] == "reset"@ {
        MotorPlanSpec::Send(MotorRequest::ResetPidGains, "motor pid: reset requested (defaults restored)"@)
    } else {
        MotorPlanSpec::Print(seq!["Usage: motor pid <status|set|load|reset>"@])
    }
}

/// The plan of `motor ...`.
pub open spec fn motor_plan_spec(a: Seq<Seq<char>>) -> MotorPlanSpec {
    if a.len() < 2 {
        MotorPlanSpec::Print(seq![motor_usage()])
    } else if a[1] == "home"@ {
        MotorPlanSpec::Send(MotorRequest::Home, "motor: homing requested"@)
    } else if a[1] == "goto"@ {
        if a.len() < 3 {
            MotorPlanSpec::Print(seq!["Usage: motor goto <position_pct>"@])
        } else {
            MotorPlanSpec::Goto(a[2])
        }
    } else if a[1] == "vel"@ {
        if a.len() < 3 {
            MotorPlanSpec::Print(seq!["Usage: motor vel <pct_per_sec>"@])
        } else {
            MotorPlanSpec::Velocity(a[2])
        }
    } else if a[1] == "dir"@ {
        motor_dir_spec(a)
    } else if a[1] == "raw"@ {
        motor_raw_spec(a)
    } else if a[1] == "enc"@ {
        if a.len() >= 3 && a[2] == "reset"@ {
            MotorPlanSpec::ResetEncoderDiagnostics("motor: encoder diagnostics reset"@)
        } else if a.len() >= 3 && a[2] == "zero"@ {
            MotorPlanSpec::ZeroEncoder("motor: raw encoder count zeroed"@)
        } else {
            MotorPlanSpec::Query(MotorQuery::Encoder)
        }
    } else if a[1] == "stop"@ {
        MotorPlanSpec::Send(MotorRequest::Stop, "motor: stop requested"@)
    } else if a[1] == "status"@ {
        MotorPlanSpec::Query(MotorQuery::Status)
    } else if a[1] == "pid"@ {
        motor_pid_spec(a)
    } else if a[1] == "autotune"@ {
        if a.len() >= 3 && a[2] == "status"@ {
            MotorPlanSpec::Query(MotorQuery::Tuning)
        } else {
            MotorPlanSpec::Autotune
        }
    } else if a[1] == "autotune-status"@ {
        MotorPlanSpec::Query(MotorQuery::Tuning)
    } else {
        MotorPlanSpec::Print(seq![motor_usage()])
    }
}

/// What `motor autotune` prints around its request, and whether it makes it.
pub struct AutotunePlan {
    pub before: Vec<String>,
    pub start: bool,
    pub after: Vec<String>,
}

pub struct MotorCommandHandler;

impl MotorCommandHandler {
    pub fn plan(&self, args: &Vec<String>) -> (p: MotorCliPlan)
        ensures
            motor_plan_view(p) == motor_plan_spec(string_views(args@)),
    {
        let ghost a = string_views(args@);
        let n = args.len();
        if n < 2 {
            return MotorCliPlan::Print(line1(
                "Usage: motor <home|goto|vel|dir|raw|enc|stop|status|pid|autotune|autotune-status>",
            ));
        }
        let sub = &args[1];
        assert(a[1] == sub@);
        if is_text(sub, "home") {
            MotorCliPlan::Send { request: MotorRequest::Home, reply: string_of("motor: homing requested") }
        } else if is_text(sub, "goto") {
            if n < 3 {
                MotorCliPlan::Print(line1("Usage: motor goto <position_pct>"))
            } else {
                assert(a[2] == args@[2]@);
                MotorCliPlan::Goto { arg: args[2].clone() }
            }
        } else if is_text(sub, "vel") {
            if n < 3 {
                MotorCliPlan::Print(line1("Usage: motor vel <pct_per_sec>"))
            } else {
                assert(a[2] == args@[2]@);
                MotorCliPlan::Velocity { arg: args[2].clone() }
            }
        } else if is_text(sub, "dir") {
            Self::plan_dir(args)
        } else if is_text(sub, "raw") {
            Self::plan_raw(args)
        } else if is_text(sub, "enc") {
            if n >= 3 {
                assert(a[2] == args@[2]@);
            }
            if n >= 3 && is_text(&args[2], "reset") {
                MotorCliPlan::ResetEncoderDiagnostics { reply: string_of("motor: encoder diagnostics reset") }
            } else if n >= 3 && is_text(&args[2], "zero") {
                MotorCliPlan::ZeroEncoder { reply: string_of("motor: raw encoder count zeroed") }
            } else {
                MotorCliPlan::Query(MotorQuery::Encoder)
            }
        } else if is_text(sub, "stop") {
            MotorCliPlan::Send { request: MotorRequest::Stop, reply: string_of("motor: stop requested") }
        } else if is_text(sub, "status") {
            MotorCliPlan::Query(MotorQuery::Status)
        } else if is_text(sub, "pid") {
            Self::plan_pid(args)
        } else if is_text(sub, "autotune") {
            if n >= 3 {
                assert(a[2] == args@[2]@);
            }
            if n >= 3 && is_text(&args[2], "status") {
                MotorCliPlan::Query(MotorQuery::Tuning)
            } else {
                MotorCliPlan::Autotune
            }
        } else if is_text(sub, "autotune-status") {
            MotorCliPlan::Query(MotorQuery::Tuning)
        } else {
            MotorCliPlan::Print(line1(
                "Usage: motor <home|goto|vel|dir|raw|enc|stop|status|pid|autotune|autotune-status>",
            ))
        }
    }

    fn plan_dir(args: &Vec<String>) -> (p: MotorCliPlan)
        requires
            args@.len() >= 2,
        ensures
            motor_plan_view(p) == motor_dir_spec(string_views(args@)),
    {
        let ghost a = string_views(args@);
        if args.len() < 3 {
            return MotorCliPlan::Print(line1("Usage: motor dir <normal|reversed|status>"));
        }
        let v = &args[2];
        assert(a[2] == v@);
        if is_text(v, "normal") {
            MotorCliPlan::Send {
                request: MotorRequest::SetDirectionPolarity { high_is_toward_top: true },
                reply: string_of("motor: direction set to normal (PH high => toward top)"),
            }
        } else if is_text(v, "reversed") {
            MotorCliPlan::Send {
                request: MotorRequest::SetDirectionPolarity { high_is_toward_top: false },
                reply: string_of("motor: direction set to reversed (PH low => toward top)"),
            }
        } else if is_text(v, "status") {
            MotorCliPlan::Query(MotorQuery::Direction)
        } else {
            MotorCliPlan::Print(line1("Usage: motor dir <normal|reversed|status>"))
        }
    }

    fn plan_raw(args: &Vec<String>) -> (p: MotorCliPlan)
        requires
            args@.len() >= 2,
        ensures
            motor_plan_view(p) == motor_raw_spec(string_views(args@)),
    {
        let ghost a = string_views(args@);
        if args.len() < 3 {
            return MotorCliPlan::Print(line1("Usage: motor raw <ph:0|1> <en:0|1> | off | status"));
        }
        let ph = &args[2];
        assert(a[2] == ph@);
        if is_text(ph, "status") {
            return MotorCliPlan::Query(MotorQuery::RawDrive);
        }
        if is_text(ph, "off") {
            return MotorCliPlan::Send { request: MotorRequest::Stop, reply: string_of("motor: raw drive disabled") };
        }
        if args.len() < 4 {
            return MotorCliPlan::Print(line1("Usage: motor raw <ph:0|1> <en:0|1> | off | status"));
        }
        let en = &args[3];
        assert(a[3] == en@);
        let ph_high = is_text(ph, "1");
        if !ph_high && !is_text(ph, "0") {
            let v = vec![concat3("Invalid ph value: ", ph.as_str(), " (use 0 or 1)")];
            proof {
                assert(string_views(v@) =~= seq!["Invalid ph value: "@ + a[2] + " (use 0 or 1)"@]);
            }
            return MotorCliPlan::Print(v);
        }
        let en_high = is_text(en, "1");
        if !en_high && !is_text(en, "0") {
            let v = vec![concat3("Invalid en value: ", en.as_str(), " (use 0 or 1)")];
            proof {
                assert(string_views(v@) =~= seq!["Invalid en value: "@ + a[3] + " (use 0 or 1)"@]);
            }
            return MotorCliPlan::Print(v);
        }
        let mut reply = concat3("motor: raw drive set ph=", ph.as_str(), " en=");
        push_text(&mut reply, en.as_str());
        MotorCliPlan::Send { request: MotorRequest::DirectDrive { ph_high, en_high }, reply }
    }

    fn plan_pid(args: &Vec<String>) -> (p: MotorCliPlan)
        requires
            args@.len() >= 2,
        ensures
            motor_plan_view(p) == motor_pid_spec(string_views(args@)),
    {
        let ghost a = string_views(args@);
        if args.len() < 3 {
            return MotorCliPlan::Print(line1("Usage: motor pid <status|set|load|reset>"));
        }
        let v = &args[2];
        assert(a[2] == v@);
        if is_text(v, "status") {
            MotorCliPlan::Query(MotorQuery::Pid)
        } else if is_text(v, "set") {
            if args.len() < 6 {
                MotorCliPlan::Print(line1("Usage: motor pid set <kp> <ki> <kd>"))
            } else {
                assert(a[3] == args@[3]@ && a[4] == args@[4]@ && a[5] == args@[5]@);
                MotorCliPlan::SetPid { kp: args[3].clone(), ki: args[4].clone(), kd: args[5].clone() }
            }
        } else if is_text(v, "load") {
            MotorCliPlan::Send { request: MotorRequest::LoadPidGains, reply: string_of("motor pid: reload requested") }
        } else if is_text(v, "reset") {
            MotorCliPlan::Send {
                request: MotorRequest::ResetPidGains,
                reply: string_of("motor pid: reset requested (defaults restored)"),
            }
        } else {
            MotorCliPlan::Print(line1("Usage: motor pid <status|set|load|reset>"))
        }
    }

    /// What `motor autotune` prints, given whether the motor is homed; it
    /// starts tuning only then.
    pub fn autotune(&self, is_homed: bool) -> (p: AutotunePlan)
        ensures
            p.start == is_homed,
            !is_homed ==> string_views(p.before@) == seq!["motor autotune: Motor must be homed first"@]
                && p.after@.len() == 0,
            is_homed ==> string_views(p.before@) == seq![
                "motor autotune: Starting PID auto-tuning..."@,
                "motor autotune: DO NOT INTERRUPT - Let the motor oscillate for ~2 seconds"@,
            ] && string_views(p.after@) == seq!["motor autotune: Tuning started"@],
    {
        if !is_homed {
            let after: Vec<String> = Vec::new();
            proof {
                assert(after@.len() == 0);
            }
            AutotunePlan { before: line1("motor autotune: Motor must be homed first"), start: false, after }
        } else {
            AutotunePlan {
                before: line2(
                    "motor autotune: Starting PID auto-tuning...",
                    "motor autotune: DO NOT INTERRUPT - Let the motor oscillate for ~2 seconds",
                ),
                start: true,
                after: line1("motor autotune: Tuning started"),
            }
        }
    }
}

/// The wiring's polarity as the status names it.
pub open spec fn direction_mapping_text(high_is_toward_top: bool) -> Seq<char> {
    if high_is_toward_top { "normal (PH high => top)"@ } else { "reversed (PH low => top)"@ }
}

pub fn direction_mapping_str(high_is_toward_top: bool) -> (s: &'static str)
    ensures
        s@ == direction_mapping_text(high_is_toward_top),
{
    if high_is_toward_top { "normal (PH high => top)" } else { "reversed (PH low => top)" }
}

/// The line of `motor dir status`.
pub fn direction_line(high_is_toward_top: bool) -> (s: String)
    ensures
        s@ == "motor: direction mapping is "@ + direction_mapping_text(high_is_toward_top),
{
    let mut s = string_of("motor: direction mapping is ");
    push_text(&mut s, direction_mapping_str(high_is_toward_top));
    s
}

fn labeled(label: &str, value: &str) -> (s: String)
    ensures
        s@ == label@ + value@,
{
    let mut s = string_of(label);
    push_text(&mut s, value);
    s
}

fn labeled_int(label: &str, n: i32) -> (s: String)
    ensures
        s@ == label@ + signed_decimal_chars(n as int),
{
    let d = signed_decimal_string(n as i64);
    labeled(label, d.as_str())
}

/// The lines of `motor raw status`.
pub fn raw_drive_lines(raw_mode: bool, ph_high: bool, en_high: bool) -> (v: Vec<String>)
    ensures
        string_views(v@) == seq![
            "raw_mode: "@ + bool_text(raw_mode),
            "raw_ph_high: "@ + bool_text(ph_high),
            "raw_en_high: "@ + bool_text(en_high),
        ],
{
    let v = vec![
        labeled("raw_mode: ", bool_str(raw_mode)),
        labeled("raw_ph_high: ", bool_str(ph_high)),
        labeled("raw_en_high: ", bool_str(en_high)),
    ];
    proof {
        assert(string_views(v@) =~= seq![
            "raw_mode: "@ + bool_text(raw_mode),
            "raw_ph_high: "@ + bool_text(ph_high),
            "raw_en_high: "@ + bool_text(en_high),
        ]);
    }
    v
}

/// What `motor enc` reports.
pub struct EncoderReport {
    pub raw_count: i32,
    pub logical_count: i32,
    pub position_clamped_to_limit: bool,
    pub a_high: bool,
    pub b_high: bool,
    pub transitions: i32,
    pub valid_pos_steps: i32,
    pub valid_neg_steps: i32,
    pub invalid_transitions: i32,
}

pub open spec fn encoder_text(r: EncoderReport) -> Seq<Seq<char>> {
    seq![
        "raw_encoder_count: "@ + signed_decimal_chars(r.raw_count as int),
        "logical_encoder_count: "@ + signed_decimal_chars(r.logical_count as int),
        "position_clamped_to_limit: "@ + bool_text(r.position_clamped_to_limit),
        "encoder_a_high: "@ + bool_text(r.a_high),
        "encoder_b_high: "@ + bool_text(r.b_high),
        "encoder_transitions: "@ + signed_decimal_chars(r.transitions as int),
        "encoder_valid_pos_steps: "@ + signed_decimal_chars(r.valid_pos_steps as int),
        "encoder_valid_neg_steps: "@ + signed_decimal_chars(r.valid_neg_steps as int),
        "encoder_invalid_transitions: "@ + signed_decimal_chars(r.invalid_transitions as int),
    ]
}

/// The lines of `motor enc`.
pub fn encoder_lines(r: &EncoderReport) -> (v: Vec<String>)
    ensures
        string_views(v@) == encoder_text(*r),
{
    let v = vec![
        labeled_int("raw_encoder_count: ", r.raw_count),
        labeled_int("logical_encoder_count: ", r.logical_count),
        labeled("position_clamped_to_limit: ", bool_str(r.position_clamped_to_limit)),
        labeled("encoder_a_high: ", bool_str(r.a_high)),
        labeled("encoder_b_high: ", bool_str(r.b_high)),
        labeled_int("encoder_transitions: ", r.transitions),
        labeled_int("encoder_valid_pos_steps: ", r.valid_pos_steps),
        labeled_int("encoder_valid_neg_steps: ", r.valid_neg_steps),
        labeled_int("encoder_invalid_transitions: ", r.invalid_transitions),
    ];
    proof {
        assert(string_views(v@) =~= encoder_text(*r));
    }
    v
}

/// `motor dir normal` and `motor dir reversed` ask for the polarity that the
/// direction report then names with the same word: normal drives toward the
/// top with PH high, reversed with PH low. So the two ask for opposite
/// polarities.
pub proof fn law_direction_words(a: Seq<Seq<char>>)
    requires
        a.len() >= 3,
        a[1] == "dir"@,
        a[2] == "normal"@ || a[2] == "reversed"@,
    ensures
        motor_plan_spec(a) matches MotorPlanSpec::Send(MotorRequest::SetDirectionPolarity { high_is_toward_top }, _)
            && direction_mapping_text(high_is_toward_top).take(a[2].len() as int) == a[2]
            && (high_is_toward_top <==> a[2] == "normal"@),
{
    reveal_strlit("dir");
    reveal_strlit("home");
    reveal_strlit("goto");
    reveal_strlit("vel");
    reveal_strlit("normal");
    reveal_strlit("reversed");
    reveal_strlit("normal (PH high => top)");
    reveal_strlit("reversed (PH low => top)");
    assert("dir"@.len() == 3 && "home"@.len() == 4 && "goto"@.len() == 4);
    assert("dir"@[0] == 'd' && "vel"@[0] == 'v');
    assert(a[1] != "home"@);
    assert(a[1] != "goto"@);
    assert(a[1] != "vel"@);
    assert("normal"@ != "reversed"@);
    assert("normal (PH high => top)"@.take(6) =~= "normal"@);
    assert("reversed (PH low => top)"@.take(8) =~= "reversed"@);
}

/// Every request `motor` sends is the one its subcommand names: `home`
/// homes, `stop` or `raw off` stops, `dir` sets the polarity, `raw <ph> <en>`
/// drives the two pins high exactly where it says `1`, `pid load` and
/// `pid reset` reload or reset the gains; and the goto, velocity and gain
/// values handed on are the arguments as given.
pub proof fn law_motor_requests_named(a: Seq<Seq<char>>)
    ensures
        motor_plan_spec(a) matches MotorPlanSpec::Send(req, _) ==> a.len() >= 2 && match req {
            MotorRequest::Home => a[1] == "home"@,
            MotorRequest::Stop => a[1] == "stop"@ || (a[1] == "raw"@ && a.len() >= 3 && a[2] == "off"@),
            MotorRequest::SetDirectionPolarity { .. } => a[1] == "dir"@,
            MotorRequest::DirectDrive { ph_high, en_high } => a[1] == "raw"@ && a.len() >= 4 && (ph_high <==> a[2]
                == "1"@) && (en_high <==> a[3] == "1"@) && (a[2] == "0"@ || a[2] == "1"@) && (a[3] == "0"@ || a[3]
                == "1"@),
            MotorRequest::LoadPidGains => a[1] == "pid"@ && a.len() >= 3 && a[2] == "load"@,
            MotorRequest::ResetPidGains => a[1] == "pid"@ && a.len() >= 3 && a[2] == "reset"@,
            MotorRequest::StartTuning => false,
        },
        motor_plan_spec(a) matches MotorPlanSpec::Goto(x) ==> a.len() >= 3 && a[1] == "goto"@ && x == a[2],
        motor_plan_spec(a) matches MotorPlanSpec::Velocity(x) ==> a.len() >= 3 && a[1] == "vel"@ && x == a[2],
        motor_plan_spec(a) matches MotorPlanSpec::SetPid(kp, ki, kd) ==> a.len() >= 6 && a[1] == "pid"@ && a[2]
            == "set"@ && kp == a[3] && ki == a[4] && kd == a[5],
{
}

} // verus!
