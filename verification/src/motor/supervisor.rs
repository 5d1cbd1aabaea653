//! The motor's discrete control state: homing against the two limit switches,
//! the commands that switch between holding, homing, position and velocity
//! moves and raw drive, and the guard that never drives into an active limit.
//! The continuous part (PID, relay tuning, duty cycles) works on what this
//! state machine decides and reports back the outcomes it reaches.

use vstd::prelude::*;

verus! {

/// The fewest encoder counts a full stroke may measure for homing to succeed.
pub const MIN_VALID_COUNTS_PER_STROKE: i32 = 20;

#[derive(Clone, Copy, PartialEq, Eq, Structural, Debug)]
pub enum MotorState {
    Idle,
    Homing,
    MovingToPosition,
    MovingAtVelocity,
    RawDrive,
    Fault,
}

#[derive(Clone, Copy, PartialEq, Eq, Structural, Debug)]
pub enum HomingPhase {
    SeekBottom,
    SeekTop,
    ReturnBottom,
}

#[derive(Clone, Copy, PartialEq, Eq, Structural, Debug)]
pub enum AutotunePhase {
    Idle,
    Centering,
    Relay,
}

#[derive(Clone, Copy, PartialEq, Eq, Structural, Debug)]
pub enum TuningState {
    Idle,
    FindingAmplitude,
    MeasuringPeriod,
    Complete,
    Failed,
}

/// A direction of travel; "toward top" is the positive direction.
#[derive(Clone, Copy, PartialEq, Eq, Structural, Debug)]
pub enum MotionDirection {
    TowardBottom,
    TowardTop,
}

#[derive(Clone, Copy, PartialEq, Eq, Structural, Debug)]
pub enum FaultCode {
    NotHomed,
    EncoderNotCounting,
    PidNvsSaveFailed,
    PidNvsLoadFailed,
    PidNvsClearFailed,
    CannotTuneNotHomedOrIdle,
}

pub open spec fn fault_text(f: FaultCode) -> Seq<char> {
    match f {
        FaultCode::NotHomed => "not_homed"@,
        FaultCode::EncoderNotCounting => "encoder_not_counting"@,
        FaultCode::PidNvsSaveFailed => "pid_nvs_save_failed"@,
        FaultCode::PidNvsLoadFailed => "pid_nvs_load_failed"@,
        FaultCode::PidNvsClearFailed => "pid_nvs_clear_failed"@,
        FaultCode::CannotTuneNotHomedOrIdle => "cannot_tune_not_homed_or_idle"@,
    }
}

impl FaultCode {
    /// The code as the status reports it.
    pub fn as_str(&self) -> (s: &'static str)
        ensures
            s@ == fault_text(*self),
    {
        match self {
            FaultCode::NotHomed => "not_homed",
            FaultCode::EncoderNotCounting => "encoder_not_counting",
            FaultCode::PidNvsSaveFailed => "pid_nvs_save_failed",
            FaultCode::PidNvsLoadFailed => "pid_nvs_load_failed",
            FaultCode::PidNvsClearFailed => "pid_nvs_clear_failed",
            FaultCode::CannotTuneNotHomedOrIdle => "cannot_tune_not_homed_or_idle",
        }
    }
}

/// Whether a limit switch is pressed, given its pin level.
pub fn limit_active(pin_high: bool, active_low: bool) -> (r: bool)
    ensures
        r == (if active_low { !pin_high } else { pin_high }),
{
    if active_low {
        !pin_high
    } else {
        pin_high
    }
}

/// The position count that the status reports: once homed, a pressed bottom
/// switch reads 0 and a pressed top switch reads the full stroke.
pub open spec fn logical_count_spec(
    is_homed: bool,
    at_bottom: bool,
    at_top: bool,
    counts_per_stroke: Option<i32>,
    raw: i32,
) -> i32 {
    if is_homed && at_bottom {
        0
    } else if is_homed && at_top {
        match counts_per_stroke {
            Some(n) => n,
            None => raw,
        }
    } else {
        raw
    }
}

pub fn logical_encoder_count(
    is_homed: bool,
    at_bottom: bool,
    at_top: bool,
    counts_per_stroke: Option<i32>,
    raw: i32,
) -> (n: i32)
    ensures
        n == logical_count_spec(is_homed, at_bottom, at_top, counts_per_stroke, raw),
{
    if is_homed {
        if at_bottom {
            0
        } else if at_top {
            match counts_per_stroke {
                Some(n) => n,
                None => raw,
            }
        } else {
            raw
        }
    } else {
        raw
    }
}

/// Whether the reported position is pinned to a limit rather than counted.
pub fn position_clamped_to_limit(
    is_homed: bool,
    at_bottom: bool,
    at_top: bool,
    counts_per_stroke: Option<i32>,
) -> (r: bool)
    ensures
        r == (is_homed && (at_bottom || (at_top && counts_per_stroke is Some))),
{
    is_homed && (at_bottom || (at_top && counts_per_stroke.is_some()))
}

/// The level of the driver's phase pin that moves the motor toward the top
/// (or the bottom), given the wiring's polarity.
pub fn phase_pin_high(direction_high_is_toward_top: bool, toward_top: bool) -> (r: bool)
    ensures
        r == (direction_high_is_toward_top == toward_top),
{
    if direction_high_is_toward_top {
        toward_top
    } else {
        !toward_top
    }
}

/// What becomes of the target position the continuous control holds.
#[derive(Clone, Copy, PartialEq, Eq, Structural, Debug)]
pub enum TargetAction {
    Keep,
    Clear,
    /// The commanded target, clamped to the stroke.
    SetRequested,
    /// The middle of the stroke.
    SetCenter,
}

/// What becomes of the target velocity the continuous control holds.
#[derive(Clone, Copy, PartialEq, Eq, Structural, Debug)]
pub enum VelocityAction {
    Keep,
    Zero,
    /// The commanded velocity, clamped to the configured maximum.
    SetRequested,
}

/// The side effects of a decision on the continuous control.
#[derive(Clone, Copy, PartialEq, Eq, Structural, Debug)]
pub struct Effect {
    pub target_position: TargetAction,
    pub target_velocity: VelocityAction,
    /// Set the raw encoder count to 0.
    pub zero_count: bool,
    pub reset_pid: bool,
    pub abort_tuner: bool,
    /// Start relay tuning from the current position.
    pub start_tuner: bool,
    /// Set the tuning progress to 0.
    pub reset_progress: bool,
}

pub open spec fn no_effect() -> Effect {
    Effect {
        target_position: TargetAction::Keep,
        target_velocity: VelocityAction::Keep,
        zero_count: false,
        reset_pid: false,
        abort_tuner: false,
        start_tuner: false,
        reset_progress: false,
    }
}

fn nothing() -> (e: Effect)
    ensures
        e == no_effect(),
{
    Effect {
        target_position: TargetAction::Keep,
        target_velocity: VelocityAction::Keep,
        zero_count: false,
        reset_pid: false,
        abort_tuner: false,
        start_tuner: false,
        reset_progress: false,
    }
}

/// A command, with what the continuous side already learned for it: whether
/// storing, loading or clearing the gains succeeded, and whether the position
/// is near an end of the stroke.
#[derive(Clone, Copy, PartialEq, Eq, Structural, Debug)]
pub enum MotorEvent {
    Home,
    Stop,
    SetPosition,
    SetVelocity,
    PidGainsSet { saved: bool },
    PidGainsLoaded { loaded: bool },
    PidGainsReset { cleared: bool },
    SetDirectionPolarity { high_is_toward_top: bool },
    DirectDrive { ph_high: bool, en_high: bool },
    StartTuning { near_end: bool },
    AbortTuning,
}

/// What a control tick does, decided before any continuous control runs.
#[derive(Clone, Copy, PartialEq, Eq, Structural, Debug)]
pub enum TickPlan {
    /// Drive the pins as given, bypassing all control.
    Direct { ph_high: bool, en_high: bool },
    /// Command no motion.
    Hold,
    /// Command no motion and zero the target velocity.
    Halt,
    /// Homing: move as given (`None` holds), zeroing the count first if asked.
    Home { toward: Option<MotionDirection>, zero_count: bool },
    /// Run position control or relay tuning.
    Position,
    /// Move at the target velocity.
    Velocity,
}

/// What position control is to do this tick.
#[derive(Clone, Copy, PartialEq, Eq, Structural, Debug)]
pub enum PositionPlan {
    /// Step the relay tuner.
    Relay,
    /// Run the PID toward the target over a stroke of this many counts.
    Control { counts_per_stroke: i32 },
    /// Command no motion.
    Stopped,
}

/// The outcome of the limit guard.
#[derive(Clone, Copy, PartialEq, Eq, Structural, Debug)]
pub struct Guard {
    /// The motion that may be applied.
    pub motion: Option<MotionDirection>,
    pub zero_target_velocity: bool,
    pub clear_target_position: bool,
}

/// The discrete control state.
#[derive(Clone, Copy, Debug)]
pub struct MotorSupervisor {
    pub state: MotorState,
    pub is_homed: bool,
    pub fault: Option<FaultCode>,
    pub counts_per_stroke: Option<i32>,
    pub homing_phase: Option<HomingPhase>,
    pub direct_drive: Option<(bool, bool)>,
    pub direction_high_is_toward_top: bool,
    pub tuning_state: TuningState,
    pub autotune_phase: AutotunePhase,
    pub raw_mode_enabled: bool,
    pub raw_ph_high: bool,
    pub raw_en_high: bool,
    pub pid_gains_tuned: bool,
    pub target_position_set: bool,
}

impl MotorSupervisor {
    /// A measured stroke is at least the minimum; the motor is homed only with
    /// a measured stroke, and never while homing; the return to the bottom
    /// starts only with a measured stroke.
    pub open spec fn wf(&self) -> bool {
        &&& (self.counts_per_stroke matches Some(n) ==> n >= MIN_VALID_COUNTS_PER_STROKE)
        &&& (self.is_homed ==> self.counts_per_stroke is Some)
        &&& (self.state == MotorState::Homing ==> !self.is_homed)
        &&& (self.homing_phase == Some(HomingPhase::ReturnBottom) ==> self.counts_per_stroke is Some)
    }

    pub fn new(direction_high_is_toward_top: bool, pid_gains_tuned: bool) -> (s: Self)
        ensures
            s.wf(),
            s.state == MotorState::Idle,
            !s.is_homed,
            s.fault is None,
            s.counts_per_stroke is None,
            s.homing_phase is None,
            s.direct_drive is None,
            s.direction_high_is_toward_top == direction_high_is_toward_top,
            s.tuning_state == TuningState::Idle,
            s.autotune_phase == AutotunePhase::Idle,
            !s.raw_mode_enabled,
            !s.raw_ph_high,
            !s.raw_en_high,
            s.pid_gains_tuned == pid_gains_tuned,
            !s.target_position_set,
    {
        MotorSupervisor {
            state: MotorState::Idle,
            is_homed: false,
            fault: None,
            counts_per_stroke: None,
            homing_phase: None,
            direct_drive: None,
            direction_high_is_toward_top,
            tuning_state: TuningState::Idle,
            autotune_phase: AutotunePhase::Idle,
            raw_mode_enabled: false,
            raw_ph_high: false,
            raw_en_high: false,
            pid_gains_tuned,
            target_position_set: false,
        }
    }

    /// Whether relay tuning is running.
    pub open spec fn relay_running(&self) -> bool {
        self.autotune_phase == AutotunePhase::Relay && (self.tuning_state
            == TuningState::FindingAmplitude || self.tuning_state == TuningState::MeasuringPeriod)
    }
}

/// The state after a command; `at_bottom` tells whether the bottom switch is
/// pressed when the command is taken.
pub open spec fn command_state(s: MotorSupervisor, ev: MotorEvent, at_bottom: bool) -> MotorSupervisor {
    match ev {
        MotorEvent::Home => MotorSupervisor {
            state: MotorState::Homing,
            is_homed: false,
            fault: None,
            counts_per_stroke: None,
            direct_drive: None,
            raw_mode_enabled: false,
            target_position_set: false,
            homing_phase: Some(if at_bottom { HomingPhase::SeekTop } else { HomingPhase::SeekBottom }),
            ..s
        },
        MotorEvent::Stop => MotorSupervisor {
            state: MotorState::Idle,
            fault: None,
            homing_phase: None,
            target_position_set: false,
            tuning_state: TuningState::Idle,
            direct_drive: None,
            raw_mode_enabled: false,
            raw_ph_high: false,
            raw_en_high: false,
            ..s
        },
        MotorEvent::SetPosition => if s.counts_per_stroke is Some {
            MotorSupervisor {
                autotune_phase: AutotunePhase::Idle,
                tuning_state: TuningState::Idle,
                state: MotorState::MovingToPosition,
                fault: None,
                direct_drive: None,
                target_position_set: true,
                ..s
            }
        } else {
            MotorSupervisor { fault: Some(FaultCode::NotHomed), ..s }
        },
        MotorEvent::SetVelocity => MotorSupervisor {
            state: MotorState::MovingAtVelocity,
            fault: None,
            homing_phase: None,
            direct_drive: None,
            raw_mode_enabled: false,
            target_position_set: false,
            ..s
        },
        MotorEvent::PidGainsSet { saved } => if saved {
            MotorSupervisor { fault: None, pid_gains_tuned: true, ..s }
        } else {
            MotorSupervisor { fault: Some(FaultCode::PidNvsSaveFailed), ..s }
        },
        MotorEvent::PidGainsLoaded { loaded } => if loaded {
            MotorSupervisor { fault: None, pid_gains_tuned: true, ..s }
        } else {
            MotorSupervisor { fault: Some(FaultCode::PidNvsLoadFailed), ..s }
        },
        MotorEvent::PidGainsReset { cleared } => if cleared {
            MotorSupervisor { fault: None, pid_gains_tuned: false, ..s }
        } else {
            MotorSupervisor { fault: Some(FaultCode::PidNvsClearFailed), ..s }
        },
        MotorEvent::SetDirectionPolarity { high_is_toward_top } => MotorSupervisor {
            direction_high_is_toward_top: high_is_toward_top,
            ..s
        },
        MotorEvent::DirectDrive { ph_high, en_high } => MotorSupervisor {
            state: MotorState::RawDrive,
            fault: None,
            homing_phase: None,
            direct_drive: Some((ph_high, en_high)),
            raw_mode_enabled: true,
            raw_ph_high: ph_high,
            raw_en_high: en_high,
            ..s
        },
        MotorEvent::StartTuning { near_end } => if s.is_homed && s.state == MotorState::Idle {
            MotorSupervisor {
                state: MotorState::MovingToPosition,
                pid_gains_tuned: false,
                fault: None,
                autotune_phase: if near_end { AutotunePhase::Centering } else { AutotunePhase::Relay },
                tuning_state: if near_end { TuningState::Idle } else { TuningState::FindingAmplitude },
                target_position_set: near_end,
                ..s
            }
        } else {
            MotorSupervisor { fault: Some(FaultCode::CannotTuneNotHomedOrIdle), ..s }
        },
        MotorEvent::AbortTuning => if s.tuning_state != TuningState::Idle {
            MotorSupervisor {
                autotune_phase: AutotunePhase::Idle,
                tuning_state: TuningState::Idle,
                state: MotorState::Idle,
                target_position_set: false,
                ..s
            }
        } else {
            s
        },
    }
}

/// The side effects of a command.
pub open spec fn command_effect(s: MotorSupervisor, ev: MotorEvent, at_bottom: bool) -> Effect {
    match ev {
        MotorEvent::Home => Effect {
            target_position: TargetAction::Clear,
            target_velocity: VelocityAction::Zero,
            zero_count: at_bottom,
            ..no_effect()
        },
        MotorEvent::Stop => Effect {
            target_position: TargetAction::Clear,
            target_velocity: VelocityAction::Zero,
            abort_tuner: true,
            reset_progress: true,
            ..no_effect()
        },
        MotorEvent::SetPosition => if s.counts_per_stroke is Some {
            Effect {
                target_position: TargetAction::SetRequested,
                reset_pid: true,
                abort_tuner: true,
                reset_progress: true,
                ..no_effect()
            }
        } else {
            no_effect()
        },
        MotorEvent::SetVelocity => Effect {
            target_position: TargetAction::Clear,
            target_velocity: VelocityAction::SetRequested,
            ..no_effect()
        },
        MotorEvent::DirectDrive { .. } => Effect { target_velocity: VelocityAction::Zero, ..no_effect() },
        MotorEvent::StartTuning { near_end } => if s.is_homed && s.state == MotorState::Idle {
            Effect {
                target_position: if near_end { TargetAction::SetCenter } else { TargetAction::Clear },
                reset_pid: true,
                abort_tuner: true,
                reset_progress: true,
                start_tuner: !near_end,
                ..no_effect()
            }
        } else {
            no_effect()
        },
        MotorEvent::AbortTuning => if s.tuning_state != TuningState::Idle {
            Effect { target_position: TargetAction::Clear, abort_tuner: true, ..no_effect() }
        } else {
            no_effect()
        },
        _ => no_effect(),
    }
}

/// The state after a homing tick, with the raw count read during the tick.
pub open spec fn homing_state(s: MotorSupervisor, at_bottom: bool, at_top: bool, raw: i32) -> MotorSupervisor {
    match s.homing_phase {
        Some(HomingPhase::SeekBottom) => if at_bottom {
            MotorSupervisor { homing_phase: Some(HomingPhase::SeekTop), ..s }
        } else {
            s
        },
        Some(HomingPhase::SeekTop) => if at_top {
            if stroke_of(raw) >= MIN_VALID_COUNTS_PER_STROKE {
                MotorSupervisor {
                    counts_per_stroke: Some(stroke_of(raw)),
                    homing_phase: Some(HomingPhase::ReturnBottom),
                    ..s
                }
            } else {
                MotorSupervisor {
                    state: MotorState::Fault,
                    fault: Some(FaultCode::EncoderNotCounting),
                    counts_per_stroke: None,
                    homing_phase: None,
                    ..s
                }
            }
        } else {
            s
        },
        Some(HomingPhase::ReturnBottom) => if at_bottom {
            MotorSupervisor { is_homed: true, state: MotorState::Idle, homing_phase: None, ..s }
        } else {
            s
        },
        None => MotorSupervisor { state: MotorState::Idle, ..s },
    }
}

/// The measured stroke: the magnitude of the count at the top, wrapping as
/// two's complement does (`i32::MIN` keeps its value, and fails the minimum).
pub open spec fn stroke_of(raw: i32) -> i32 {
    if raw == i32::MIN { raw } else if raw < 0 { (-raw) as i32 } else { raw }
}

/// The motion and count reset of a homing tick.
pub open spec fn homing_plan(s: MotorSupervisor, at_bottom: bool, at_top: bool) -> TickPlan {
    match s.homing_phase {
        Some(HomingPhase::SeekBottom) => if at_bottom {
            TickPlan::Home { toward: None, zero_count: true }
        } else {
            TickPlan::Home { toward: Some(MotionDirection::TowardBottom), zero_count: false }
        },
        Some(HomingPhase::SeekTop) => if at_top {
            TickPlan::Home { toward: None, zero_count: false }
        } else {
            TickPlan::Home { toward: Some(MotionDirection::TowardTop), zero_count: false }
        },
        Some(HomingPhase::ReturnBottom) => if at_bottom {
            TickPlan::Home { toward: None, zero_count: true }
        } else {
            TickPlan::Home { toward: Some(MotionDirection::TowardBottom), zero_count: false }
        },
        None => TickPlan::Home { toward: None, zero_count: false },
    }
}

/// The plan of a tick and the state after it.
pub open spec fn tick_spec(s: MotorSupervisor, at_bottom: bool, at_top: bool, raw: i32) -> (
    MotorSupervisor,
    TickPlan,
) {
    match s.direct_drive {
        Some((ph, en)) => (
            MotorSupervisor { raw_mode_enabled: true, raw_ph_high: ph, raw_en_high: en, ..s },
            TickPlan::Direct { ph_high: ph, en_high: en },
        ),
        None => match s.state {
            MotorState::Idle => (s, TickPlan::Hold),
            MotorState::Homing => (homing_state(s, at_bottom, at_top, raw), homing_plan(s, at_bottom, at_top)),
            MotorState::MovingToPosition => (s, TickPlan::Position),
            MotorState::MovingAtVelocity => (s, TickPlan::Velocity),
            MotorState::Fault => (s, TickPlan::Halt),
            MotorState::RawDrive => (MotorSupervisor { state: MotorState::Idle, ..s }, TickPlan::Hold),
        },
    }
}

/// The limit guard: motion toward a pressed switch is dropped, and a move
/// left with no motion at a pressed switch ends.
pub open spec fn guard_spec(
    s: MotorSupervisor,
    at_bottom: bool,
    at_top: bool,
    motion: Option<MotionDirection>,
) -> (MotorSupervisor, Guard) {
    let m1 = if at_bottom && motion == Some(MotionDirection::TowardBottom) { None } else { motion };
    let v1 = at_bottom && s.state == MotorState::MovingAtVelocity && m1 is None;
    let s1 = if v1 { MotorSupervisor { state: MotorState::Idle, ..s } } else { s };
    let p1 = at_bottom && s1.state == MotorState::MovingToPosition && m1 is None;
    let s2 = if p1 { MotorSupervisor { state: MotorState::Idle, target_position_set: false, ..s1 } } else { s1 };
    let m2 = if at_top && m1 == Some(MotionDirection::TowardTop) { None } else { m1 };
    let v2 = at_top && s2.state == MotorState::MovingAtVelocity && m2 is None;
    let s3 = if v2 { MotorSupervisor { state: MotorState::Idle, ..s2 } } else { s2 };
    let p2 = at_top && s3.state == MotorState::MovingToPosition && m2 is None;
    let s4 = if p2 { MotorSupervisor { state: MotorState::Idle, target_position_set: false, ..s3 } } else { s3 };
    (
        MotorSupervisor { raw_mode_enabled: false, raw_ph_high: false, raw_en_high: false, ..s4 },
        Guard { motion: m2, zero_target_velocity: v1 || v2, clear_target_position: p1 || p2 },
    )
}

proof fn lemma_command_wf(s: MotorSupervisor, ev: MotorEvent, at_bottom: bool)
    requires
        s.wf(),
    ensures
        command_state(s, ev, at_bottom).wf(),
{
}

impl MotorSupervisor {
    /// Takes a command.
    pub fn on_command(&mut self, ev: MotorEvent, at_bottom: bool) -> (e: Effect)
        requires
            old(self).wf(),
        ensures
            final(self).wf(),
            *final(self) == command_state(*old(self), ev, at_bottom),
            e == command_effect(*old(self), ev, at_bottom),
    {
        proof {
            lemma_command_wf(*old(self), ev, at_bottom);
        }
        let s = *self;
        let keep = nothing();
        match ev {
            MotorEvent::Home => {
                *self = MotorSupervisor {
                    state: MotorState::Homing,
                    is_homed: false,
                    fault: None,
                    counts_per_stroke: None,
                    direct_drive: None,
                    raw_mode_enabled: false,
                    target_position_set: false,
                    homing_phase: Some(if at_bottom { HomingPhase::SeekTop } else { HomingPhase::SeekBottom }),
                    ..s
                };
                Effect {
                    target_position: TargetAction::Clear,
                    target_velocity: VelocityAction::Zero,
                    zero_count: at_bottom,
                    ..keep
                }
            },
            MotorEvent::Stop => {
                *self = MotorSupervisor {
                    state: MotorState::Idle,
                    fault: None,
                    homing_phase: None,
                    target_position_set: false,
                    tuning_state: TuningState::Idle,
                    direct_drive: None,
                    raw_mode_enabled: false,
                    raw_ph_high: false,
                    raw_en_high: false,
                    ..s
                };
                Effect {
                    target_position: TargetAction::Clear,
                    target_velocity: VelocityAction::Zero,
                    abort_tuner: true,
                    reset_progress: true,
                    ..keep
                }
            },
            MotorEvent::SetPosition => {
                if s.counts_per_stroke.is_some() {
                    *self = MotorSupervisor {
                        autotune_phase: AutotunePhase::Idle,
                        tuning_state: TuningState::Idle,
                        state: MotorState::MovingToPosition,
                        fault: None,
                        direct_drive: None,
                        target_position_set: true,
                        ..s
                    };
                    Effect {
                        target_position: TargetAction::SetRequested,
                        reset_pid: true,
                        abort_tuner: true,
                        reset_progress: true,
                        ..keep
                    }
                } else {
                    self.fault = Some(FaultCode::NotHomed);
                    keep
                }
            },
            MotorEvent::SetVelocity => {
                *self = MotorSupervisor {
                    state: MotorState::MovingAtVelocity,
                    fault: None,
                    homing_phase: None,
                    direct_drive: None,
                    raw_mode_enabled: false,
                    target_position_set: false,
                    ..s
                };
                Effect {
                    target_position: TargetAction::Clear,
                    target_velocity: VelocityAction::SetRequested,
                    ..keep
                }
            },
            MotorEvent::PidGainsSet { saved } => {
                if saved {
                    self.fault = None;
                    self.pid_gains_tuned = true;
                } else {
                    self.fault = Some(FaultCode::PidNvsSaveFailed);
                }
                keep
            },
            MotorEvent::PidGainsLoaded { loaded } => {
                if loaded {
                    self.fault = None;
                    self.pid_gains_tuned = true;
                } else {
                    self.fault = Some(FaultCode::PidNvsLoadFailed);
                }
                keep
            },
            MotorEvent::PidGainsReset { cleared } => {
                if cleared {
                    self.fault = None;
                    self.pid_gains_tuned = false;
                } else {
                    self.fault = Some(FaultCode::PidNvsClearFailed);
                }
                keep
            },
            MotorEvent::SetDirectionPolarity { high_is_toward_top } => {
                self.direction_high_is_toward_top = high_is_toward_top;
                keep
            },
            MotorEvent::DirectDrive { ph_high, en_high } => {
                *self = MotorSupervisor {
                    state: MotorState::RawDrive,
                    fault: None,
                    homing_phase: None,
                    direct_drive: Some((ph_high, en_high)),
                    raw_mode_enabled: true,
                    raw_ph_high: ph_high,
                    raw_en_high: en_high,
                    ..s
                };
                Effect { target_velocity: VelocityAction::Zero, ..keep }
            },
            MotorEvent::StartTuning { near_end } => {
                if s.is_homed && s.state == MotorState::Idle {
                    *self = MotorSupervisor {
                        state: MotorState::MovingToPosition,
                        pid_gains_tuned: false,
                        fault: None,
                        autotune_phase: if near_end { AutotunePhase::Centering } else { AutotunePhase::Relay },
                        tuning_state: if near_end { TuningState::Idle } else { TuningState::FindingAmplitude },
                        target_position_set: near_end,
                        ..s
                    };
                    Effect {
                        target_position: if near_end { TargetAction::SetCenter } else { TargetAction::Clear },
                        reset_pid: true,
                        abort_tuner: true,
                        reset_progress: true,
                        start_tuner: !near_end,
                        ..keep
                    }
                } else {
                    self.fault = Some(FaultCode::CannotTuneNotHomedOrIdle);
                    keep
                }
            },
            MotorEvent::AbortTuning => {
                if s.tuning_state != TuningState::Idle {
                    *self = MotorSupervisor {
                        autotune_phase: AutotunePhase::Idle,
                        tuning_state: TuningState::Idle,
                        state: MotorState::Idle,
                        target_position_set: false,
                        ..s
                    };
                    Effect { target_position: TargetAction::Clear, abort_tuner: true, ..keep }
                } else {
                    keep
                }
            },
        }
    }

    /// Decides what a control tick does, taking the homing steps; `raw` is the
    /// encoder count read during the tick.
    pub fn plan_tick(&mut self, at_bottom: bool, at_top: bool, raw: i32) -> (p: TickPlan)
        requires
            old(self).wf(),
        ensures
            final(self).wf(),
            (*final(self), p) == tick_spec(*old(self), at_bottom, at_top, raw),
    {
        match self.direct_drive {
            Some((ph, en)) => {
                self.raw_mode_enabled = true;
                self.raw_ph_high = ph;
                self.raw_en_high = en;
                TickPlan::Direct { ph_high: ph, en_high: en }
            },
            None => match self.state {
                MotorState::Idle => TickPlan::Hold,
                MotorState::Homing => self.homing_tick(at_bottom, at_top, raw),
                MotorState::MovingToPosition => TickPlan::Position,
                MotorState::MovingAtVelocity => TickPlan::Velocity,
                MotorState::Fault => TickPlan::Halt,
                MotorState::RawDrive => {
                    self.state = MotorState::Idle;
                    TickPlan::Hold
                },
            },
        }
    }

    fn homing_tick(&mut self, at_bottom: bool, at_top: bool, raw: i32) -> (p: TickPlan)
        requires
            old(self).wf(),
            old(self).state == MotorState::Homing,
        ensures
            final(self).wf(),
            *final(self) == homing_state(*old(self), at_bottom, at_top, raw),
            p == homing_plan(*old(self), at_bottom, at_top),
    {
        match self.homing_phase {
            Some(HomingPhase::SeekBottom) => {
                if at_bottom {
                    self.homing_phase = Some(HomingPhase::SeekTop);
                    TickPlan::Home { toward: None, zero_count: true }
                } else {
                    TickPlan::Home { toward: Some(MotionDirection::TowardBottom), zero_count: false }
                }
            },
            Some(HomingPhase::SeekTop) => {
                if at_top {
                    let stroke: i32 = if raw == i32::MIN { raw } else if raw < 0 { -raw } else { raw };
                    if stroke >= MIN_VALID_COUNTS_PER_STROKE {
                        self.counts_per_stroke = Some(stroke);
                        self.homing_phase = Some(HomingPhase::ReturnBottom);
                    } else {
                        self.state = MotorState::Fault;
                        self.fault = Some(FaultCode::EncoderNotCounting);
                        self.counts_per_stroke = None;
                        self.homing_phase = None;
                    }
                    TickPlan::Home { toward: None, zero_count: false }
                } else {
                    TickPlan::Home { toward: Some(MotionDirection::TowardTop), zero_count: false }
                }
            },
            Some(HomingPhase::ReturnBottom) => {
                if at_bottom {
                    self.is_homed = true;
                    self.state = MotorState::Idle;
                    self.homing_phase = None;
                    TickPlan::Home { toward: None, zero_count: true }
                } else {
                    TickPlan::Home { toward: Some(MotionDirection::TowardBottom), zero_count: false }
                }
            },
            None => {
                self.state = MotorState::Idle;
                TickPlan::Home { toward: None, zero_count: false }
            },
        }
    }
}

/// What position control does this tick, and the state after deciding it.
pub open spec fn position_spec(s: MotorSupervisor) -> (MotorSupervisor, PositionPlan) {
    if s.relay_running() {
        (s, PositionPlan::Relay)
    } else if s.target_position_set && s.counts_per_stroke is Some {
        let n = s.counts_per_stroke.unwrap();
        if n < MIN_VALID_COUNTS_PER_STROKE {
            (
                MotorSupervisor {
                    state: MotorState::Fault,
                    fault: Some(FaultCode::EncoderNotCounting),
                    counts_per_stroke: None,
                    target_position_set: false,
                    ..s
                },
                PositionPlan::Stopped,
            )
        } else {
            (s, PositionPlan::Control { counts_per_stroke: n })
        }
    } else {
        (MotorSupervisor { state: MotorState::Idle, target_position_set: false, ..s }, PositionPlan::Stopped)
    }
}

/// The state after relay tuning ends, with or without gains found, and with
/// whether storing found gains succeeded.
pub open spec fn tuning_finished_state(s: MotorSupervisor, gains_found: bool, saved: bool) -> MotorSupervisor {
    MotorSupervisor {
        fault: if gains_found && !saved { Some(FaultCode::PidNvsSaveFailed) } else { s.fault },
        tuning_state: if gains_found { TuningState::Complete } else { TuningState::Failed },
        pid_gains_tuned: if gains_found { true } else { s.pid_gains_tuned },
        autotune_phase: AutotunePhase::Idle,
        state: MotorState::Idle,
        target_position_set: false,
        ..s
    }
}

proof fn lemma_guard_wf(s: MotorSupervisor, at_bottom: bool, at_top: bool, motion: Option<MotionDirection>)
    requires
        s.wf(),
    ensures
        guard_spec(s, at_bottom, at_top, motion).0.wf(),
{
}

impl MotorSupervisor {
    /// Centering before relay tuning has reached the middle of the stroke.
    pub fn on_centered(&mut self) -> (e: Effect)
        requires
            old(self).wf(),
            old(self).autotune_phase == AutotunePhase::Centering,
        ensures
            final(self).wf(),
            *final(self) == (MotorSupervisor {
                autotune_phase: AutotunePhase::Relay,
                target_position_set: false,
                tuning_state: TuningState::FindingAmplitude,
                ..*old(self)
            }),
            e == (Effect {
                target_position: TargetAction::Clear,
                reset_pid: true,
                start_tuner: true,
                reset_progress: true,
                ..no_effect()
            }),
    {
        self.autotune_phase = AutotunePhase::Relay;
        self.target_position_set = false;
        self.tuning_state = TuningState::FindingAmplitude;
        let keep = nothing();
        Effect {
            target_position: TargetAction::Clear,
            reset_pid: true,
            start_tuner: true,
            reset_progress: true,
            ..keep
        }
    }

    /// Decides what position control does this tick.
    pub fn position_plan(&mut self) -> (p: PositionPlan)
        requires
            old(self).wf(),
        ensures
            final(self).wf(),
            (*final(self), p) == position_spec(*old(self)),
    {
        let relay = self.autotune_phase == AutotunePhase::Relay && (self.tuning_state
            == TuningState::FindingAmplitude || self.tuning_state == TuningState::MeasuringPeriod);
        if relay {
            return PositionPlan::Relay;
        }
        match self.counts_per_stroke {
            Some(n) if self.target_position_set => {
                if n < MIN_VALID_COUNTS_PER_STROKE {
                    self.state = MotorState::Fault;
                    self.fault = Some(FaultCode::EncoderNotCounting);
                    self.counts_per_stroke = None;
                    self.target_position_set = false;
                    PositionPlan::Stopped
                } else {
                    PositionPlan::Control { counts_per_stroke: n }
                }
            },
            _ => {
                self.state = MotorState::Idle;
                self.target_position_set = false;
                PositionPlan::Stopped
            },
        }
    }

    /// Relay tuning has ended: `gains_found` tells whether it produced gains,
    /// `saved` whether storing them succeeded.
    pub fn on_tuning_finished(&mut self, gains_found: bool, saved: bool) -> (e: Effect)
        requires
            old(self).wf(),
        ensures
            final(self).wf(),
            *final(self) == tuning_finished_state(*old(self), gains_found, saved),
            e == (Effect { target_position: TargetAction::Clear, abort_tuner: true, ..no_effect() }),
    {
        if gains_found {
            if !saved {
                self.fault = Some(FaultCode::PidNvsSaveFailed);
            }
            self.tuning_state = TuningState::Complete;
            self.pid_gains_tuned = true;
        } else {
            self.tuning_state = TuningState::Failed;
        }
        self.autotune_phase = AutotunePhase::Idle;
        self.state = MotorState::Idle;
        self.target_position_set = false;
        let keep = nothing();
        Effect { target_position: TargetAction::Clear, abort_tuner: true, ..keep }
    }

    /// Position control has settled on its target.
    pub fn on_settled(&mut self) -> (e: Effect)
        requires
            old(self).wf(),
        ensures
            final(self).wf(),
            *final(self) == (MotorSupervisor {
                state: MotorState::Idle,
                target_position_set: false,
                ..*old(self)
            }),
            e == (Effect { target_position: TargetAction::Clear, reset_pid: true, ..no_effect() }),
    {
        self.state = MotorState::Idle;
        self.target_position_set = false;
        let keep = nothing();
        Effect { target_position: TargetAction::Clear, reset_pid: true, ..keep }
    }

    /// Applies the limit switches to the motion control asked for, and closes a
    /// tick in which the controller drove the motor. Motion toward a pressed
    /// switch is never let through; motion away from it always is.
    pub fn guard_limits(&mut self, at_bottom: bool, at_top: bool, motion: Option<MotionDirection>) -> (g: Guard)
        requires
            old(self).wf(),
        ensures
            final(self).wf(),
            (*final(self), g) == guard_spec(*old(self), at_bottom, at_top, motion),
            at_bottom ==> g.motion != Some(MotionDirection::TowardBottom),
            at_top ==> g.motion != Some(MotionDirection::TowardTop),
            motion == Some(MotionDirection::TowardTop) && !at_top ==> g.motion == motion,
            motion == Some(MotionDirection::TowardBottom) && !at_bottom ==> g.motion == motion,
    {
        proof {
            lemma_guard_wf(*old(self), at_bottom, at_top, motion);
        }
        let s0 = *self;
        let m1 = if at_bottom && motion == Some(MotionDirection::TowardBottom) { None } else { motion };
        let v1 = at_bottom && s0.state == MotorState::MovingAtVelocity && m1.is_none();
        let s1 = if v1 { MotorSupervisor { state: MotorState::Idle, ..s0 } } else { s0 };
        let p1 = at_bottom && s1.state == MotorState::MovingToPosition && m1.is_none();
        let s2 = if p1 {
            MotorSupervisor { state: MotorState::Idle, target_position_set: false, ..s1 }
        } else {
            s1
        };
        let m2 = if at_top && m1 == Some(MotionDirection::TowardTop) { None } else { m1 };
        let v2 = at_top && s2.state == MotorState::MovingAtVelocity && m2.is_none();
        let s3 = if v2 { MotorSupervisor { state: MotorState::Idle, ..s2 } } else { s2 };
        let p2 = at_top && s3.state == MotorState::MovingToPosition && m2.is_none();
        let s4 = if p2 {
            MotorSupervisor { state: MotorState::Idle, target_position_set: false, ..s3 }
        } else {
            s3
        };
        *self = MotorSupervisor { raw_mode_enabled: false, raw_ph_high: false, raw_en_high: false, ..s4 };
        Guard { motion: m2, zero_target_velocity: v1 || v2, clear_target_position: p1 || p2 }
    }
}

/// Homing from anywhere off the bottom switch: the motor seeks the bottom,
/// zeroes the count there, seeks the top, takes the count there as the stroke
/// (when it is at least the minimum), returns to the bottom and zeroes the
/// count again; it is then homed, idle, and knows the stroke.
pub proof fn law_homing_sequence(s: MotorSupervisor, raw_at_top: i32)
    requires
        s.wf(),
        raw_at_top != i32::MIN,
        raw_at_top >= MIN_VALID_COUNTS_PER_STROKE || raw_at_top <= -MIN_VALID_COUNTS_PER_STROKE,
    ensures
        ({
            let s1 = command_state(s, MotorEvent::Home, false);
            let (s2, p2) = tick_spec(MotorSupervisor { direct_drive: None, ..s1 }, false, false, 0);
            let (s3, p3) = tick_spec(s2, true, false, 0);
            let (s4, p4) = tick_spec(s3, false, true, raw_at_top);
            let (s5, p5) = tick_spec(s4, true, false, 0);
            &&& p2 == TickPlan::Home { toward: Some(MotionDirection::TowardBottom), zero_count: false }
            &&& p3 == TickPlan::Home { toward: None, zero_count: true }
            &&& p4 == TickPlan::Home { toward: None, zero_count: false }
            &&& p5 == TickPlan::Home { toward: None, zero_count: true }
            &&& s5.is_homed
            &&& s5.state == MotorState::Idle
            &&& s5.counts_per_stroke == Some(if raw_at_top < 0 { (-raw_at_top) as i32 } else { raw_at_top })
            &&& s5.wf()
        }),
{
}

/// A stroke that counts fewer than the minimum fails homing with a fault and
/// leaves no stroke and no homed state.
pub proof fn law_homing_short_stroke(s: MotorSupervisor, raw_at_top: i32)
    requires
        s.wf(),
        s.direct_drive is None,
        s.state == MotorState::Homing,
        s.homing_phase == Some(HomingPhase::SeekTop),
        -MIN_VALID_COUNTS_PER_STROKE < raw_at_top < MIN_VALID_COUNTS_PER_STROKE,
    ensures
        ({
            let (s1, p1) = tick_spec(s, false, true, raw_at_top);
            &&& s1.state == MotorState::Fault
            &&& s1.fault == Some(FaultCode::EncoderNotCounting)
            &&& s1.counts_per_stroke is None
            &&& !s1.is_homed
            &&& p1 == TickPlan::Home { toward: None, zero_count: false }
        }),
{
}

} // verus!
