use beancell_holo::motor::encoder::{decode_step, EncoderConfig, EncoderCounters, EncoderInputPull};
use beancell_holo::motor::supervisor::{
    limit_active, logical_encoder_count, phase_pin_high, position_clamped_to_limit, AutotunePhase, FaultCode,
    HomingPhase, MotionDirection, MotorEvent, MotorState, MotorSupervisor, PositionPlan, TargetAction, TickPlan,
    TuningState, VelocityAction, MIN_VALID_COUNTS_PER_STROKE,
};

#[test]
fn decode_table() {
    assert_eq!(decode_step(0, 2), 1);
    assert_eq!(decode_step(2, 3), 1);
    assert_eq!(decode_step(3, 1), 1);
    assert_eq!(decode_step(1, 0), 1);
    assert_eq!(decode_step(2, 0), -1);
    assert_eq!(decode_step(0, 3), 0);
    assert_eq!(decode_step(1, 1), 0);
}

#[test]
fn forward_and_backward_cycles() {
    let mut c = EncoderCounters::new(false, false, false);
    for (a, b) in [(true, false), (true, true), (false, true), (false, false)] {
        c.on_edge(a, b);
    }
    assert_eq!(c.raw_encoder_count(), 4);
    assert_eq!(c.encoder_valid_pos_steps(), 4);
    for (a, b) in [(false, true), (true, true), (true, false), (false, false)] {
        c.on_edge(a, b);
    }
    assert_eq!(c.raw_encoder_count(), 0);
    assert_eq!(c.encoder_valid_neg_steps(), 4);
    assert_eq!(c.encoder_transitions(), 8);
    assert_eq!(c.encoder_invalid_transitions(), 0);
}

#[test]
fn skipped_states_count_as_invalid() {
    let mut c = EncoderCounters::new(false, false, false);
    c.on_edge(true, true);
    assert_eq!(c.raw_encoder_count(), 0);
    assert_eq!(c.encoder_invalid_transitions(), 1);
    c.on_edge(true, true);
    assert_eq!(c.encoder_invalid_transitions(), 1);
    assert_eq!(c.encoder_transitions(), 2);
    c.reset_encoder_transitions();
    assert_eq!(c.encoder_transitions(), 0);
    assert_eq!(c.encoder_invalid_transitions(), 0);
}

#[test]
fn swapped_channels_reverse_the_count() {
    let mut c = EncoderCounters::new(false, false, true);
    for (a, b) in [(true, false), (true, true), (false, true), (false, false)] {
        c.on_edge(a, b);
    }
    assert_eq!(c.raw_encoder_count(), -4);
    assert!(!c.encoder_a_high());
    c.set_raw_encoder_count(100);
    c.add_raw_encoder_count(-30);
    assert_eq!(c.raw_encoder_count(), 70);
    c.set_encoder_levels(true, false);
    assert!(c.encoder_a_high());
    assert!(!c.encoder_b_high());
    c.add_encoder_transition();
    assert_eq!(c.encoder_transitions(), 5);
}

#[test]
fn encoder_config_default() {
    let c = EncoderConfig::default();
    assert_eq!(c.input_pull, EncoderInputPull::NoPull);
    assert!(!c.swap_channels);
}

#[test]
fn limits_and_counts() {
    assert!(limit_active(false, true));
    assert!(!limit_active(true, true));
    assert!(limit_active(true, false));
    assert_eq!(logical_encoder_count(true, true, false, Some(500), 37), 0);
    assert_eq!(logical_encoder_count(true, false, true, Some(500), 37), 500);
    assert_eq!(logical_encoder_count(true, false, true, None, 37), 37);
    assert_eq!(logical_encoder_count(false, true, false, Some(500), 37), 37);
    assert!(position_clamped_to_limit(true, true, false, None));
    assert!(!position_clamped_to_limit(true, false, true, None));
    assert!(!position_clamped_to_limit(false, true, true, Some(1)));
    assert!(phase_pin_high(true, true));
    assert!(!phase_pin_high(false, true));
    assert!(phase_pin_high(false, false));
}

#[test]
fn homing_measures_the_stroke() {
    let mut s = MotorSupervisor::new(false, false);
    let e = s.on_command(MotorEvent::Home, false);
    assert_eq!(e.target_velocity, VelocityAction::Zero);
    assert!(!e.zero_count);
    assert_eq!(s.state, MotorState::Homing);
    assert_eq!(
        s.plan_tick(false, false, 0),
        TickPlan::Home { toward: Some(MotionDirection::TowardBottom), zero_count: false }
    );
    assert_eq!(s.plan_tick(true, false, 0), TickPlan::Home { toward: None, zero_count: true });
    assert_eq!(s.homing_phase, Some(HomingPhase::SeekTop));
    assert_eq!(
        s.plan_tick(false, false, 120),
        TickPlan::Home { toward: Some(MotionDirection::TowardTop), zero_count: false }
    );
    assert_eq!(s.plan_tick(false, true, -845), TickPlan::Home { toward: None, zero_count: false });
    assert_eq!(s.counts_per_stroke, Some(845));
    assert_eq!(s.plan_tick(true, false, 3), TickPlan::Home { toward: None, zero_count: true });
    assert!(s.is_homed);
    assert_eq!(s.state, MotorState::Idle);
    assert_eq!(s.plan_tick(true, false, 0), TickPlan::Hold);
}

#[test]
fn homing_fails_on_a_short_stroke() {
    let mut s = MotorSupervisor::new(false, false);
    let e = s.on_command(MotorEvent::Home, true);
    assert!(e.zero_count);
    assert_eq!(s.homing_phase, Some(HomingPhase::SeekTop));
    s.plan_tick(false, true, MIN_VALID_COUNTS_PER_STROKE - 1);
    assert_eq!(s.state, MotorState::Fault);
    assert_eq!(s.fault, Some(FaultCode::EncoderNotCounting));
    assert_eq!(s.fault.unwrap().as_str(), "encoder_not_counting");
    assert_eq!(s.plan_tick(false, false, 0), TickPlan::Halt);
    s.on_command(MotorEvent::Home, false);
    s.plan_tick(true, false, 0);
    s.plan_tick(false, true, i32::MIN);
    assert_eq!(s.state, MotorState::Fault);
}

#[test]
fn position_commands_need_a_stroke() {
    let mut s = MotorSupervisor::new(false, false);
    let e = s.on_command(MotorEvent::SetPosition, false);
    assert_eq!(e.target_position, TargetAction::Keep);
    assert_eq!(s.fault, Some(FaultCode::NotHomed));
    assert_eq!(FaultCode::NotHomed.as_str(), "not_homed");
    s.on_command(MotorEvent::Home, true);
    s.plan_tick(false, true, 400);
    s.plan_tick(true, false, 0);
    let e = s.on_command(MotorEvent::SetPosition, false);
    assert_eq!(e.target_position, TargetAction::SetRequested);
    assert!(e.reset_pid);
    assert_eq!(s.state, MotorState::MovingToPosition);
    assert_eq!(s.plan_tick(false, false, 10), TickPlan::Position);
    assert_eq!(s.position_plan(), PositionPlan::Control { counts_per_stroke: 400 });
    let e = s.on_settled();
    assert!(e.reset_pid);
    assert_eq!(s.state, MotorState::Idle);
    assert_eq!(s.position_plan(), PositionPlan::Stopped);
}

#[test]
fn guard_never_drives_into_a_pressed_switch() {
    let mut s = MotorSupervisor::new(false, false);
    s.on_command(MotorEvent::SetVelocity, false);
    let g = s.guard_limits(true, false, Some(MotionDirection::TowardBottom));
    assert_eq!(g.motion, None);
    assert!(g.zero_target_velocity);
    assert_eq!(s.state, MotorState::Idle);
    s.on_command(MotorEvent::SetVelocity, false);
    let g = s.guard_limits(true, false, Some(MotionDirection::TowardTop));
    assert_eq!(g.motion, Some(MotionDirection::TowardTop));
    assert!(!g.zero_target_velocity);
    assert_eq!(s.state, MotorState::MovingAtVelocity);
    let g = s.guard_limits(false, true, Some(MotionDirection::TowardTop));
    assert_eq!(g.motion, None);
    assert_eq!(s.state, MotorState::Idle);
}

#[test]
fn raw_drive_and_stop() {
    let mut s = MotorSupervisor::new(true, false);
    s.on_command(MotorEvent::DirectDrive { ph_high: true, en_high: false }, false);
    assert_eq!(s.state, MotorState::RawDrive);
    assert_eq!(s.plan_tick(false, false, 0), TickPlan::Direct { ph_high: true, en_high: false });
    assert!(s.raw_mode_enabled);
    let e = s.on_command(MotorEvent::Stop, false);
    assert!(e.abort_tuner);
    assert_eq!(s.state, MotorState::Idle);
    assert!(s.direct_drive.is_none());
    assert!(!s.raw_mode_enabled);
    s.on_command(MotorEvent::SetDirectionPolarity { high_is_toward_top: false }, false);
    assert!(!s.direction_high_is_toward_top);
}

#[test]
fn tuning_flow() {
    let mut s = MotorSupervisor::new(false, true);
    s.on_command(MotorEvent::StartTuning { near_end: false }, false);
    assert_eq!(s.fault, Some(FaultCode::CannotTuneNotHomedOrIdle));
    s.on_command(MotorEvent::Home, true);
    s.plan_tick(false, true, 300);
    s.plan_tick(true, false, 0);
    let e = s.on_command(MotorEvent::StartTuning { near_end: true }, false);
    assert_eq!(e.target_position, TargetAction::SetCenter);
    assert_eq!(s.autotune_phase, AutotunePhase::Centering);
    assert!(!s.pid_gains_tuned);
    let e = s.on_centered();
    assert!(e.start_tuner);
    assert_eq!(s.tuning_state, TuningState::FindingAmplitude);
    assert_eq!(s.position_plan(), PositionPlan::Relay);
    s.on_tuning_finished(true, false);
    assert_eq!(s.tuning_state, TuningState::Complete);
    assert_eq!(s.fault, Some(FaultCode::PidNvsSaveFailed));
    assert!(s.pid_gains_tuned);
    assert_eq!(s.state, MotorState::Idle);
    s.on_command(MotorEvent::StartTuning { near_end: false }, false);
    assert_eq!(s.tuning_state, TuningState::FindingAmplitude);
    s.on_command(MotorEvent::AbortTuning, false);
    assert_eq!(s.tuning_state, TuningState::Idle);
    assert_eq!(s.state, MotorState::Idle);
    s.on_command(MotorEvent::PidGainsReset { cleared: true }, false);
    assert!(!s.pid_gains_tuned);
    s.on_command(MotorEvent::PidGainsLoaded { loaded: false }, false);
    assert_eq!(s.fault, Some(FaultCode::PidNvsLoadFailed));
}
