use music_analyzer::pattern::{
    initial_pattern_b, pattern_b_step, PatternB, PatternBAction, PatternBSignals, PatternBState,
};

fn quiet() -> PatternBSignals {
    PatternBSignals {
        cur_is_chorus: false,
        nxt_is_chorus: false,
        chorus_within_reach: false,
        rms_is_dropping: false,
        near_boundary: false,
        flash_done: false,
        impact_done: false,
    }
}

fn approaching() -> PatternBSignals {
    PatternBSignals { nxt_is_chorus: true, chorus_within_reach: true, rms_is_dropping: true, ..quiet() }
}

#[test]
fn build_up_runs_anticipation_flash_impact() {
    let st = initial_pattern_b();
    assert_eq!(st, PatternB { phase: PatternBState::Inactive, charge_count: 0 });
    let (st, a) = pattern_b_step(st, approaching());
    assert_eq!(a, PatternBAction::StartAnticipation);
    assert_eq!(st, PatternB { phase: PatternBState::Anticipation, charge_count: 1 });
    let (st, a) = pattern_b_step(st, approaching());
    assert_eq!(a, PatternBAction::Nothing);
    let (st, a) = pattern_b_step(st, PatternBSignals { near_boundary: true, ..approaching() });
    assert_eq!(a, PatternBAction::StartFlash { charged: true });
    assert_eq!(st.phase, PatternBState::SilenceFlash);
    let (st, a) = pattern_b_step(st, quiet());
    assert_eq!(a, PatternBAction::Nothing);
    let (st, a) = pattern_b_step(st, PatternBSignals { flash_done: true, ..quiet() });
    assert_eq!(a, PatternBAction::FireImpact);
    assert_eq!(st, PatternB { phase: PatternBState::Impact, charge_count: 1 });
    let (st, a) = pattern_b_step(st, PatternBSignals { cur_is_chorus: true, ..quiet() });
    assert_eq!(a, PatternBAction::Nothing);
    let (st, a) = pattern_b_step(st, PatternBSignals { impact_done: true, ..quiet() });
    assert_eq!(a, PatternBAction::EndImpact);
    assert_eq!(st, PatternB { phase: PatternBState::Inactive, charge_count: 1 });
}

#[test]
fn chorus_start_during_anticipation_fires_impact() {
    let st = PatternB { phase: PatternBState::Anticipation, charge_count: 3 };
    let (st, a) = pattern_b_step(st, PatternBSignals { cur_is_chorus: true, ..quiet() });
    assert_eq!(a, PatternBAction::FireImpact);
    assert_eq!(st, PatternB { phase: PatternBState::Impact, charge_count: 3 });
}

#[test]
fn anticipation_is_cancelled_when_loudness_recovers() {
    let st = PatternB { phase: PatternBState::Anticipation, charge_count: 2 };
    let recovered = PatternBSignals { rms_is_dropping: false, ..approaching() };
    let (st, a) = pattern_b_step(st, recovered);
    assert_eq!(a, PatternBAction::Cancel);
    assert_eq!(st, PatternB { phase: PatternBState::Inactive, charge_count: 2 });
}

#[test]
fn flash_without_anticipation_right_before_chorus() {
    let st = initial_pattern_b();
    let sig = PatternBSignals { nxt_is_chorus: true, near_boundary: true, ..quiet() };
    let (st, a) = pattern_b_step(st, sig);
    assert_eq!(a, PatternBAction::StartFlash { charged: false });
    assert_eq!(st, PatternB { phase: PatternBState::SilenceFlash, charge_count: 0 });
}

#[test]
fn no_build_up_from_chorus_to_chorus() {
    let st = initial_pattern_b();
    let sig = PatternBSignals { cur_is_chorus: true, near_boundary: true, ..approaching() };
    let (next, a) = pattern_b_step(st, sig);
    assert_eq!(a, PatternBAction::Nothing);
    assert_eq!(next, st);
}

#[test]
fn flash_ends_when_chorus_begins() {
    let st = PatternB { phase: PatternBState::SilenceFlash, charge_count: 0 };
    let (st, a) = pattern_b_step(st, PatternBSignals { cur_is_chorus: true, ..quiet() });
    assert_eq!(a, PatternBAction::FireImpact);
    assert_eq!(st.phase, PatternBState::Impact);
}
