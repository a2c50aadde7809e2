//! The build-up-and-release pattern of the visualization ("pattern B"): before
//! a chorus the picture holds back (anticipation), goes quiet for a moment
//! (silence flash) and bursts when the chorus starts (impact).
//!
//! The step below makes the pattern's decisions from yes/no signals; the
//! loudness and timing thresholds that produce those signals, and the effects
//! that the actions trigger, belong to the animation loop.

use vstd::prelude::*;

verus! {

/// Phase of the build-up pattern.
#[derive(Clone, Copy, Debug, PartialEq, Eq, Structural)]
pub enum PatternBState {
    /// Waiting for a chorus to come near.
    Inactive,
    /// Loudness is dropping before a chorus: charge builds up.
    Anticipation,
    /// The short quiet flash right before the chorus.
    SilenceFlash,
    /// The burst at the chorus start, for a fixed time.
    Impact,
}

/// The pattern's state: its phase and how many anticipations have started in
/// the song so far (the count is never reset; it scales the later bursts).
#[derive(Clone, Copy, Debug, PartialEq, Eq, Structural)]
pub struct PatternB {
    pub phase: PatternBState,
    pub charge_count: u32,
}

/// What the animation sees in one frame, as yes/no signals.
#[derive(Clone, Copy, Debug, PartialEq, Eq, Structural)]
pub struct PatternBSignals {
    /// The current section is a chorus.
    pub cur_is_chorus: bool,
    /// The next section is a chorus.
    pub nxt_is_chorus: bool,
    /// The current section ends within the anticipation window (8 s).
    pub chorus_within_reach: bool,
    /// Loudness is falling (well under the song's baseline, or trending down).
    pub rms_is_dropping: bool,
    /// The current section ends within half a second.
    pub near_boundary: bool,
    /// The silence flash has lasted its full length.
    pub flash_done: bool,
    /// The impact has lasted its full length.
    pub impact_done: bool,
}

/// What the animation does on a step.
#[derive(Clone, Copy, Debug, PartialEq, Eq, Structural)]
pub enum PatternBAction {
    Nothing,
    /// Anticipation begins: fix the drop intensity, switch to the contrast
    /// pattern, restart the pattern timer.
    StartAnticipation,
    /// The silence flash begins and the timer restarts; `charged` tells
    /// whether an anticipation led to it (otherwise only a small drop
    /// intensity is taken).
    StartFlash { charged: bool },
    /// The burst fires: bloom, burst particles, possibly the spiral arms.
    FireImpact,
    /// The anticipation is called off: back to the normal pattern.
    Cancel,
    /// The impact is over: normal pattern, drop intensity cleared.
    EndImpact,
}

/// The pattern before any chorus: inactive, nothing counted.
pub fn initial_pattern_b() -> (r: PatternB)
    ensures
        r.phase == PatternBState::Inactive,
        r.charge_count == 0,
{
    PatternB { phase: PatternBState::Inactive, charge_count: 0 }
}

/// A chorus is coming from outside a chorus, soon, while loudness drops.
pub open spec fn approaching_chorus(sig: PatternBSignals) -> bool {
    !sig.cur_is_chorus && sig.nxt_is_chorus && sig.chorus_within_reach && sig.rms_is_dropping
}

/// The pattern's transitions.
///
/// - Inactive: an approaching chorus starts an anticipation (counted); right
///   before a chorus entered from outside a chorus, a flash starts without one.
/// - Anticipation: the chorus starting fires the impact; right before the
///   section's end the flash starts; once the chorus is no longer approaching
///   the anticipation is called off.
/// - Silence flash: the chorus starting, or the flash's end, fires the impact.
/// - Impact: ends after its full length.
pub open spec fn pattern_b_next(st: PatternB, sig: PatternBSignals) -> (PatternB, PatternBAction) {
    let stay = (st, PatternBAction::Nothing);
    let go = |p: PatternBState| PatternB { phase: p, charge_count: st.charge_count };
    match st.phase {
        PatternBState::Inactive => if approaching_chorus(sig) {
            (
                PatternB { phase: PatternBState::Anticipation, charge_count: (st.charge_count + 1) as u32 },
                PatternBAction::StartAnticipation,
            )
        } else if sig.nxt_is_chorus && !sig.cur_is_chorus && sig.near_boundary {
            (go(PatternBState::SilenceFlash), PatternBAction::StartFlash { charged: false })
        } else {
            stay
        },
        PatternBState::Anticipation => if sig.cur_is_chorus {
            (go(PatternBState::Impact), PatternBAction::FireImpact)
        } else if sig.near_boundary {
            (go(PatternBState::SilenceFlash), PatternBAction::StartFlash { charged: true })
        } else if !approaching_chorus(sig) {
            (go(PatternBState::Inactive), PatternBAction::Cancel)
        } else {
            stay
        },
        PatternBState::SilenceFlash => if sig.cur_is_chorus || sig.flash_done {
            (go(PatternBState::Impact), PatternBAction::FireImpact)
        } else {
            stay
        },
        PatternBState::Impact => if sig.impact_done {
            (go(PatternBState::Inactive), PatternBAction::EndImpact)
        } else {
            stay
        },
    }
}

/// One frame of the build-up pattern: the next state and what to do.
pub fn pattern_b_step(st: PatternB, sig: PatternBSignals) -> (r: (PatternB, PatternBAction))
    requires
        st.phase == PatternBState::Inactive && approaching_chorus(sig) ==> st.charge_count < u32::MAX,
    ensures
        r == pattern_b_next(st, sig),
{
    let approaching = !sig.cur_is_chorus && sig.nxt_is_chorus && sig.chorus_within_reach && sig.rms_is_dropping;
    match st.phase {
        PatternBState::Inactive => {
            if approaching {
                (
                    PatternB { phase: PatternBState::Anticipation, charge_count: st.charge_count + 1 },
                    PatternBAction::StartAnticipation,
                )
            } else if sig.nxt_is_chorus && !sig.cur_is_chorus && sig.near_boundary {
                (
                    PatternB { phase: PatternBState::SilenceFlash, ..st },
                    PatternBAction::StartFlash { charged: false },
                )
            } else {
                (st, PatternBAction::Nothing)
            }
        },
        PatternBState::Anticipation => {
            if sig.cur_is_chorus {
                (PatternB { phase: PatternBState::Impact, ..st }, PatternBAction::FireImpact)
            } else if sig.near_boundary {
                (
                    PatternB { phase: PatternBState::SilenceFlash, ..st },
                    PatternBAction::StartFlash { charged: true },
                )
            } else if !approaching {
                (PatternB { phase: PatternBState::Inactive, ..st }, PatternBAction::Cancel)
            } else {
                (st, PatternBAction::Nothing)
            }
        },
        PatternBState::SilenceFlash => {
            if sig.cur_is_chorus || sig.flash_done {
                (PatternB { phase: PatternBState::Impact, ..st }, PatternBAction::FireImpact)
            } else {
                (st, PatternBAction::Nothing)
            }
        },
        PatternBState::Impact => {
            if sig.impact_done {
                (PatternB { phase: PatternBState::Inactive, ..st }, PatternBAction::EndImpact)
            } else {
                (st, PatternBAction::Nothing)
            }
        },
    }
}

/// A silence flash starts only in the last half second before the end of a
/// section that is not a chorus; from the inactive phase, only when that
/// section is followed by a chorus.
pub proof fn law_flash_only_at_boundary(st: PatternB, sig: PatternBSignals)
    requires
        pattern_b_next(st, sig).1 is StartFlash,
    ensures
        sig.near_boundary,
        !sig.cur_is_chorus,
        st.phase == PatternBState::Inactive ==> sig.nxt_is_chorus,
{
}

/// Each action and the exact signals that bring it, phase by phase.
pub proof fn law_actions_and_their_conditions(st: PatternB, sig: PatternBSignals)
    ensures
        ({
            let a = pattern_b_next(st, sig).1;
            let approaching = !sig.cur_is_chorus && sig.nxt_is_chorus && sig.chorus_within_reach
                && sig.rms_is_dropping;
            &&& (a == PatternBAction::StartAnticipation) <==> (st.phase == PatternBState::Inactive && approaching)
            &&& (a == PatternBAction::StartFlash { charged: false }) <==> (st.phase == PatternBState::Inactive
                && !approaching && sig.nxt_is_chorus && !sig.cur_is_chorus && sig.near_boundary)
            &&& (a == PatternBAction::StartFlash { charged: true }) <==> (st.phase == PatternBState::Anticipation
                && !sig.cur_is_chorus && sig.near_boundary)
            &&& (a == PatternBAction::FireImpact) <==> ((st.phase == PatternBState::Anticipation
                && sig.cur_is_chorus) || (st.phase == PatternBState::SilenceFlash && (sig.cur_is_chorus
                || sig.flash_done)))
            &&& (a == PatternBAction::Cancel) <==> (st.phase == PatternBState::Anticipation && !sig.cur_is_chorus
                && !sig.near_boundary && !approaching)
            &&& (a == PatternBAction::EndImpact) <==> (st.phase == PatternBState::Impact && sig.impact_done)
        }),
{
}

/// The charge count goes up by one exactly when an anticipation starts, and
/// never otherwise changes.
pub proof fn law_charge_count_counts_anticipations(st: PatternB, sig: PatternBSignals)
    requires
        st.phase == PatternBState::Inactive && approaching_chorus(sig) ==> st.charge_count < u32::MAX,
    ensures
        ({
            let (next, action) = pattern_b_next(st, sig);
            next.charge_count == st.charge_count + (if action == PatternBAction::StartAnticipation {
                1int
            } else {
                0int
            })
        }),
{
}

/// Inside a chorus no build-up begins: an inactive pattern stays inactive.
pub proof fn law_no_build_up_inside_chorus(st: PatternB, sig: PatternBSignals)
    requires
        st.phase == PatternBState::Inactive,
        sig.cur_is_chorus,
    ensures
        pattern_b_next(st, sig) == (st, PatternBAction::Nothing),
{
}

/// A chorus entered while loudness keeps rising (as after a pre-chorus) brings
/// no anticipation.
pub proof fn law_no_anticipation_while_rising(st: PatternB, sig: PatternBSignals)
    requires
        !sig.rms_is_dropping,
    ensures
        pattern_b_next(st, sig).1 != PatternBAction::StartAnticipation,
        pattern_b_next(st, sig).0.charge_count == st.charge_count,
{
}

/// The impact comes only after a build-up: it is never entered straight from
/// the inactive phase.
pub proof fn law_impact_follows_build_up(st: PatternB, sig: PatternBSignals)
    requires
        pattern_b_next(st, sig).0.phase == PatternBState::Impact,
    ensures
        st.phase != PatternBState::Inactive,
{
}

/// Once a chorus has begun, a pending build-up (anticipation or flash) fires
/// its impact at once.
pub proof fn law_chorus_start_fires_impact(st: PatternB, sig: PatternBSignals)
    requires
        st.phase == PatternBState::Anticipation || st.phase == PatternBState::SilenceFlash,
        sig.cur_is_chorus,
    ensures
        pattern_b_next(st, sig) == (
            PatternB { phase: PatternBState::Impact, charge_count: st.charge_count },
            PatternBAction::FireImpact,
        ),
{
}

/// The action names the phase that follows: an anticipation starts only into
/// the anticipation phase, a flash only into the flash phase, an impact only
/// into the impact phase, and a cancel or an end only into the inactive one.
pub proof fn law_action_matches_phase(st: PatternB, sig: PatternBSignals)
    ensures
        ({
            let (next, action) = pattern_b_next(st, sig);
            &&& action == PatternBAction::StartAnticipation ==> next.phase == PatternBState::Anticipation
            &&& action is StartFlash ==> next.phase == PatternBState::SilenceFlash
            &&& action == PatternBAction::FireImpact ==> next.phase == PatternBState::Impact
            &&& (action == PatternBAction::Cancel || action == PatternBAction::EndImpact) ==> next.phase
                == PatternBState::Inactive
            &&& action == PatternBAction::Nothing ==> next == st
        }),
{
}

} // verus!
