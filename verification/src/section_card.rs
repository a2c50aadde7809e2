//! The floating card that shows the section being played: when it appears,
//! fades out before the section ends, swaps to the next section, hides, and
//! comes back when the card toggle or playback asks for it.
//!
//! The card is a state machine over `CardState`. Each event gives the next
//! state and one action for the page: play the enter animation, play the
//! leave animation (and, for the timed leaves, arm a timer that comes back as
//! `LeaveTimerFired`), fade out ahead of a section end, or hide at once. Every
//! event that starts a new animation moves to a new generation; a timer of an
//! older generation is stale and changes nothing.

use vstd::prelude::*;

verus! {

/// State of the section card.
#[derive(Clone, Copy, Debug, PartialEq, Eq, Structural)]
pub struct CardState {
    /// The playing position is inside a listed section.
    pub open: bool,
    /// The card is visibly shown.
    pub showing: bool,
    /// The card is fading out ahead of the end of its section.
    pub pre_leaving: bool,
    /// The card is fading out because the toggle was switched off (or
    /// playback stopped) while it showed.
    pub toggle_leave_pending: bool,
    /// Position (in the track's section list) of the section being played.
    pub prev_idx: Option<usize>,
    /// Position of the section whose details the card shows.
    pub displayed_idx: Option<usize>,
    /// Animation generation; timers of older generations are stale.
    pub generation: u32,
}

/// What a timed leave animation does once it has run.
#[derive(Clone, Copy, Debug, PartialEq, Eq, Structural)]
pub enum AfterLeave {
    /// Show the section at this position and play the enter animation.
    EnterIdx(Option<usize>),
    /// Close and hide the card.
    Close,
    /// Hide the card but stay open (still inside a listed section).
    HideKeepOpen,
}

/// What the page does after a step.
#[derive(Clone, Copy, Debug, PartialEq, Eq, Structural)]
pub enum CardAction {
    Nothing,
    /// Hide the card at once (no animation).
    Hide,
    /// Play the enter animation from the list entry of the section at `idx`;
    /// `after_pre_leave` tells that the card faded out ahead of the section end.
    Enter { idx: Option<usize>, after_pre_leave: bool },
    /// Play the short leave animation towards the list entry of the section at
    /// `idx`, then fire `LeaveTimerFired` with the new generation and `then`.
    Leave { idx: Option<usize>, then: AfterLeave },
    /// Play the fade-out ahead of the end of the section at `idx` (no timer).
    FadeOut { idx: usize },
}

/// What happened to the card.
#[derive(Clone, Copy, Debug, PartialEq, Eq, Structural)]
pub enum CardEvent {
    /// The playing position moved into the section at `new_idx` (or into no
    /// section); `old_listed` and `new_listed` tell whether the previous
    /// section (at `prev_idx`) and the new one are listed sections.
    SegmentChanged { new_idx: Option<usize>, old_listed: bool, new_listed: bool },
    /// The playing position is within half a second of the end of the listed
    /// section at `idx`.
    NearSegmentEnd { idx: usize },
    /// The card toggle or the playing state changed; `prev_exists` tells
    /// whether `prev_idx` names a section of the track.
    VisibilityChanged { prev_exists: bool },
    /// Playback stopped within half a second of the end of the song.
    PlaybackFinished,
    /// The card's close button was clicked.
    CloseClicked,
    /// A leave animation armed in generation `generation` has run.
    LeaveTimerFired { generation: u32, then: AfterLeave },
}

/// The state with the card closed and hidden.
pub open spec fn closed(s: CardState) -> CardState {
    CardState { open: false, showing: false, ..s }
}

/// Next state and action of the card. `should_show` is whether the card
/// toggle is on or playback is running.
pub open spec fn card_step_spec(s: CardState, ev: CardEvent, should_show: bool) -> (CardState, CardAction) {
    match ev {
        CardEvent::SegmentChanged { new_idx, old_listed, new_listed } => {
            if new_idx == s.prev_idx {
                (s, CardAction::Nothing)
            } else {
                let old_valid = old_listed && s.showing;
                let was_pre_leaving = s.pre_leaving;
                let base = CardState {
                    prev_idx: new_idx,
                    pre_leaving: false,
                    toggle_leave_pending: false,
                    generation: (s.generation + 1) as u32,
                    ..s
                };
                if old_valid && new_listed {
                    if was_pre_leaving {
                        (
                            CardState { displayed_idx: new_idx, showing: true, ..base },
                            CardAction::Enter { idx: new_idx, after_pre_leave: true },
                        )
                    } else {
                        (base, CardAction::Leave { idx: s.prev_idx, then: AfterLeave::EnterIdx(new_idx) })
                    }
                } else if old_valid && !new_listed {
                    if was_pre_leaving {
                        (closed(base), CardAction::Hide)
                    } else {
                        (base, CardAction::Leave { idx: s.prev_idx, then: AfterLeave::Close })
                    }
                } else if !old_valid && new_listed {
                    if should_show {
                        (
                            CardState { displayed_idx: new_idx, open: true, showing: true, ..base },
                            CardAction::Enter { idx: new_idx, after_pre_leave: false },
                        )
                    } else {
                        (
                            CardState { displayed_idx: new_idx, open: true, showing: false, ..base },
                            CardAction::Hide,
                        )
                    }
                } else {
                    (closed(base), CardAction::Hide)
                }
            }
        },
        CardEvent::NearSegmentEnd { idx } => {
            if !s.open || !s.showing || s.pre_leaving {
                (s, CardAction::Nothing)
            } else {
                (
                    CardState { pre_leaving: true, generation: (s.generation + 1) as u32, ..s },
                    CardAction::FadeOut { idx },
                )
            }
        },
        CardEvent::VisibilityChanged { prev_exists } => {
            if should_show && !s.showing && s.open {
                if s.prev_idx is Some && prev_exists {
                    (
                        CardState {
                            toggle_leave_pending: false,
                            pre_leaving: false,
                            generation: (s.generation + 1) as u32,
                            displayed_idx: s.prev_idx,
                            showing: true,
                            ..s
                        },
                        CardAction::Enter { idx: s.prev_idx, after_pre_leave: false },
                    )
                } else {
                    (s, CardAction::Nothing)
                }
            } else if should_show && s.showing && s.toggle_leave_pending {
                let base = CardState {
                    toggle_leave_pending: false,
                    generation: (s.generation + 1) as u32,
                    ..s
                };
                if s.prev_idx is Some && prev_exists {
                    (
                        CardState { displayed_idx: s.prev_idx, ..base },
                        CardAction::Enter { idx: s.prev_idx, after_pre_leave: false },
                    )
                } else {
                    (base, CardAction::Nothing)
                }
            } else if !should_show && s.showing {
                (
                    CardState {
                        toggle_leave_pending: true,
                        pre_leaving: false,
                        generation: (s.generation + 1) as u32,
                        ..s
                    },
                    CardAction::Leave {
                        idx: if prev_exists {
                            s.prev_idx
                        } else {
                            None
                        },
                        then: AfterLeave::HideKeepOpen,
                    },
                )
            } else {
                (s, CardAction::Nothing)
            }
        },
        CardEvent::PlaybackFinished => (closed(s), CardAction::Hide),
        CardEvent::CloseClicked => (closed(s), CardAction::Hide),
        CardEvent::LeaveTimerFired { generation, then } => {
            if generation != s.generation {
                (s, CardAction::Nothing)
            } else {
                match then {
                    AfterLeave::EnterIdx(idx) => (
                        CardState { displayed_idx: idx, showing: true, ..s },
                        CardAction::Enter { idx, after_pre_leave: false },
                    ),
                    AfterLeave::Close => (closed(s), CardAction::Hide),
                    AfterLeave::HideKeepOpen => (
                        CardState { toggle_leave_pending: false, showing: false, ..s },
                        CardAction::Hide,
                    ),
                }
            }
        },
    }
}

/// The card before anything happened: closed, hidden, no section.
pub fn initial_card_state() -> (r: CardState)
    ensures
        r == (CardState {
            open: false,
            showing: false,
            pre_leaving: false,
            toggle_leave_pending: false,
            prev_idx: None,
            displayed_idx: None,
            generation: 0,
        }),
{
    CardState {
        open: false,
        showing: false,
        pre_leaving: false,
        toggle_leave_pending: false,
        prev_idx: None,
        displayed_idx: None,
        generation: 0,
    }
}

/// One step of the section card: the next state and what the page must do.
/// `should_show` is whether the card toggle is on or playback is running.
pub fn card_step(s: CardState, ev: CardEvent, should_show: bool) -> (r: (CardState, CardAction))
    requires
        s.generation < u32::MAX,
    ensures
        r == card_step_spec(s, ev, should_show),
{
    match ev {
        CardEvent::SegmentChanged { new_idx, old_listed, new_listed } => {
            if new_idx == s.prev_idx {
                return (s, CardAction::Nothing);
            }
            let old_valid = old_listed && s.showing;
            let was_pre_leaving = s.pre_leaving;
            let base = CardState {
                prev_idx: new_idx,
                pre_leaving: false,
                toggle_leave_pending: false,
                generation: s.generation + 1,
                ..s
            };
            if old_valid && new_listed {
                if was_pre_leaving {
                    (
                        CardState { displayed_idx: new_idx, showing: true, ..base },
                        CardAction::Enter { idx: new_idx, after_pre_leave: true },
                    )
                } else {
                    (base, CardAction::Leave { idx: s.prev_idx, then: AfterLeave::EnterIdx(new_idx) })
                }
            } else if old_valid && !new_listed {
                if was_pre_leaving {
                    (CardState { open: false, showing: false, ..base }, CardAction::Hide)
                } else {
                    (base, CardAction::Leave { idx: s.prev_idx, then: AfterLeave::Close })
                }
            } else if !old_valid && new_listed {
                if should_show {
                    (
                        CardState { displayed_idx: new_idx, open: true, showing: true, ..base },
                        CardAction::Enter { idx: new_idx, after_pre_leave: false },
                    )
                } else {
                    (
                        CardState { displayed_idx: new_idx, open: true, showing: false, ..base },
                        CardAction::Hide,
                    )
                }
            } else {
                (CardState { open: false, showing: false, ..base }, CardAction::Hide)
            }
        },
        CardEvent::NearSegmentEnd { idx } => {
            if !s.open || !s.showing || s.pre_leaving {
                (s, CardAction::Nothing)
            } else {
                (
                    CardState { pre_leaving: true, generation: s.generation + 1, ..s },
                    CardAction::FadeOut { idx },
                )
            }
        },
        CardEvent::VisibilityChanged { prev_exists } => {
            if should_show && !s.showing && s.open {
                if s.prev_idx.is_some() && prev_exists {
                    (
                        CardState {
                            toggle_leave_pending: false,
                            pre_leaving: false,
                            generation: s.generation + 1,
                            displayed_idx: s.prev_idx,
                            showing: true,
                            ..s
                        },
                        CardAction::Enter { idx: s.prev_idx, after_pre_leave: false },
                    )
                } else {
                    (s, CardAction::Nothing)
                }
            } else if should_show && s.showing && s.toggle_leave_pending {
                let base = CardState { toggle_leave_pending: false, generation: s.generation + 1, ..s };
                if s.prev_idx.is_some() && prev_exists {
                    (
                        CardState { displayed_idx: s.prev_idx, ..base },
                        CardAction::Enter { idx: s.prev_idx, after_pre_leave: false },
                    )
                } else {
                    (base, CardAction::Nothing)
                }
            } else if !should_show && s.showing {
                let idx = if prev_exists {
                    s.prev_idx
                } else {
                    None
                };
                (
                    CardState {
                        toggle_leave_pending: true,
                        pre_leaving: false,
                        generation: s.generation + 1,
                        ..s
                    },
                    CardAction::Leave { idx, then: AfterLeave::HideKeepOpen },
                )
            } else {
                (s, CardAction::Nothing)
            }
        },
        CardEvent::PlaybackFinished => (CardState { open: false, showing: false, ..s }, CardAction::Hide),
        CardEvent::CloseClicked => (CardState { open: false, showing: false, ..s }, CardAction::Hide),
        CardEvent::LeaveTimerFired { generation, then } => {
            if generation != s.generation {
                (s, CardAction::Nothing)
            } else {
                match then {
                    AfterLeave::EnterIdx(idx) => (
                        CardState { displayed_idx: idx, showing: true, ..s },
                        CardAction::Enter { idx, after_pre_leave: false },
                    ),
                    AfterLeave::Close => (CardState { open: false, showing: false, ..s }, CardAction::Hide),
                    AfterLeave::HideKeepOpen => (
                        CardState { toggle_leave_pending: false, showing: false, ..s },
                        CardAction::Hide,
                    ),
                }
            }
        },
    }
}

/// A card that is not showing never plays a leave animation when the playing
/// position moves, and while the toggle is off and playback is paused such a
/// move leaves it hidden.
pub proof fn law_hidden_card_never_leaves(
    s: CardState,
    new_idx: Option<usize>,
    old_listed: bool,
    new_listed: bool,
    should_show: bool,
)
    requires
        !s.showing,
    ensures
        !(card_step_spec(s, CardEvent::SegmentChanged { new_idx, old_listed, new_listed }, should_show).1 is Leave),
        !should_show ==> !card_step_spec(
            s,
            CardEvent::SegmentChanged { new_idx, old_listed, new_listed },
            should_show,
        ).0.showing,
{
}

/// A hidden card that is not wanted (toggle off, playback paused) stays hidden
/// whatever happens, timers aside.
pub proof fn law_unwanted_card_stays_hidden(s: CardState, ev: CardEvent)
    requires
        !s.showing,
        !(ev is LeaveTimerFired),
    ensures
        !card_step_spec(s, ev, false).0.showing,
        !(card_step_spec(s, ev, false).1 is Enter),
{
}

/// Moving from a shown listed section to another listed section (without the
/// fade-out before the section end) plays the leave animation towards the old
/// section, and when its timer fires the card shows the new section.
pub proof fn law_listed_to_listed_swaps_sections(
    s: CardState,
    new_idx: Option<usize>,
    should_show: bool,
    later_show: bool,
)
    requires
        s.showing,
        !s.pre_leaving,
        new_idx != s.prev_idx,
    ensures
        ({
            let (s1, a) = card_step_spec(
                s,
                CardEvent::SegmentChanged { new_idx, old_listed: true, new_listed: true },
                should_show,
            );
            let (s2, a2) = card_step_spec(
                s1,
                CardEvent::LeaveTimerFired { generation: s1.generation, then: AfterLeave::EnterIdx(new_idx) },
                later_show,
            );
            &&& a == CardAction::Leave { idx: s.prev_idx, then: AfterLeave::EnterIdx(new_idx) }
            &&& s1.prev_idx == new_idx
            &&& a2 == CardAction::Enter { idx: new_idx, after_pre_leave: false }
            &&& s2.showing
            &&& s2.displayed_idx == new_idx
        }),
{
}

/// Entering a listed section from no shown section opens the card on it:
/// shown with the enter animation when the card is wanted, hidden otherwise.
pub proof fn law_entering_listed_section_opens_card(
    s: CardState,
    new_idx: Option<usize>,
    old_listed: bool,
    should_show: bool,
)
    requires
        new_idx != s.prev_idx,
        !(old_listed && s.showing),
    ensures
        ({
            let (s1, a) = card_step_spec(
                s,
                CardEvent::SegmentChanged { new_idx, old_listed, new_listed: true },
                should_show,
            );
            &&& s1.open
            &&& s1.showing == should_show
            &&& s1.displayed_idx == new_idx
            &&& s1.prev_idx == new_idx
            &&& a == if should_show {
                CardAction::Enter { idx: new_idx, after_pre_leave: false }
            } else {
                CardAction::Hide
            }
        }),
{
}

/// Stopping at the end of the song, or clicking the close button, closes and
/// hides the card at once and changes nothing else.
pub proof fn law_finish_and_close_hide_card(s: CardState, should_show: bool)
    ensures
        card_step_spec(s, CardEvent::PlaybackFinished, should_show) == (
            CardState { open: false, showing: false, ..s },
            CardAction::Hide,
        ),
        card_step_spec(s, CardEvent::CloseClicked, should_show) == (
            CardState { open: false, showing: false, ..s },
            CardAction::Hide,
        ),
{
}

/// Half a second before the end of its section a shown card fades out once:
/// the first such signal starts the fade in a new generation, and while the
/// fade runs (or while the card is closed or hidden) the signal changes
/// nothing.
pub proof fn law_fade_out_once_before_section_end(s: CardState, idx: usize, should_show: bool)
    requires
        s.generation < u32::MAX,
    ensures
        ({
            let (s1, a) = card_step_spec(s, CardEvent::NearSegmentEnd { idx }, should_show);
            if s.open && s.showing && !s.pre_leaving {
                &&& a == CardAction::FadeOut { idx }
                &&& s1 == CardState { pre_leaving: true, generation: (s.generation + 1) as u32, ..s }
                &&& card_step_spec(s1, CardEvent::NearSegmentEnd { idx }, should_show) == (s1, CardAction::Nothing)
            } else {
                a == CardAction::Nothing && s1 == s
            }
        }),
{
}

/// After the fade-out before a section's end, moving into the next listed
/// section shows it at once, with no leave animation.
pub proof fn law_after_fade_out_next_section_enters_directly(
    s: CardState,
    new_idx: Option<usize>,
    should_show: bool,
)
    requires
        s.showing,
        s.pre_leaving,
        new_idx != s.prev_idx,
    ensures
        ({
            let (s1, a) = card_step_spec(
                s,
                CardEvent::SegmentChanged { new_idx, old_listed: true, new_listed: true },
                should_show,
            );
            &&& a == CardAction::Enter { idx: new_idx, after_pre_leave: true }
            &&& s1.showing
            &&& !s1.pre_leaving
            &&& s1.displayed_idx == new_idx
            &&& s1.prev_idx == new_idx
        }),
{
}

/// Switching the card off while it shows plays the leave animation and, when
/// its timer fires, hides the card while it stays open; switching it back on
/// then shows the section being played again.
pub proof fn law_toggle_off_then_on(s: CardState, prev_exists: bool)
    requires
        s.showing,
        s.open,
        s.prev_idx is Some,
        prev_exists,
        s.generation < u32::MAX - 1,
    ensures
        ({
            let (s1, a1) = card_step_spec(s, CardEvent::VisibilityChanged { prev_exists }, false);
            let (s2, a2) = card_step_spec(
                s1,
                CardEvent::LeaveTimerFired { generation: s1.generation, then: AfterLeave::HideKeepOpen },
                false,
            );
            let (s3, a3) = card_step_spec(s2, CardEvent::VisibilityChanged { prev_exists }, true);
            &&& a1 == CardAction::Leave { idx: s.prev_idx, then: AfterLeave::HideKeepOpen }
            &&& a2 == CardAction::Hide
            &&& s2.open && !s2.showing
            &&& a3 == CardAction::Enter { idx: s.prev_idx, after_pre_leave: false }
            &&& s3.showing
            &&& s3.displayed_idx == s.prev_idx
        }),
{
}

/// A leave timer of the current generation finishes what its leave animation
/// started: it shows the section it names, or closes the card, or hides the
/// card while keeping it open.
pub proof fn law_current_timer_completes_leave(s: CardState, then: AfterLeave, should_show: bool)
    ensures
        ({
            let (s1, a) = card_step_spec(s, CardEvent::LeaveTimerFired { generation: s.generation, then }, should_show);
            match then {
                AfterLeave::EnterIdx(idx) => a == CardAction::Enter { idx, after_pre_leave: false } && s1.showing
                    && s1.displayed_idx == idx && s1.open == s.open,
                AfterLeave::Close => a == CardAction::Hide && !s1.open && !s1.showing,
                AfterLeave::HideKeepOpen => a == CardAction::Hide && s1.open == s.open && !s1.showing
                    && !s1.toggle_leave_pending,
            }
        }),
{
}

/// A leave timer of an older generation changes nothing.
pub proof fn law_stale_timer_is_ignored(s: CardState, generation: u32, then: AfterLeave, should_show: bool)
    requires
        generation != s.generation,
    ensures
        card_step_spec(s, CardEvent::LeaveTimerFired { generation, then }, should_show) == (s, CardAction::Nothing),
{
}

/// After the playing position moves into a section that is not listed, the
/// card ends up neither open nor showing: at once, or when the leave
/// animation that the step starts has run (and nothing else happened since).
pub proof fn law_unlisted_section_closes_card(
    s: CardState,
    new_idx: Option<usize>,
    old_listed: bool,
    should_show: bool,
    later_show: bool,
)
    requires
        new_idx != s.prev_idx,
    ensures
        ({
            let (s1, a) = card_step_spec(
                s,
                CardEvent::SegmentChanged { new_idx, old_listed, new_listed: false },
                should_show,
            );
            match a {
                CardAction::Leave { idx, then } => {
                    let (s2, _) = card_step_spec(
                        s1,
                        CardEvent::LeaveTimerFired { generation: s1.generation, then },
                        later_show,
                    );
                    !s2.open && !s2.showing
                },
                _ => !s1.open && !s1.showing,
            }
        }),
{
}

/// Every step that starts an animation moves to a later generation, and no
/// step goes back to an earlier one, so a timer armed before such a step
/// stays stale.
pub proof fn law_generation_never_decreases(s: CardState, ev: CardEvent, should_show: bool)
    requires
        s.generation < u32::MAX,
    ensures
        card_step_spec(s, ev, should_show).0.generation >= s.generation,
        card_step_spec(s, ev, should_show).1 matches CardAction::Leave { .. } ==> card_step_spec(
            s,
            ev,
            should_show,
        ).0.generation == s.generation + 1,
{
}

} // verus!
