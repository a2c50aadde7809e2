use music_analyzer::section_card::{
    card_step, initial_card_state, AfterLeave, CardAction, CardEvent, CardState,
};

fn changed(new_idx: Option<usize>, old_listed: bool, new_listed: bool) -> CardEvent {
    CardEvent::SegmentChanged { new_idx, old_listed, new_listed }
}

fn enter_first(should_show: bool) -> CardState {
    let (s, a) = card_step(initial_card_state(), changed(Some(1), false, true), should_show);
    if should_show {
        assert_eq!(a, CardAction::Enter { idx: Some(1), after_pre_leave: false });
    } else {
        assert_eq!(a, CardAction::Hide);
    }
    s
}

#[test]
fn card_enters_on_first_listed_section() {
    let s = enter_first(true);
    assert!(s.open && s.showing);
    assert_eq!(s.prev_idx, Some(1));
    assert_eq!(s.displayed_idx, Some(1));
    assert_eq!(s.generation, 1);
}

#[test]
fn same_section_changes_nothing() {
    let s = enter_first(true);
    let (s2, a) = card_step(s, changed(Some(1), true, true), true);
    assert_eq!(s2, s);
    assert_eq!(a, CardAction::Nothing);
}

#[test]
fn card_fades_before_section_end_then_enters_next_at_once() {
    let s = enter_first(true);
    let (s, a) = card_step(s, CardEvent::NearSegmentEnd { idx: 1 }, true);
    assert_eq!(a, CardAction::FadeOut { idx: 1 });
    assert!(s.pre_leaving);
    assert_eq!(s.generation, 2);
    // A second tick near the end does nothing more.
    let (s, a) = card_step(s, CardEvent::NearSegmentEnd { idx: 1 }, true);
    assert_eq!(a, CardAction::Nothing);
    let (s, a) = card_step(s, changed(Some(2), true, true), true);
    assert_eq!(a, CardAction::Enter { idx: Some(2), after_pre_leave: true });
    assert!(!s.pre_leaving && s.showing);
    assert_eq!(s.displayed_idx, Some(2));
    assert_eq!(s.generation, 3);
}

#[test]
fn card_leaves_then_enters_next_section() {
    let s = enter_first(true);
    let (s, a) = card_step(s, changed(Some(2), true, true), true);
    assert_eq!(a, CardAction::Leave { idx: Some(1), then: AfterLeave::EnterIdx(Some(2)) });
    assert_eq!(s.displayed_idx, Some(1));
    let g = s.generation;
    let (s, a) = card_step(s, CardEvent::LeaveTimerFired { generation: g, then: AfterLeave::EnterIdx(Some(2)) }, true);
    assert_eq!(a, CardAction::Enter { idx: Some(2), after_pre_leave: false });
    assert_eq!(s.displayed_idx, Some(2));
    assert!(s.showing);
}

#[test]
fn stale_timer_changes_nothing() {
    let s = enter_first(true);
    let (s, _) = card_step(s, changed(Some(2), true, true), true);
    let (s, _) = card_step(s, changed(Some(3), true, true), true);
    let old = s.generation - 1;
    let (s2, a) = card_step(s, CardEvent::LeaveTimerFired { generation: old, then: AfterLeave::EnterIdx(Some(2)) }, true);
    assert_eq!(s2, s);
    assert_eq!(a, CardAction::Nothing);
}

#[test]
fn unlisted_section_closes_the_card() {
    let s = enter_first(true);
    let (s, a) = card_step(s, changed(Some(4), true, false), true);
    assert_eq!(a, CardAction::Leave { idx: Some(1), then: AfterLeave::Close });
    let g = s.generation;
    let (s, a) = card_step(s, CardEvent::LeaveTimerFired { generation: g, then: AfterLeave::Close }, true);
    assert_eq!(a, CardAction::Hide);
    assert!(!s.open && !s.showing);
    // From a hidden card the change closes at once.
    let (s, a) = card_step(s, changed(None, false, false), true);
    assert_eq!(a, CardAction::Hide);
    assert!(!s.open && !s.showing);
}

#[test]
fn hidden_card_appears_when_asked() {
    let s = enter_first(false);
    assert!(s.open && !s.showing);
    let (s, a) = card_step(s, CardEvent::VisibilityChanged { prev_exists: true }, true);
    assert_eq!(a, CardAction::Enter { idx: Some(1), after_pre_leave: false });
    assert!(s.showing);
}

#[test]
fn toggle_off_then_on_cancels_the_leave() {
    let s = enter_first(true);
    let (s, a) = card_step(s, CardEvent::VisibilityChanged { prev_exists: true }, false);
    assert_eq!(a, CardAction::Leave { idx: Some(1), then: AfterLeave::HideKeepOpen });
    assert!(s.toggle_leave_pending && s.showing);
    let pending_generation = s.generation;
    let (s, a) = card_step(s, CardEvent::VisibilityChanged { prev_exists: true }, true);
    assert_eq!(a, CardAction::Enter { idx: Some(1), after_pre_leave: false });
    assert!(!s.toggle_leave_pending && s.showing);
    // The timer of the cancelled leave is stale now.
    let (s2, a) = card_step(s, CardEvent::LeaveTimerFired { generation: pending_generation, then: AfterLeave::HideKeepOpen }, true);
    assert_eq!((s2, a), (s, CardAction::Nothing));
}

#[test]
fn toggle_off_hides_but_keeps_open() {
    let s = enter_first(true);
    let (s, _) = card_step(s, CardEvent::VisibilityChanged { prev_exists: true }, false);
    let g = s.generation;
    let (s, a) = card_step(s, CardEvent::LeaveTimerFired { generation: g, then: AfterLeave::HideKeepOpen }, false);
    assert_eq!(a, CardAction::Hide);
    assert!(s.open && !s.showing && !s.toggle_leave_pending);
}

#[test]
fn close_button_and_song_end_hide_the_card() {
    let s = enter_first(true);
    let (s1, a1) = card_step(s, CardEvent::CloseClicked, true);
    let (s2, a2) = card_step(s, CardEvent::PlaybackFinished, true);
    assert_eq!(a1, CardAction::Hide);
    assert_eq!(a2, CardAction::Hide);
    assert!(!s1.open && !s1.showing && !s2.open && !s2.showing);
    assert_eq!(s1.generation, s.generation);
}
