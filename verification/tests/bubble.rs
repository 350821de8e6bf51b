use wakeful::bubble::{animate, confirm, dismiss, BubblePhase, BubbleStep};

#[test]
fn dismiss_bubble_is_idempotent_while_closing() {
    assert_eq!(dismiss(BubblePhase::Open), BubbleStep::Enter(BubblePhase::Closing));
    assert_eq!(dismiss(BubblePhase::Opening), BubbleStep::Enter(BubblePhase::Closing));
    assert_eq!(dismiss(BubblePhase::Closing), BubbleStep::Stay, "a closing bubble keeps its progress");
}

#[test]
fn confirm_dismisses_open_wait_bubbles_only() {
    assert_eq!(confirm(BubblePhase::Open, true), BubbleStep::Enter(BubblePhase::Closing));
    assert_eq!(confirm(BubblePhase::Open, false), BubbleStep::Stay);
}

#[test]
fn opening_bubbles_ignore_confirm() {
    assert_eq!(confirm(BubblePhase::Opening, true), BubbleStep::Stay);
    assert_eq!(confirm(BubblePhase::Closing, true), BubbleStep::Stay);
}

#[test]
fn the_animation_opens_then_dismissal_closes_and_removes() {
    assert_eq!(animate(BubblePhase::Opening, false, false), BubbleStep::Stay);
    assert_eq!(animate(BubblePhase::Opening, true, false), BubbleStep::Enter(BubblePhase::Open));
    assert_eq!(animate(BubblePhase::Open, true, false), BubbleStep::Stay, "an open bubble waits");
    assert_eq!(dismiss(BubblePhase::Open), BubbleStep::Enter(BubblePhase::Closing));
    assert_eq!(animate(BubblePhase::Closing, false, false), BubbleStep::Stay);
    assert_eq!(animate(BubblePhase::Closing, true, false), BubbleStep::Remove);
}

#[test]
fn a_timed_bubble_closes_itself_once_its_time_runs_out() {
    assert_eq!(animate(BubblePhase::Open, false, true), BubbleStep::Enter(BubblePhase::Closing));
    // Time counts only once open.
    assert_eq!(animate(BubblePhase::Opening, false, true), BubbleStep::Stay);
}
