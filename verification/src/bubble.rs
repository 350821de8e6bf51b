//! Speech-bubble lifecycle: a bubble grows open, stays open, and shrinks
//! away, then is removed. The animation's timing (how far along it is,
//! how long an open bubble has left) is measured by the caller; these
//! functions decide the phase changes.

use vstd::prelude::*;

verus! {

/// Where a bubble's animation stands.
#[derive(Clone, Copy, Debug, PartialEq, Eq, Structural)]
pub enum BubblePhase {
    /// Growing from its center.
    Opening,
    /// Fully open.
    Open,
    /// Shrinking away; removed when done.
    Closing,
}

/// What one animation step does to a bubble.
#[derive(Clone, Copy, Debug, PartialEq, Eq, Structural)]
pub enum BubbleStep {
    /// Stay in the current phase.
    Stay,
    /// Enter this phase, its animation starting from the beginning.
    Enter(BubblePhase),
    /// The bubble is gone.
    Remove,
}

/// Asking a bubble to go away: anything not yet closing starts closing;
/// a closing bubble carries on where it is.
pub open spec fn dismiss_step(phase: BubblePhase) -> BubbleStep {
    if phase == BubblePhase::Closing {
        BubbleStep::Stay
    } else {
        BubbleStep::Enter(BubblePhase::Closing)
    }
}

/// The player's confirm press: it dismisses wait-mode bubbles that are
/// fully open, and nothing else, so the press that opened a bubble never
/// dismisses it in the same breath.
pub open spec fn confirm_step(phase: BubblePhase, wait: bool) -> BubbleStep {
    if wait && phase == BubblePhase::Open {
        dismiss_step(phase)
    } else {
        BubbleStep::Stay
    }
}

/// One animation step: `finished` says the running open or close
/// animation has reached its end, `expired` that an open bubble's time
/// to live has run out. A finished opening is open, an expired open
/// bubble starts closing, a finished closing removes the bubble.
pub open spec fn animate_step(phase: BubblePhase, finished: bool, expired: bool) -> BubbleStep {
    match phase {
        BubblePhase::Opening => if finished {
            BubbleStep::Enter(BubblePhase::Open)
        } else {
            BubbleStep::Stay
        },
        BubblePhase::Open => if expired {
            BubbleStep::Enter(BubblePhase::Closing)
        } else {
            BubbleStep::Stay
        },
        BubblePhase::Closing => if finished {
            BubbleStep::Remove
        } else {
            BubbleStep::Stay
        },
    }
}

/// The phase a step leaves a bubble in, while it exists.
pub open spec fn phase_after(phase: BubblePhase, step: BubbleStep) -> BubblePhase {
    match step {
        BubbleStep::Enter(p) => p,
        _ => phase,
    }
}

/// Starts a bubble's shrink-away; a bubble already closing keeps its
/// progress.
pub fn dismiss(phase: BubblePhase) -> (step: BubbleStep)
    ensures
        step == dismiss_step(phase),
{
    match phase {
        BubblePhase::Closing => BubbleStep::Stay,
        _ => BubbleStep::Enter(BubblePhase::Closing),
    }
}

/// What the confirm press does to a bubble.
pub fn confirm(phase: BubblePhase, wait: bool) -> (step: BubbleStep)
    ensures
        step == confirm_step(phase, wait),
{
    match phase {
        BubblePhase::Open => if wait {
            dismiss(phase)
        } else {
            BubbleStep::Stay
        },
        _ => BubbleStep::Stay,
    }
}

/// One animation step of a bubble.
pub fn animate(phase: BubblePhase, finished: bool, expired: bool) -> (step: BubbleStep)
    ensures
        step == animate_step(phase, finished, expired),
{
    match phase {
        BubblePhase::Opening => if finished {
            BubbleStep::Enter(BubblePhase::Open)
        } else {
            BubbleStep::Stay
        },
        BubblePhase::Open => if expired {
            BubbleStep::Enter(BubblePhase::Closing)
        } else {
            BubbleStep::Stay
        },
        BubblePhase::Closing => if finished {
            BubbleStep::Remove
        } else {
            BubbleStep::Stay
        },
    }
}

/// Dismissing is idempotent: a second dismissal leaves the closing
/// bubble's progress alone.
pub proof fn lemma_dismiss_is_idempotent(phase: BubblePhase)
    ensures
        phase_after(phase, dismiss_step(phase)) == BubblePhase::Closing,
        dismiss_step(phase_after(phase, dismiss_step(phase))) == BubbleStep::Stay,
{
}

/// Only fully open wait-mode bubbles answer the confirm press; opening
/// and closing bubbles, and bubbles that don't wait, ignore it.
pub proof fn lemma_confirm_only_closes_open_waiting_bubbles(phase: BubblePhase, wait: bool)
    ensures
        confirm_step(phase, wait) != BubbleStep::Stay <==> wait && phase == BubblePhase::Open,
        confirm_step(phase, wait) != BubbleStep::Stay ==> confirm_step(phase, wait) == BubbleStep::Enter(
            BubblePhase::Closing,
        ),
{
}

/// A bubble only moves forward through its phases, and only a closing
/// bubble is ever removed.
pub proof fn lemma_phases_move_forward(phase: BubblePhase, finished: bool, expired: bool, wait: bool)
    ensures
        animate_step(phase, finished, expired) == BubbleStep::Remove ==> phase == BubblePhase::Closing,
        phase == BubblePhase::Open ==> phase_after(phase, animate_step(phase, finished, expired))
            != BubblePhase::Opening,
        phase == BubblePhase::Closing ==> phase_after(phase, animate_step(phase, finished, expired))
            == BubblePhase::Closing,
        phase == BubblePhase::Closing ==> phase_after(phase, confirm_step(phase, wait)) == BubblePhase::Closing,
{
}

/// An open bubble starts closing as soon as its time to live runs out,
/// whatever its animation reports, and stays open until then; an opening
/// bubble opens, and a closing bubble is removed, exactly when its
/// animation finishes, whether or not a time to live has run out.
pub proof fn lemma_expiry_closes_open_bubbles(finished: bool, expired: bool)
    ensures
        animate_step(BubblePhase::Open, finished, true) == BubbleStep::Enter(BubblePhase::Closing),
        animate_step(BubblePhase::Open, finished, false) == BubbleStep::Stay,
        animate_step(BubblePhase::Opening, true, expired) == BubbleStep::Enter(BubblePhase::Open),
        animate_step(BubblePhase::Opening, false, expired) == BubbleStep::Stay,
        animate_step(BubblePhase::Closing, true, expired) == BubbleStep::Remove,
        animate_step(BubblePhase::Closing, false, expired) == BubbleStep::Stay,
{
}

} // verus!
