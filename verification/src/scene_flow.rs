//! The scene lifecycle: which scene file is current, whether it has been
//! applied yet, where the player starts in it, and a teleport waiting to
//! take the player elsewhere; and which hooks of the scene's script run
//! each tick. Arrival points are world positions the caller keeps as `A`.

use vstd::prelude::*;

verus! {

/// The scene the game runs and what is pending for it.
pub struct SceneFlow<A> {
    /// The current scene file (path under the assets folder).
    pub path: String,
    /// Whether the current scene has been turned into live content.
    pub applied: bool,
    /// Where the player arrives when the scene applies; `None` means the
    /// world origin.
    pub spawn: Option<A>,
    /// A touched teleporter's destination file and arrival point.
    pub pending: Option<(String, A)>,
}

/// The lifecycle as values.
pub struct FlowView<A> {
    pub path: Seq<char>,
    pub applied: bool,
    pub spawn: Option<A>,
    pub pending: Option<(Seq<char>, A)>,
}

impl<A> View for SceneFlow<A> {
    type V = FlowView<A>;

    open spec fn view(&self) -> FlowView<A> {
        FlowView {
            path: self.path@,
            applied: self.applied,
            spawn: self.spawn,
            pending: match self.pending {
                Some(p) => Some((p.0@, p.1)),
                None => None,
            },
        }
    }
}

/// A teleporter fired: its transition is queued unless one is pending
/// already, which absorbs the re-trigger.
pub open spec fn teleport_step<A>(f: FlowView<A>, target: Seq<char>, arrival: A) -> FlowView<A> {
    if f.pending is None {
        FlowView { pending: Some((target, arrival)), ..f }
    } else {
        f
    }
}

/// A pending teleport consumed: its destination becomes the current
/// scene, to be applied afresh with the player at the arrival point.
pub open spec fn transition_step<A>(f: FlowView<A>) -> FlowView<A> {
    match f.pending {
        Some(p) => FlowView { path: p.0, applied: false, spawn: Some(p.1), pending: None },
        None => f,
    }
}

/// The current scene applied once its file has loaded: it is applied,
/// and where the player started is used up. Before the file loads, or
/// once applied, nothing changes.
pub open spec fn apply_step<A>(f: FlowView<A>, loaded: bool) -> FlowView<A> {
    if loaded && !f.applied {
        FlowView { applied: true, spawn: None, ..f }
    } else {
        f
    }
}

impl<A> SceneFlow<A> {
    /// The first scene: not applied yet, the player starting at the
    /// origin, nothing pending.
    pub fn start(path: String) -> (flow: SceneFlow<A>)
        ensures
            flow@ == (FlowView::<A> { path: path@, applied: false, spawn: None, pending: None }),
    {
        SceneFlow { path, applied: false, spawn: None, pending: None }
    }

    /// A teleporter fired (see [`teleport_step`]); reports whether its
    /// transition was queued.
    pub fn teleport(&mut self, target: String, arrival: A) -> (queued: bool)
        ensures
            queued == old(self)@.pending is None,
            final(self)@ == teleport_step(old(self)@, target@, arrival),
    {
        if self.pending.is_some() {
            return false;
        }
        self.pending = Some((target, arrival));
        true
    }

    /// Consumes a pending teleport (see [`transition_step`]); returns the
    /// scene left behind, for teardown, or `None` when nothing was
    /// pending.
    pub fn transition(&mut self) -> (left: Option<String>)
        ensures
            final(self)@ == transition_step(old(self)@),
            match left {
                Some(l) => old(self)@.pending is Some && l@ == old(self)@.path,
                None => old(self)@.pending is None,
            },
    {
        match self.pending.take() {
            None => None,
            Some((target, arrival)) => {
                let mut left = target;
                std::mem::swap(&mut self.path, &mut left);
                self.applied = false;
                self.spawn = Some(arrival);
                Some(left)
            },
        }
    }

    /// Applies the current scene once its file has loaded (see
    /// [`apply_step`]): returns where the player starts (the arrival
    /// point, or `None` for the origin), or nothing when there was
    /// nothing to apply.
    pub fn apply(&mut self, loaded: bool) -> (start: Option<Option<A>>)
        ensures
            final(self)@ == apply_step(old(self)@, loaded),
            start == (if loaded && !old(self)@.applied {
                Some(old(self)@.spawn)
            } else {
                None
            }),
    {
        if !loaded || self.applied {
            return None;
        }
        self.applied = true;
        Some(self.spawn.take())
    }
}

/// Touching a teleporter takes the player to its arrival point in the
/// destination scene: queued from a flow with nothing pending, consumed
/// by the transition, the destination becomes current and its (single)
/// application starts the player at the arrival point.
pub proof fn lemma_teleport_arrives<A>(f: FlowView<A>, target: Seq<char>, arrival: A)
    requires
        f.pending is None,
    ensures
        transition_step(teleport_step(f, target, arrival)).path == target,
        !transition_step(teleport_step(f, target, arrival)).applied,
        transition_step(teleport_step(f, target, arrival)).spawn == Some(arrival),
        apply_step(transition_step(teleport_step(f, target, arrival)), true).applied,
{
}

/// A pending transition absorbs re-triggers: later teleports change
/// nothing until it is consumed.
pub proof fn lemma_pending_absorbs_teleports<A>(f: FlowView<A>, target: Seq<char>, arrival: A)
    requires
        f.pending is Some,
    ensures
        teleport_step(f, target, arrival) == f,
{
}

/// A scene applies once per load: once its file has loaded and it has
/// been applied, applying again changes nothing.
pub proof fn lemma_applies_once<A>(f: FlowView<A>, again: bool)
    ensures
        apply_step(apply_step(f, true), again) == apply_step(f, true),
{
}

/// A hook of a scene script.
#[derive(Clone, Copy, Debug, PartialEq, Eq, Structural)]
pub enum SceneHook {
    /// `on_enter(player_x, player_z)`, once per scene application.
    Enter,
    /// `on_update(player_x, player_z, dt)`, every fixed tick.
    Update,
}

/// Where a scene's script stands: whether `on_enter` has run, and
/// whether a runtime error has disabled it.
#[derive(Clone, Copy, Debug, PartialEq, Eq, Structural)]
pub struct SceneScriptState {
    pub entered: bool,
    pub broken: bool,
}

/// The first hook a tick runs: none for a disabled script, `on_enter` on
/// the first tick after the scene applies, `on_update` after that.
pub open spec fn first_hook_spec(s: SceneScriptState) -> Option<SceneHook> {
    if s.broken {
        None
    } else if !s.entered {
        Some(SceneHook::Enter)
    } else {
        Some(SceneHook::Update)
    }
}

/// A hook has run, successfully or not: the script's new state, and the
/// hook to run next in the same tick. `on_enter` counts as run either
/// way; a hook that errors disables the script, and after a successful
/// `on_enter` the same tick goes on to `on_update`.
pub open spec fn hook_done_spec(s: SceneScriptState, hook: SceneHook, ok: bool) -> (
    SceneScriptState,
    Option<SceneHook>,
) {
    match hook {
        SceneHook::Enter => if ok {
            (SceneScriptState { entered: true, ..s }, Some(SceneHook::Update))
        } else {
            (SceneScriptState { entered: true, broken: true }, None)
        },
        SceneHook::Update => if ok {
            (s, None)
        } else {
            (SceneScriptState { broken: true, ..s }, None)
        },
    }
}

impl SceneScriptState {
    /// A scene script that has not run yet.
    pub fn new() -> (s: SceneScriptState)
        ensures
            s == (SceneScriptState { entered: false, broken: false }),
    {
        SceneScriptState { entered: false, broken: false }
    }

    /// The first hook to run this tick (see [`first_hook_spec`]).
    pub fn first_hook(&self) -> (hook: Option<SceneHook>)
        ensures
            hook == first_hook_spec(*self),
    {
        if self.broken {
            None
        } else if !self.entered {
            Some(SceneHook::Enter)
        } else {
            Some(SceneHook::Update)
        }
    }

    /// Records how a hook went and returns the next hook to run in the
    /// same tick (see [`hook_done_spec`]).
    pub fn hook_done(&mut self, hook: SceneHook, ok: bool) -> (next: Option<SceneHook>)
        ensures
            (*final(self), next) == hook_done_spec(*old(self), hook, ok),
    {
        match hook {
            SceneHook::Enter => {
                self.entered = true;
                if ok {
                    Some(SceneHook::Update)
                } else {
                    self.broken = true;
                    None
                }
            },
            SceneHook::Update => {
                if !ok {
                    self.broken = true;
                }
                None
            },
        }
    }

    /// Whether `on_exit` runs when the scene is torn down: a disabled
    /// script's is skipped rather than risking a second failure.
    pub fn runs_exit(&self) -> (r: bool)
        ensures
            r == !self.broken,
    {
        !self.broken
    }
}

/// `on_enter` runs once: once it has run, whatever happened, no later
/// tick starts with it again.
pub proof fn lemma_enter_runs_once(s: SceneScriptState, ok: bool, hook: SceneHook, later_ok: bool)
    ensures
        ({
            let after = hook_done_spec(s, SceneHook::Enter, ok).0;
            &&& after.entered
            &&& first_hook_spec(after) != Some(SceneHook::Enter)
            &&& hook_done_spec(after, hook, later_ok).0.entered
        }),
{
}

/// A script a runtime error disabled stays disabled: no hook runs, and
/// its `on_exit` is skipped.
pub proof fn lemma_disabled_scripts_stay_off(s: SceneScriptState, hook: SceneHook, ok: bool)
    requires
        s.broken,
    ensures
        first_hook_spec(s) is None,
        hook_done_spec(s, hook, ok).0.broken,
{
}

/// A script that never errors runs `on_enter` then `on_update` on its
/// first tick, and only `on_update` on each tick after.
pub proof fn lemma_first_tick_enters_then_updates()
    ensures
        ({
            let fresh = SceneScriptState { entered: false, broken: false };
            let entered = hook_done_spec(fresh, SceneHook::Enter, true);
            let updated = hook_done_spec(entered.0, SceneHook::Update, true);
            &&& first_hook_spec(fresh) == Some(SceneHook::Enter)
            &&& entered.1 == Some(SceneHook::Update)
            &&& updated.1 is None
            &&& first_hook_spec(updated.0) == Some(SceneHook::Update)
            &&& hook_done_spec(updated.0, SceneHook::Update, true) == (updated.0, None::<SceneHook>)
        }),
{
}

} // verus!
