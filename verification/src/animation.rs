//! Character animation choice: the standard clip set, and the driver's
//! per-tick decision. One-shot emotes win over locomotion, locomotion
//! (`walk`/`run`) wins over `idle`; models without the standard clips
//! stay static.

use vstd::prelude::*;

use crate::text::same_text;

verus! {

/// The standard clips, in the order the animation graph is built.
/// Locomotion clips loop; emotes are one-shots.
#[derive(Clone, Copy, Debug, PartialEq, Eq, Structural)]
pub enum StandardClip {
    Idle,
    Walk,
    Run,
    PickUp,
    Shrug,
    Wave,
}

impl StandardClip {
    /// The clip's name in a model file.
    pub open spec fn clip_name(self) -> Seq<char> {
        match self {
            StandardClip::Idle => "idle"@,
            StandardClip::Walk => "walk"@,
            StandardClip::Run => "run"@,
            StandardClip::PickUp => "pick_up"@,
            StandardClip::Shrug => "shrug"@,
            StandardClip::Wave => "wave"@,
        }
    }

    /// The standard clip a name denotes.
    pub open spec fn named(name: Seq<char>) -> Option<StandardClip> {
        if name == "idle"@ {
            Some(StandardClip::Idle)
        } else if name == "walk"@ {
            Some(StandardClip::Walk)
        } else if name == "run"@ {
            Some(StandardClip::Run)
        } else if name == "pick_up"@ {
            Some(StandardClip::PickUp)
        } else if name == "shrug"@ {
            Some(StandardClip::Shrug)
        } else if name == "wave"@ {
            Some(StandardClip::Wave)
        } else {
            None
        }
    }

    /// The standard clip a name denotes, if any.
    pub fn from_name(name: &str) -> (r: Option<StandardClip>)
        ensures
            r == StandardClip::named(name@),
    {
        if same_text(name, "idle") {
            Some(StandardClip::Idle)
        } else if same_text(name, "walk") {
            Some(StandardClip::Walk)
        } else if same_text(name, "run") {
            Some(StandardClip::Run)
        } else if same_text(name, "pick_up") {
            Some(StandardClip::PickUp)
        } else if same_text(name, "shrug") {
            Some(StandardClip::Shrug)
        } else if same_text(name, "wave") {
            Some(StandardClip::Wave)
        } else {
            None
        }
    }

    /// Every standard clip, in graph order.
    pub open spec fn all() -> Seq<StandardClip> {
        seq![
            StandardClip::Idle,
            StandardClip::Walk,
            StandardClip::Run,
            StandardClip::PickUp,
            StandardClip::Shrug,
            StandardClip::Wave,
        ]
    }
}

/// A character's standard clips, resolved to animation-graph nodes.
#[derive(Clone, Copy, Debug, PartialEq, Eq, Structural)]
pub struct ClipTable {
    pub idle: Option<usize>,
    pub walk: Option<usize>,
    pub run: Option<usize>,
    pub pick_up: Option<usize>,
    pub shrug: Option<usize>,
    pub wave: Option<usize>,
}

impl ClipTable {
    /// The node of a standard clip, if the model has it.
    pub open spec fn node(self, clip: StandardClip) -> Option<usize> {
        match clip {
            StandardClip::Idle => self.idle,
            StandardClip::Walk => self.walk,
            StandardClip::Run => self.run,
            StandardClip::PickUp => self.pick_up,
            StandardClip::Shrug => self.shrug,
            StandardClip::Wave => self.wave,
        }
    }

    /// The node of the clip with this name, if it is a standard clip the
    /// model has.
    pub open spec fn node_named(self, name: Seq<char>) -> Option<usize> {
        match StandardClip::named(name) {
            Some(c) => self.node(c),
            None => None,
        }
    }

    /// The graph node of the standard clip with this name, if the model has it.
    pub fn get(&self, name: &str) -> (r: Option<usize>)
        ensures
            r == self.node_named(name@),
    {
        match StandardClip::from_name(name) {
            Some(StandardClip::Idle) => self.idle,
            Some(StandardClip::Walk) => self.walk,
            Some(StandardClip::Run) => self.run,
            Some(StandardClip::PickUp) => self.pick_up,
            Some(StandardClip::Shrug) => self.shrug,
            Some(StandardClip::Wave) => self.wave,
            None => None,
        }
    }

    /// How many standard clips the model has.
    pub open spec fn count(self) -> nat {
        (if self.idle is Some { 1nat } else { 0nat }) + (if self.walk is Some { 1nat } else { 0nat }) + (
        if self.run is Some { 1nat } else { 0nat }) + (if self.pick_up is Some { 1nat } else { 0nat }) + (
        if self.shrug is Some { 1nat } else { 0nat }) + (if self.wave is Some { 1nat } else { 0nat })
    }

    /// How many standard clips the model has.
    pub fn len(&self) -> (n: usize)
        ensures
            n == self.count(),
    {
        let mut n: usize = 0;
        if self.idle.is_some() {
            n = n + 1;
        }
        if self.walk.is_some() {
            n = n + 1;
        }
        if self.run.is_some() {
            n = n + 1;
        }
        if self.pick_up.is_some() {
            n = n + 1;
        }
        if self.shrug.is_some() {
            n = n + 1;
        }
        if self.wave.is_some() {
            n = n + 1;
        }
        n
    }
}

/// How many of the first `k` standard clips a model has.
pub open spec fn present_before(present: Seq<bool>, k: int) -> nat
    decreases k,
{
    if k <= 0 {
        0
    } else {
        present_before(present, k - 1) + if present[k - 1] {
            1nat
        } else {
            0nat
        }
    }
}

/// The node of standard clip `k` when the model's clips are added to
/// the graph in standard order and `nodes` are the nodes that got.
pub open spec fn assigned(present: Seq<bool>, nodes: Seq<usize>, k: int) -> Option<usize> {
    if present[k] {
        Some(nodes[present_before(present, k) as int])
    } else {
        None
    }
}

/// Resolves a model's standard clips to graph nodes: `present[k]` says
/// whether the model has standard clip `k` (graph order), and `nodes`
/// are the nodes the present clips got, in that order.
pub fn assign_clips(present: &[bool], nodes: &[usize]) -> (t: ClipTable)
    requires
        present@.len() == 6,
        nodes@.len() == present_before(present@, 6),
    ensures
        t.idle == assigned(present@, nodes@, 0),
        t.walk == assigned(present@, nodes@, 1),
        t.run == assigned(present@, nodes@, 2),
        t.pick_up == assigned(present@, nodes@, 3),
        t.shrug == assigned(present@, nodes@, 4),
        t.wave == assigned(present@, nodes@, 5),
{
    let mut found: Vec<Option<usize>> = Vec::new();
    let mut next: usize = 0;
    let mut k: usize = 0;
    while k < 6
        invariant
            present@.len() == 6,
            nodes@.len() == present_before(present@, 6),
            k <= 6,
            next == present_before(present@, k as int),
            found@.len() == k,
            forall|j: int| 0 <= j < k ==> found@[j] == assigned(present@, nodes@, j),
        decreases 6 - k,
    {
        proof {
            lemma_present_before_grows(present@, k as int + 1, 6);
        }
        if present[k] {
            found.push(Some(nodes[next]));
            next = next + 1;
        } else {
            found.push(None);
        }
        k = k + 1;
    }
    ClipTable {
        idle: found[0],
        walk: found[1],
        run: found[2],
        pick_up: found[3],
        shrug: found[4],
        wave: found[5],
    }
}

proof fn lemma_present_before_grows(present: Seq<bool>, a: int, b: int)
    requires
        0 <= a <= b,
    ensures
        present_before(present, a) <= present_before(present, b),
    decreases b - a,
{
    if a < b {
        lemma_present_before_grows(present, a, b - 1);
    }
}

/// The clip for the base gait, with graceful fallbacks: run falls back
/// to walk, walk to idle; standing still plays idle.
pub open spec fn base_clip_spec(clips: ClipTable, moving: bool, running: bool) -> Option<usize> {
    if !moving {
        clips.idle
    } else {
        let gait = if running {
            clips.run
        } else {
            clips.walk
        };
        match gait {
            Some(n) => Some(n),
            None => match clips.walk {
                Some(n) => Some(n),
                None => clips.idle,
            },
        }
    }
}

/// The clip for the base gait (see [`base_clip_spec`]).
pub fn base_clip(clips: &ClipTable, moving: bool, running: bool) -> (r: Option<usize>)
    ensures
        r == base_clip_spec(*clips, moving, running),
{
    if !moving {
        return clips.idle;
    }
    let gait = if running {
        clips.run
    } else {
        clips.walk
    };
    match gait {
        Some(n) => Some(n),
        None => match clips.walk {
            Some(n) => Some(n),
            None => clips.idle,
        },
    }
}

/// A driver decision for one tick.
#[derive(Clone, Copy, Debug, PartialEq, Eq, Structural)]
pub enum Step {
    /// Start (or restart) this emote instantly.
    StartEmote(usize),
    /// Keep the current emote running.
    HoldEmote,
    /// Crossfade to this locomotion clip if not already playing it.
    Locomotion(usize),
    /// Nothing to play (no suitable clip).
    Nothing,
}

/// The driver's decision and the emote it leaves selected: a request
/// selects its one-shot (a request for the emote that is still running
/// holds it rather than restarting it); a selected emote owns the
/// character while it runs (`emote_status` is `Some(false)`); once it
/// has finished (or its status is unknown) it is released and the base
/// gait plays.
pub open spec fn next_step_spec(
    emote: Option<usize>,
    request: Option<usize>,
    moving: bool,
    running: bool,
    clips: ClipTable,
    emote_status: Option<bool>,
) -> (Step, Option<usize>) {
    match request {
        Some(r) => if emote == Some(r) && emote_status == Some(false) {
            (Step::HoldEmote, emote)
        } else {
            (Step::StartEmote(r), Some(r))
        },
        None => if emote is Some && emote_status == Some(false) {
            (Step::HoldEmote, emote)
        } else {
            (
                match base_clip_spec(clips, moving, running) {
                    Some(c) => Step::Locomotion(c),
                    None => Step::Nothing,
                },
                None,
            )
        },
    }
}

/// The full state-machine decision for one tick.
pub fn next_step(
    emote: &mut Option<usize>,
    request: Option<usize>,
    moving: bool,
    running: bool,
    clips: &ClipTable,
    emote_status: Option<bool>,
) -> (step: Step)
    ensures
        (step, *final(emote)) == next_step_spec(*old(emote), request, moving, running, *clips, emote_status),
{
    if let Some(request) = request {
        if *emote == Some(request) && emote_status == Some(false) {
            return Step::HoldEmote;
        }
        *emote = Some(request);
        return Step::StartEmote(request);
    }
    if emote.is_some() {
        match emote_status {
            Some(false) => return Step::HoldEmote,
            _ => *emote = None,
        }
    }
    match base_clip(clips, moving, running) {
        Some(c) => Step::Locomotion(c),
        None => Step::Nothing,
    }
}

/// An emote owns the character until it finishes: while it runs,
/// neither movement nor a repeated request interrupts it, and once it
/// has finished the gait resumes and the emote is released.
pub proof fn lemma_emote_owns_until_finished(
    emote: usize,
    moving: bool,
    running: bool,
    clips: ClipTable,
)
    ensures
        next_step_spec(Some(emote), None, moving, running, clips, Some(false)) == (
        Step::HoldEmote,
        Some(emote)),
        next_step_spec(Some(emote), Some(emote), moving, running, clips, Some(false)) == (
        Step::HoldEmote,
        Some(emote)),
        next_step_spec(Some(emote), None, moving, running, clips, Some(true)).1 is None,
        next_step_spec(Some(emote), Some(emote), moving, running, clips, Some(true)) == (
        Step::StartEmote(emote),
        Some(emote)),
{
}

/// Gait fallbacks: standing still plays idle; running plays run where
/// the model has it, else walk, else idle; walking plays walk where the
/// model has it, else idle. So a moving character is left without a
/// clip only when the model has none of its gait clip, walk and idle,
/// and with no emote selected the driver plays whatever that gives.
pub proof fn lemma_gait_falls_back(clips: ClipTable, moving: bool, running: bool, status: Option<bool>)
    ensures
        !moving ==> base_clip_spec(clips, moving, running) == clips.idle,
        moving && running && clips.run is Some ==> base_clip_spec(clips, moving, running) == clips.run,
        moving && !(running && clips.run is Some) && clips.walk is Some ==> base_clip_spec(clips, moving, running)
            == clips.walk,
        moving && !(running && clips.run is Some) && clips.walk is None ==> base_clip_spec(clips, moving, running)
            == clips.idle,
        base_clip_spec(clips, moving, running) is None <==> (clips.idle is None && (moving ==> clips.walk is None
            && (running ==> clips.run is None))),
        next_step_spec(None, None, moving, running, clips, status).0 == Step::Nothing <==> (clips.idle is None && (
        moving ==> clips.walk is None && (running ==> clips.run is None))),
        clips.idle is Some && clips.walk is None && clips.run is None ==> next_step_spec(
            None,
            None,
            moving,
            running,
            clips,
            status,
        ).0 == Step::Locomotion(clips.idle->0),
{
}

/// A finished emote (or one whose status is unknown) gives the
/// character back: the driver decides exactly as if no emote had been
/// selected, and releases it. A request always starts its emote, except
/// that a request for the emote still running keeps it running.
pub proof fn lemma_finished_emote_gives_way(
    emote: usize,
    request: Option<usize>,
    moving: bool,
    running: bool,
    clips: ClipTable,
    status: Option<bool>,
)
    ensures
        status != Some(false) ==> next_step_spec(Some(emote), None, moving, running, clips, status)
            == next_step_spec(None, None, moving, running, clips, status),
        status != Some(false) ==> next_step_spec(Some(emote), None, moving, running, clips, status).1 is None,
        request is Some && !(request == Some(emote) && status == Some(false)) ==> next_step_spec(
            Some(emote),
            request,
            moving,
            running,
            clips,
            status,
        ) == (Step::StartEmote(request->0), request),
        request is Some ==> next_step_spec(None, request, moving, running, clips, status) == (
        Step::StartEmote(request->0),
        request),
{
}

} // verus!
