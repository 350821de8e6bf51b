//! The input vocabulary: PlayStation-named actions, the per-tick input
//! state built from them, and the edge bookkeeping that lets each fixed
//! tick see each press exactly once.

use vstd::prelude::*;

use crate::bindings::{Bindings, active_buttons, standard_bindings};
use crate::keys::Raw;
use crate::text::same_text;

verus! {

/// The engine's entire button vocabulary, labeled like a DualShock.
#[derive(Clone, Copy, Debug, PartialEq, Eq, Structural)]
pub enum PadButton {
    Cross,
    Circle,
    Triangle,
    Square,
    DPadUp,
    DPadDown,
    DPadLeft,
    DPadRight,
    L1,
    R1,
    L2,
    R2,
    L3,
    R3,
    Start,
    Select,
}

/// How many buttons the vocabulary has.
pub const BUTTON_COUNT: usize = 16;

impl PadButton {
    /// The button's position in the vocabulary, `0..BUTTON_COUNT`.
    pub open spec fn index_of(self) -> nat {
        match self {
            PadButton::Cross => 0,
            PadButton::Circle => 1,
            PadButton::Triangle => 2,
            PadButton::Square => 3,
            PadButton::DPadUp => 4,
            PadButton::DPadDown => 5,
            PadButton::DPadLeft => 6,
            PadButton::DPadRight => 7,
            PadButton::L1 => 8,
            PadButton::R1 => 9,
            PadButton::L2 => 10,
            PadButton::R2 => 11,
            PadButton::L3 => 12,
            PadButton::R3 => 13,
            PadButton::Start => 14,
            PadButton::Select => 15,
        }
    }

    /// The button at a vocabulary position.
    pub open spec fn at_index(i: nat) -> PadButton {
        if i == 0 {
            PadButton::Cross
        } else if i == 1 {
            PadButton::Circle
        } else if i == 2 {
            PadButton::Triangle
        } else if i == 3 {
            PadButton::Square
        } else if i == 4 {
            PadButton::DPadUp
        } else if i == 5 {
            PadButton::DPadDown
        } else if i == 6 {
            PadButton::DPadLeft
        } else if i == 7 {
            PadButton::DPadRight
        } else if i == 8 {
            PadButton::L1
        } else if i == 9 {
            PadButton::R1
        } else if i == 10 {
            PadButton::L2
        } else if i == 11 {
            PadButton::R2
        } else if i == 12 {
            PadButton::L3
        } else if i == 13 {
            PadButton::R3
        } else if i == 14 {
            PadButton::Start
        } else {
            PadButton::Select
        }
    }

    /// The button's position in the vocabulary.
    pub fn index(self) -> (i: usize)
        ensures
            i == self.index_of(),
            i < BUTTON_COUNT,
    {
        match self {
            PadButton::Cross => 0,
            PadButton::Circle => 1,
            PadButton::Triangle => 2,
            PadButton::Square => 3,
            PadButton::DPadUp => 4,
            PadButton::DPadDown => 5,
            PadButton::DPadLeft => 6,
            PadButton::DPadRight => 7,
            PadButton::L1 => 8,
            PadButton::R1 => 9,
            PadButton::L2 => 10,
            PadButton::R2 => 11,
            PadButton::L3 => 12,
            PadButton::R3 => 13,
            PadButton::Start => 14,
            PadButton::Select => 15,
        }
    }

    /// The button at a vocabulary position.
    pub fn from_index(i: usize) -> (b: PadButton)
        requires
            i < BUTTON_COUNT,
        ensures
            b == PadButton::at_index(i as nat),
            b.index_of() == i,
    {
        if i == 0 {
            PadButton::Cross
        } else if i == 1 {
            PadButton::Circle
        } else if i == 2 {
            PadButton::Triangle
        } else if i == 3 {
            PadButton::Square
        } else if i == 4 {
            PadButton::DPadUp
        } else if i == 5 {
            PadButton::DPadDown
        } else if i == 6 {
            PadButton::DPadLeft
        } else if i == 7 {
            PadButton::DPadRight
        } else if i == 8 {
            PadButton::L1
        } else if i == 9 {
            PadButton::R1
        } else if i == 10 {
            PadButton::L2
        } else if i == 11 {
            PadButton::R2
        } else if i == 12 {
            PadButton::L3
        } else if i == 13 {
            PadButton::R3
        } else if i == 14 {
            PadButton::Start
        } else {
            PadButton::Select
        }
    }

    /// The config and script name: `cross`, `dpad_up`, `l2`, ...
    pub open spec fn config_name(self) -> Seq<char> {
        match self {
            PadButton::Cross => "cross"@,
            PadButton::Circle => "circle"@,
            PadButton::Triangle => "triangle"@,
            PadButton::Square => "square"@,
            PadButton::DPadUp => "dpad_up"@,
            PadButton::DPadDown => "dpad_down"@,
            PadButton::DPadLeft => "dpad_left"@,
            PadButton::DPadRight => "dpad_right"@,
            PadButton::L1 => "l1"@,
            PadButton::R1 => "r1"@,
            PadButton::L2 => "l2"@,
            PadButton::R2 => "r2"@,
            PadButton::L3 => "l3"@,
            PadButton::R3 => "r3"@,
            PadButton::Start => "start"@,
            PadButton::Select => "select"@,
        }
    }

    /// The button a config name denotes, if any.
    pub open spec fn named(name: Seq<char>) -> Option<PadButton> {
        if name == "cross"@ {
            Some(PadButton::Cross)
        } else if name == "circle"@ {
            Some(PadButton::Circle)
        } else if name == "triangle"@ {
            Some(PadButton::Triangle)
        } else if name == "square"@ {
            Some(PadButton::Square)
        } else if name == "dpad_up"@ {
            Some(PadButton::DPadUp)
        } else if name == "dpad_down"@ {
            Some(PadButton::DPadDown)
        } else if name == "dpad_left"@ {
            Some(PadButton::DPadLeft)
        } else if name == "dpad_right"@ {
            Some(PadButton::DPadRight)
        } else if name == "l1"@ {
            Some(PadButton::L1)
        } else if name == "r1"@ {
            Some(PadButton::R1)
        } else if name == "l2"@ {
            Some(PadButton::L2)
        } else if name == "r2"@ {
            Some(PadButton::R2)
        } else if name == "l3"@ {
            Some(PadButton::L3)
        } else if name == "r3"@ {
            Some(PadButton::R3)
        } else if name == "start"@ {
            Some(PadButton::Start)
        } else if name == "select"@ {
            Some(PadButton::Select)
        } else {
            None
        }
    }

    /// Parses a config name: `cross`, `dpad_up`, `l2`, ...
    pub fn from_config(name: &str) -> (r: Option<PadButton>)
        ensures
            r == PadButton::named(name@),
    {
        if same_text(name, "cross") {
            Some(PadButton::Cross)
        } else if same_text(name, "circle") {
            Some(PadButton::Circle)
        } else if same_text(name, "triangle") {
            Some(PadButton::Triangle)
        } else if same_text(name, "square") {
            Some(PadButton::Square)
        } else if same_text(name, "dpad_up") {
            Some(PadButton::DPadUp)
        } else if same_text(name, "dpad_down") {
            Some(PadButton::DPadDown)
        } else if same_text(name, "dpad_left") {
            Some(PadButton::DPadLeft)
        } else if same_text(name, "dpad_right") {
            Some(PadButton::DPadRight)
        } else if same_text(name, "l1") {
            Some(PadButton::L1)
        } else if same_text(name, "r1") {
            Some(PadButton::R1)
        } else if same_text(name, "l2") {
            Some(PadButton::L2)
        } else if same_text(name, "r2") {
            Some(PadButton::R2)
        } else if same_text(name, "l3") {
            Some(PadButton::L3)
        } else if same_text(name, "r3") {
            Some(PadButton::R3)
        } else if same_text(name, "start") {
            Some(PadButton::Start)
        } else if same_text(name, "select") {
            Some(PadButton::Select)
        } else {
            None
        }
    }
}

/// Vocabulary positions and buttons correspond one to one.
pub proof fn lemma_index_round_trip(b: PadButton, i: nat)
    ensures
        b.index_of() < BUTTON_COUNT,
        PadButton::at_index(b.index_of()) == b,
        i < BUTTON_COUNT ==> PadButton::at_index(i).index_of() == i,
{
}

/// Every button's config name parses back to that button.
pub proof fn lemma_config_names_round_trip(b: PadButton)
    ensures
        PadButton::named(b.config_name()) == Some(b),
{
    reveal_strlit("cross");
    reveal_strlit("circle");
    reveal_strlit("triangle");
    reveal_strlit("square");
    reveal_strlit("dpad_up");
    reveal_strlit("dpad_down");
    reveal_strlit("dpad_left");
    reveal_strlit("dpad_right");
    reveal_strlit("l1");
    reveal_strlit("r1");
    reveal_strlit("l2");
    reveal_strlit("r2");
    reveal_strlit("l3");
    reveal_strlit("r3");
    reveal_strlit("start");
    reveal_strlit("select");
    assert("cross"@[0] == 'c');
    assert("cross"@[1] == 'r');
    assert("circle"@[0] == 'c');
    assert("circle"@[1] == 'i');
    assert("triangle"@[0] == 't');
    assert("triangle"@[1] == 'r');
    assert("square"@[0] == 's');
    assert("square"@[1] == 'q');
    assert("dpad_up"@[0] == 'd');
    assert("dpad_up"@[1] == 'p');
    assert("dpad_up"@[5] == 'u');
    assert("dpad_down"@[0] == 'd');
    assert("dpad_down"@[1] == 'p');
    assert("dpad_down"@[5] == 'd');
    assert("dpad_left"@[0] == 'd');
    assert("dpad_left"@[1] == 'p');
    assert("dpad_left"@[5] == 'l');
    assert("dpad_right"@[0] == 'd');
    assert("dpad_right"@[1] == 'p');
    assert("dpad_right"@[5] == 'r');
    assert("l1"@[0] == 'l');
    assert("l1"@[1] == '1');
    assert("r1"@[0] == 'r');
    assert("r1"@[1] == '1');
    assert("l2"@[0] == 'l');
    assert("l2"@[1] == '2');
    assert("r2"@[0] == 'r');
    assert("r2"@[1] == '2');
    assert("l3"@[0] == 'l');
    assert("l3"@[1] == '3');
    assert("r3"@[0] == 'r');
    assert("r3"@[1] == '3');
    assert("start"@[0] == 's');
    assert("start"@[1] == 't');
    assert("select"@[0] == 's');
    assert("select"@[1] == 'e');
}

/// The engine's axis vocabulary: the two analog sticks.
#[derive(Clone, Copy, Debug, PartialEq, Eq, Structural)]
pub enum PadAxis {
    LeftStickX,
    LeftStickY,
    RightStickX,
    RightStickY,
}

impl PadAxis {
    /// The config and script name: `left_stick_x`, ...
    pub open spec fn config_name(self) -> Seq<char> {
        match self {
            PadAxis::LeftStickX => "left_stick_x"@,
            PadAxis::LeftStickY => "left_stick_y"@,
            PadAxis::RightStickX => "right_stick_x"@,
            PadAxis::RightStickY => "right_stick_y"@,
        }
    }

    /// The axis a config name denotes, if any.
    pub open spec fn named(name: Seq<char>) -> Option<PadAxis> {
        if name == "left_stick_x"@ {
            Some(PadAxis::LeftStickX)
        } else if name == "left_stick_y"@ {
            Some(PadAxis::LeftStickY)
        } else if name == "right_stick_x"@ {
            Some(PadAxis::RightStickX)
        } else if name == "right_stick_y"@ {
            Some(PadAxis::RightStickY)
        } else {
            None
        }
    }

    /// Parses a config or script axis name.
    pub fn from_config(name: &str) -> (r: Option<PadAxis>)
        ensures
            r == PadAxis::named(name@),
    {
        if same_text(name, "left_stick_x") {
            Some(PadAxis::LeftStickX)
        } else if same_text(name, "left_stick_y") {
            Some(PadAxis::LeftStickY)
        } else if same_text(name, "right_stick_x") {
            Some(PadAxis::RightStickX)
        } else if same_text(name, "right_stick_y") {
            Some(PadAxis::RightStickY)
        } else {
            None
        }
    }

    /// Every axis, in vocabulary order.
    pub fn all() -> (axes: Vec<PadAxis>)
        ensures
            axes@ == seq![
                PadAxis::LeftStickX,
                PadAxis::LeftStickY,
                PadAxis::RightStickX,
                PadAxis::RightStickY,
            ],
    {
        vec![PadAxis::LeftStickX, PadAxis::LeftStickY, PadAxis::RightStickX, PadAxis::RightStickY]
    }
}

/// Every axis's config name parses back to that axis.
pub proof fn lemma_axis_names_round_trip(a: PadAxis)
    ensures
        PadAxis::named(a.config_name()) == Some(a),
{
    reveal_strlit("left_stick_x");
    reveal_strlit("left_stick_y");
    reveal_strlit("right_stick_x");
    reveal_strlit("right_stick_y");
    assert("left_stick_x"@[0] == 'l');
    assert("left_stick_x"@[11] == 'x');
    assert("left_stick_y"@[0] == 'l');
    assert("left_stick_y"@[11] == 'y');
    assert("right_stick_x"@[0] == 'r');
    assert("right_stick_x"@[12] == 'x');
    assert("right_stick_y"@[0] == 'r');
    assert("right_stick_y"@[12] == 'y');
}

/// A set of buttons: one flag per vocabulary position.
pub struct ButtonSet {
    flags: Vec<bool>,
}

impl View for ButtonSet {
    type V = Set<PadButton>;

    closed spec fn view(&self) -> Set<PadButton> {
        Set::new(|b: PadButton| self.flags@[b.index_of() as int])
    }
}

impl ButtonSet {
    #[verifier::type_invariant]
    spec fn well_formed(self) -> bool {
        self.flags@.len() == BUTTON_COUNT
    }

    /// The empty set.
    pub fn new() -> (s: ButtonSet)
        ensures
            s@ == Set::<PadButton>::empty(),
    {
        let s = ButtonSet { flags: vec![false; BUTTON_COUNT] };
        assert(s@ =~= Set::<PadButton>::empty());
        s
    }

    /// The set holding exactly the listed buttons.
    pub fn from_buttons(buttons: &[PadButton]) -> (s: ButtonSet)
        ensures
            s@ == buttons@.to_set(),
    {
        let mut s = ButtonSet::new();
        let mut i: usize = 0;
        while i < buttons.len()
            invariant
                i <= buttons@.len(),
                forall|c: PadButton| #[trigger] s@.contains(c) <==> buttons@.take(i as int).contains(c),
            decreases buttons@.len() - i,
        {
            let b = buttons[i];
            s.insert(b);
            assert(buttons@.take(i + 1) == buttons@.take(i as int).push(b));
            assert forall|c: PadButton| #[trigger] s@.contains(c) <==> buttons@.take(i + 1).contains(c) by {
                let t = buttons@.take(i as int);
                if t.contains(c) {
                    let k = choose|k: int| 0 <= k < t.len() && t[k] == c;
                    assert(t.push(b)[k] == c);
                }
                if t.push(b).contains(c) && c != b {
                    let k = choose|k: int| 0 <= k < t.len() + 1 && t.push(b)[k] == c;
                    assert(t[k] == c);
                }
                assert(t.push(b)[t.len() as int] == b);
            }
            i = i + 1;
        }
        assert(buttons@.take(buttons@.len() as int) == buttons@);
        assert(s@ =~= buttons@.to_set());
        s
    }

    /// Whether the set holds `b`.
    pub fn contains(&self, b: PadButton) -> (r: bool)
        ensures
            r == self@.contains(b),
    {
        proof {
            use_type_invariant(self);
        }
        self.flags[b.index()]
    }

    /// A copy of this set with one vocabulary position set to `value`.
    fn with_flag(&self, i: usize, value: bool) -> (r: ButtonSet)
        requires
            i < BUTTON_COUNT,
        ensures
            r.flags@ == self.flags@.update(i as int, value),
    {
        proof {
            use_type_invariant(self);
        }
        let mut flags: Vec<bool> = Vec::new();
        let mut j: usize = 0;
        while j < BUTTON_COUNT
            invariant
                j <= BUTTON_COUNT,
                i < BUTTON_COUNT,
                self.flags@.len() == BUTTON_COUNT,
                flags@ == self.flags@.update(i as int, value).take(j as int),
            decreases BUTTON_COUNT - j,
        {
            if j == i {
                flags.push(value);
            } else {
                flags.push(self.flags[j]);
            }
            assert(self.flags@.update(i as int, value).take(j + 1) =~= flags@);
            j = j + 1;
        }
        assert(self.flags@.update(i as int, value).take(BUTTON_COUNT as int) =~= self.flags@.update(i as int, value));
        ButtonSet { flags }
    }

    /// Adds a button; reports whether it was absent before.
    pub fn insert(&mut self, b: PadButton) -> (added: bool)
        ensures
            final(self)@ == old(self)@.insert(b),
            added == !old(self)@.contains(b),
    {
        proof {
            use_type_invariant(&*self);
        }
        let i = b.index();
        let added = !self.flags[i];
        *self = self.with_flag(i, true);
        proof {
            assert forall|c: PadButton| #[trigger] self@.contains(c) == old(self)@.insert(b).contains(c) by {
                if c != b {
                    assert(c.index_of() != b.index_of()) by {
                        lemma_index_round_trip(c, 0);
                        lemma_index_round_trip(b, 0);
                    }
                }
            }
            assert(self@ =~= old(self)@.insert(b));
        }
        added
    }

    /// Removes a button; reports whether it was present before.
    pub fn remove(&mut self, b: PadButton) -> (removed: bool)
        ensures
            final(self)@ == old(self)@.remove(b),
            removed == old(self)@.contains(b),
    {
        proof {
            use_type_invariant(&*self);
        }
        let i = b.index();
        let removed = self.flags[i];
        *self = self.with_flag(i, false);
        proof {
            assert forall|c: PadButton| #[trigger] self@.contains(c) == old(self)@.remove(b).contains(c) by {
                if c != b {
                    assert(c.index_of() != b.index_of()) by {
                        lemma_index_round_trip(c, 0);
                        lemma_index_round_trip(b, 0);
                    }
                }
            }
            assert(self@ =~= old(self)@.remove(b));
        }
        removed
    }

    /// Empties the set.
    pub fn clear(&mut self)
        ensures
            final(self)@ == Set::<PadButton>::empty(),
    {
        *self = ButtonSet::new();
    }

    /// The buttons in this set and not in `other`.
    pub fn minus(&self, other: &ButtonSet) -> (r: ButtonSet)
        ensures
            r@ == self@.difference(other@),
    {
        proof {
            use_type_invariant(self);
            use_type_invariant(other);
        }
        let mut flags: Vec<bool> = Vec::new();
        let mut i: usize = 0;
        while i < BUTTON_COUNT
            invariant
                i <= BUTTON_COUNT,
                self.flags@.len() == BUTTON_COUNT,
                other.flags@.len() == BUTTON_COUNT,
                flags@.len() == i,
                forall|j: int| 0 <= j < i ==> flags@[j] == (self.flags@[j] && !other.flags@[j]),
            decreases BUTTON_COUNT - i,
        {
            flags.push(self.flags[i] && !other.flags[i]);
            i = i + 1;
        }
        let r = ButtonSet { flags };
        assert(r@ =~= self@.difference(other@));
        r
    }

    /// Whether no button is in the set.
    pub fn is_empty(&self) -> (r: bool)
        ensures
            r == (self@ == Set::<PadButton>::empty()),
    {
        proof {
            use_type_invariant(self);
        }
        let mut i: usize = 0;
        while i < BUTTON_COUNT
            invariant
                i <= BUTTON_COUNT,
                self.flags@.len() == BUTTON_COUNT,
                forall|j: int| 0 <= j < i ==> !self.flags@[j],
            decreases BUTTON_COUNT - i,
        {
            if self.flags[i] {
                proof {
                    lemma_index_round_trip(PadButton::Cross, i as nat);
                    assert(self@.contains(PadButton::at_index(i as nat)));
                }
                return false;
            }
            i = i + 1;
        }
        proof {
            assert forall|b: PadButton| !#[trigger] self@.contains(b) by {
                lemma_index_round_trip(b, 0);
            }
            assert(self@ =~= Set::<PadButton>::empty());
        }
        true
    }

    /// The buttons in the set, in vocabulary order.
    pub fn buttons(&self) -> (v: Vec<PadButton>)
        ensures
            forall|b: PadButton| #[trigger] v@.contains(b) <==> self@.contains(b),
            forall|i: int, j: int|
                0 <= i < j < v@.len() ==> #[trigger] v@[i].index_of() < #[trigger] v@[j].index_of(),
    {
        proof {
            use_type_invariant(self);
        }
        let mut v: Vec<PadButton> = Vec::new();
        let mut i: usize = 0;
        while i < BUTTON_COUNT
            invariant
                i <= BUTTON_COUNT,
                self.flags@.len() == BUTTON_COUNT,
                forall|b: PadButton| #[trigger] v@.contains(b) <==> (b.index_of() < i && self@.contains(b)),
                forall|k: int| 0 <= k < v@.len() ==> #[trigger] v@[k].index_of() < i,
                forall|a: int, c: int| 0 <= a < c < v@.len() ==> #[trigger] v@[a].index_of() < #[trigger] v@[c].index_of(),
            decreases BUTTON_COUNT - i,
        {
            let ghost old_v = v@;
            if self.flags[i] {
                let b = PadButton::from_index(i);
                v.push(b);
                proof {
                    assert(v@ == old_v.push(b));
                    assert(self@.contains(b));
                    lemma_index_round_trip(b, i as nat);
                    assert forall|c: PadButton| #[trigger] v@.contains(c) <==> (c.index_of() < i + 1 && self@.contains(c)) by {
                        lemma_index_round_trip(c, i as nat);
                        if c.index_of() == i {
                            assert(c == b);
                            assert(v@[old_v.len() as int] == b);
                        }
                        if v@.contains(c) && c != b {
                            let k = choose|k: int| 0 <= k < v@.len() && v@[k] == c;
                            assert(old_v[k] == c);
                            assert(old_v.contains(c));
                        }
                        if c.index_of() < i && self@.contains(c) {
                            assert(old_v.contains(c));
                            let k = choose|k: int| 0 <= k < old_v.len() && old_v[k] == c;
                            assert(v@[k] == c);
                        }
                    }
                }
            } else {
                proof {
                    assert forall|c: PadButton| #[trigger] v@.contains(c) <==> (c.index_of() < i + 1 && self@.contains(c)) by {
                        lemma_index_round_trip(c, i as nat);
                    }
                }
            }
            i = i + 1;
        }
        proof {
            assert forall|b: PadButton| #[trigger] v@.contains(b) <==> self@.contains(b) by {
                lemma_index_round_trip(b, 0);
            }
        }
        v
    }
}

/// What readers of the input state see: which buttons are held this
/// tick, and which went down or up since the previous tick.
pub struct InputStateView {
    pub pressed: Set<PadButton>,
    pub just_pressed: Set<PadButton>,
    pub just_released: Set<PadButton>,
}

/// The per-action state all readers share.
pub struct InputState {
    pressed: ButtonSet,
    just_pressed: ButtonSet,
    just_released: ButtonSet,
}

impl View for InputState {
    type V = InputStateView;

    closed spec fn view(&self) -> InputStateView {
        InputStateView {
            pressed: self.pressed@,
            just_pressed: self.just_pressed@,
            just_released: self.just_released@,
        }
    }
}

/// The state one tick reads, given what was held the tick before and
/// which buttons are active now: edges are the differences.
pub open spec fn tick(previous: Set<PadButton>, active: Set<PadButton>) -> InputStateView {
    InputStateView {
        pressed: active,
        just_pressed: active.difference(previous),
        just_released: previous.difference(active),
    }
}

/// Holding the same buttons for a second tick fires no new edges.
pub proof fn lemma_edges_fire_once(previous: Set<PadButton>, active: Set<PadButton>)
    ensures
        tick(active, active).pressed == active,
        tick(active, active).just_pressed == Set::<PadButton>::empty(),
        tick(active, active).just_released == Set::<PadButton>::empty(),
{
    assert(tick(active, active).just_pressed =~= Set::<PadButton>::empty());
    assert(tick(active, active).just_released =~= Set::<PadButton>::empty());
}

/// A tick's edges are consistent: every press edge is held, no release
/// edge is held, and no button both goes down and comes up.
pub proof fn lemma_edges_are_consistent(previous: Set<PadButton>, active: Set<PadButton>)
    ensures
        tick(previous, active).just_pressed.subset_of(tick(previous, active).pressed),
        tick(previous, active).just_released.disjoint(tick(previous, active).pressed),
        tick(previous, active).just_pressed.disjoint(tick(previous, active).just_released),
{
}

/// A button pressed and then released fires its press edge on the first
/// tick and its release edge exactly on the tick it comes up.
pub proof fn lemma_press_then_release(b: PadButton, before: Set<PadButton>)
    requires
        !before.contains(b),
    ensures
        tick(before, before.insert(b)).just_pressed.contains(b),
        tick(before.insert(b), before).just_released.contains(b),
        !tick(before.insert(b), before).pressed.contains(b),
{
}

impl InputState {
    /// Nothing held, no edges.
    pub fn new() -> (s: InputState)
        ensures
            s@.pressed == Set::<PadButton>::empty(),
            s@.just_pressed == Set::<PadButton>::empty(),
            s@.just_released == Set::<PadButton>::empty(),
    {
        InputState {
            pressed: ButtonSet::new(),
            just_pressed: ButtonSet::new(),
            just_released: ButtonSet::new(),
        }
    }

    /// Whether the button is held this tick.
    pub fn pressed(&self, button: PadButton) -> (r: bool)
        ensures
            r == self@.pressed.contains(button),
    {
        self.pressed.contains(button)
    }

    /// Whether the button went down this tick.
    pub fn just_pressed(&self, button: PadButton) -> (r: bool)
        ensures
            r == self@.just_pressed.contains(button),
    {
        self.just_pressed.contains(button)
    }

    /// Whether the button came up this tick.
    pub fn just_released(&self, button: PadButton) -> (r: bool)
        ensures
            r == self@.just_released.contains(button),
    {
        self.just_released.contains(button)
    }

    /// Name-based lookup for the script API; `None` is an unknown name.
    pub fn pressed_by_name(&self, name: &str) -> (r: Option<bool>)
        ensures
            r == match PadButton::named(name@) {
                Some(b) => Some(self@.pressed.contains(b)),
                None => None,
            },
    {
        match PadButton::from_config(name) {
            Some(b) => Some(self.pressed(b)),
            None => None,
        }
    }

    /// [`Self::just_pressed`] by config name; `None` for a name that is no action.
    pub fn just_pressed_by_name(&self, name: &str) -> (r: Option<bool>)
        ensures
            r == match PadButton::named(name@) {
                Some(b) => Some(self@.just_pressed.contains(b)),
                None => None,
            },
    {
        match PadButton::from_config(name) {
            Some(b) => Some(self.just_pressed(b)),
            None => None,
        }
    }

    /// [`Self::just_released`] by config name; `None` for a name that is no action.
    pub fn just_released_by_name(&self, name: &str) -> (r: Option<bool>)
        ensures
            r == match PadButton::named(name@) {
                Some(b) => Some(self@.just_released.contains(b)),
                None => None,
            },
    {
        match PadButton::from_config(name) {
            Some(b) => Some(self.just_released(b)),
            None => None,
        }
    }

    /// Overwrites the held and just-pressed buttons (no release edges);
    /// drives readers without devices.
    pub fn inject(&mut self, pressed: &[PadButton], just_pressed: &[PadButton])
        ensures
            final(self)@.pressed == pressed@.to_set(),
            final(self)@.just_pressed == just_pressed@.to_set(),
            final(self)@.just_released == old(self)@.just_released,
    {
        self.pressed = ButtonSet::from_buttons(pressed);
        self.just_pressed = ButtonSet::from_buttons(just_pressed);
    }
}

/// What the manager holds: its bindings, the state readers see, and the
/// buttons held at the last aggregation.
pub struct InputManagerView {
    pub bindings: Map<PadButton, Seq<Raw>>,
    pub state: InputStateView,
    pub previous: Set<PadButton>,
}

/// Aggregated input for one fixed tick.
pub struct InputManager {
    bindings: Bindings,
    state: InputState,
    previous: ButtonSet,
}

impl View for InputManager {
    type V = InputManagerView;

    closed spec fn view(&self) -> InputManagerView {
        InputManagerView { bindings: self.bindings@, state: self.state@, previous: self.previous@ }
    }
}

impl InputManager {
    /// A manager over the given bindings, with nothing held yet.
    pub fn with_bindings(bindings: Bindings) -> (m: InputManager)
        ensures
            m@.bindings == bindings@,
            m@.state.pressed == Set::<PadButton>::empty(),
            m@.state.just_pressed == Set::<PadButton>::empty(),
            m@.state.just_released == Set::<PadButton>::empty(),
            m@.previous == Set::<PadButton>::empty(),
    {
        InputManager { bindings, state: InputState::new(), previous: ButtonSet::new() }
    }

    /// The shipped defaults.
    pub fn standard() -> (m: InputManager)
        ensures
            m@.bindings == standard_bindings(),
            m@.state.pressed == Set::<PadButton>::empty(),
            m@.state.just_pressed == Set::<PadButton>::empty(),
            m@.state.just_released == Set::<PadButton>::empty(),
            m@.previous == Set::<PadButton>::empty(),
    {
        InputManager::with_bindings(Bindings::standard())
    }

    /// A standard manager whose state claims these buttons were just
    /// pressed (and are held); drives readers without devices.
    pub fn with_just_pressed(buttons: &[PadButton]) -> (m: InputManager)
        ensures
            m@.bindings == standard_bindings(),
            m@.state.pressed == buttons@.to_set(),
            m@.state.just_pressed == buttons@.to_set(),
            m@.state.just_released == Set::<PadButton>::empty(),
            m@.previous == Set::<PadButton>::empty(),
    {
        let mut m = InputManager::standard();
        m.state.inject(buttons, buttons);
        m
    }

    /// The manager's bindings.
    pub fn bindings(&self) -> (b: &Bindings)
        ensures
            b@ == self@.bindings,
    {
        &self.bindings
    }

    /// The state readers see.
    pub fn state(&self) -> (s: &InputState)
        ensures
            s@ == self@.state,
    {
        &self.state
    }

    /// Whether the button is held this tick.
    pub fn pressed(&self, button: PadButton) -> (r: bool)
        ensures
            r == self@.state.pressed.contains(button),
    {
        self.state.pressed(button)
    }

    /// Whether the button went down this tick.
    pub fn just_pressed(&self, button: PadButton) -> (r: bool)
        ensures
            r == self@.state.just_pressed.contains(button),
    {
        self.state.just_pressed(button)
    }

    /// Rebuilds the state from the raw inputs held this tick: a button is
    /// held when any of its bound inputs is, and edges are diffed against
    /// the previous aggregation, so each tick sees each press once.
    pub fn aggregate(&mut self, held: &[Raw])
        ensures
            final(self)@.bindings == old(self)@.bindings,
            final(self)@.state == tick(old(self)@.previous, active_buttons(old(self)@.bindings, held@)),
            final(self)@.previous == active_buttons(old(self)@.bindings, held@),
    {
        let pressed = self.bindings.active(held);
        let just_pressed = pressed.minus(&self.previous);
        let just_released = self.previous.minus(&pressed);
        self.previous = pressed.minus(&ButtonSet::new());
        assert(self.previous@ =~= pressed@);
        self.state = InputState { pressed, just_pressed, just_released };
    }
}

/// Input injected by request files: buttons held until released, plus
/// this scan's press and release edges.
pub struct InjectedInputs {
    pub held: ButtonSet,
    pub just_pressed: ButtonSet,
    pub just_released: ButtonSet,
}

/// The injected layer as sets.
pub struct InjectedView {
    pub held: Set<PadButton>,
    pub just_pressed: Set<PadButton>,
    pub just_released: Set<PadButton>,
}

/// The three kinds of input request.
pub enum RequestKind {
    Hold,
    Release,
    Tap,
}

/// One request applied to the injected layer: a hold presses (with an
/// edge if the button was up), a release lifts (with an edge if it was
/// held), a tap fires a press edge for this scan only; an unknown action
/// changes nothing.
pub open spec fn serve_one(s: InjectedView, kind: RequestKind, name: Seq<char>) -> InjectedView {
    match PadButton::named(name) {
        None => s,
        Some(b) => match kind {
            RequestKind::Hold => if s.held.contains(b) {
                s
            } else {
                InjectedView { held: s.held.insert(b), just_pressed: s.just_pressed.insert(b), ..s }
            },
            RequestKind::Release => if s.held.contains(b) {
                InjectedView { held: s.held.remove(b), just_released: s.just_released.insert(b), ..s }
            } else {
                s
            },
            RequestKind::Tap => InjectedView { just_pressed: s.just_pressed.insert(b), ..s },
        },
    }
}

/// Requests of one kind applied in order.
pub open spec fn serve_all(s: InjectedView, kind: RequestKind, names: Seq<Seq<char>>) -> InjectedView
    decreases names.len(),
{
    if names.len() == 0 {
        s
    } else {
        serve_one(serve_all(s, kind, names.drop_last()), kind, names.last())
    }
}

/// The names among `names` that are no action.
pub open spec fn unknown_actions(names: Seq<Seq<char>>) -> Seq<Seq<char>>
    decreases names.len(),
{
    if names.len() == 0 {
        seq![]
    } else if PadButton::named(names.last()) is None {
        unknown_actions(names.drop_last()).push(names.last())
    } else {
        unknown_actions(names.drop_last())
    }
}

/// One scan of request files: last scan's edges clear, then holds,
/// releases, and taps apply, taps last so a hold and a tap in the same
/// scan still read as an edge.
pub open spec fn scan(
    s: InjectedView,
    holds: Seq<Seq<char>>,
    releases: Seq<Seq<char>>,
    taps: Seq<Seq<char>>,
) -> InjectedView {
    let cleared = InjectedView {
        held: s.held,
        just_pressed: Set::empty(),
        just_released: Set::empty(),
    };
    serve_all(
        serve_all(serve_all(cleared, RequestKind::Hold, holds), RequestKind::Release, releases),
        RequestKind::Tap,
        taps,
    )
}

/// Edges injected by request files last one scan: a scan with no
/// requests clears them and keeps every hold.
pub proof fn lemma_injected_edges_last_one_scan(s: InjectedView)
    ensures
        scan(s, seq![], seq![], seq![]) == (InjectedView {
            held: s.held,
            just_pressed: Set::<PadButton>::empty(),
            just_released: Set::<PadButton>::empty(),
        }),
{
}

/// A hold persists until its release: holding an action presses it with
/// a press edge when it was up, a later scan without requests keeps it
/// held, and releasing it then lifts it with a release edge.
pub proof fn lemma_hold_until_release(s: InjectedView, name: Seq<char>)
    requires
        PadButton::named(name) is Some,
    ensures
        ({
            let b = PadButton::named(name)->0;
            let held = scan(s, seq![name], seq![], seq![]);
            let kept = scan(held, seq![], seq![], seq![]);
            let released = scan(kept, seq![], seq![name], seq![]);
            &&& held.held.contains(b)
            &&& !s.held.contains(b) ==> held.just_pressed.contains(b)
            &&& kept.held.contains(b)
            &&& !released.held.contains(b)
            &&& released.just_released.contains(b)
        }),
{
    let b = PadButton::named(name)->0;
    let one = seq![name];
    let none = Seq::<Seq<char>>::empty();
    assert(one.drop_last() =~= none);
    assert(one.last() == name);
    let cleared = InjectedView {
        held: s.held,
        just_pressed: Set::<PadButton>::empty(),
        just_released: Set::<PadButton>::empty(),
    };
    assert(serve_all(cleared, RequestKind::Hold, none) == cleared);
    assert(serve_all(cleared, RequestKind::Hold, one) == serve_one(cleared, RequestKind::Hold, name));
    let held = scan(s, one, none, none);
    assert(held == serve_one(cleared, RequestKind::Hold, name));
    assert(held.held.contains(b));
    let kept = scan(held, none, none, none);
    assert(kept.held == held.held);
    let cleared2 = InjectedView {
        held: kept.held,
        just_pressed: Set::<PadButton>::empty(),
        just_released: Set::<PadButton>::empty(),
    };
    assert(serve_all(cleared2, RequestKind::Release, none) == cleared2);
    assert(serve_all(cleared2, RequestKind::Release, one) == serve_one(cleared2, RequestKind::Release, name));
    let released = scan(kept, none, one, none);
    assert(released == serve_one(cleared2, RequestKind::Release, name));
}

/// The text of each string.
pub open spec fn texts(v: Seq<String>) -> Seq<Seq<char>> {
    v.map_values(|s: String| s@)
}

impl View for InjectedInputs {
    type V = InjectedView;

    open spec fn view(&self) -> InjectedView {
        InjectedView { held: self.held@, just_pressed: self.just_pressed@, just_released: self.just_released@ }
    }
}

impl InjectedInputs {
    /// Nothing injected.
    pub fn new() -> (s: InjectedInputs)
        ensures
            s@.held == Set::<PadButton>::empty(),
            s@.just_pressed == Set::<PadButton>::empty(),
            s@.just_released == Set::<PadButton>::empty(),
    {
        InjectedInputs {
            held: ButtonSet::new(),
            just_pressed: ButtonSet::new(),
            just_released: ButtonSet::new(),
        }
    }

    /// Applies requests of one kind in order, appending the unknown
    /// action names to `unknown`.
    fn serve(&mut self, kind: RequestKind, names: &[String], unknown: &mut Vec<String>)
        ensures
            final(self)@ == serve_all(old(self)@, kind, texts(names@)),
            texts(final(unknown)@) == texts(old(unknown)@) + unknown_actions(texts(names@)),
    {
        let ghost start = self@;
        let ghost start_unknown = texts(unknown@);
        let ghost nt = texts(names@);
        let mut i: usize = 0;
        assert(nt.take(0) =~= Seq::<Seq<char>>::empty());
        assert(start_unknown + unknown_actions(nt.take(0)) =~= start_unknown);
        while i < names.len()
            invariant
                i <= names@.len(),
                nt == texts(names@),
                nt.len() == names@.len(),
                self@ == serve_all(start, kind, nt.take(i as int)),
                texts(unknown@) == start_unknown + unknown_actions(nt.take(i as int)),
            decreases names@.len() - i,
        {
            assert(nt.take(i + 1).drop_last() =~= nt.take(i as int));
            assert(nt.take(i + 1).last() == names@[i as int]@);
            let name = &names[i];
            match PadButton::from_config(name.as_str()) {
                Some(b) => {
                    match kind {
                        RequestKind::Hold => {
                            if self.held.insert(b) {
                                self.just_pressed.insert(b);
                            }
                        },
                        RequestKind::Release => {
                            if self.held.remove(b) {
                                self.just_released.insert(b);
                            }
                        },
                        RequestKind::Tap => {
                            self.just_pressed.insert(b);
                        },
                    }
                    assert(self@.held =~= serve_all(start, kind, nt.take(i + 1)).held);
                    assert(self@.just_pressed =~= serve_all(start, kind, nt.take(i + 1)).just_pressed);
                    assert(self@.just_released =~= serve_all(start, kind, nt.take(i + 1)).just_released);
                },
                None => {
                    let ghost before = texts(unknown@);
                    unknown.push(name.clone());
                    assert(texts(unknown@) =~= before.push(name@));
                    assert(texts(unknown@) =~= start_unknown + unknown_actions(nt.take(i + 1)));
                },
            }
            i = i + 1;
        }
        assert(nt.take(names@.len() as int) =~= nt);
    }
}

/// Serves one scan of `hold-`, `release-` and `tap-` requests (the
/// action names, each list in the order the files were found) against
/// the injected layer. Returns the names that are no action, in the
/// order served, so the caller can warn about them.
pub fn check_input_requests(
    injected: &mut InjectedInputs,
    holds: &[String],
    releases: &[String],
    taps: &[String],
) -> (unknown: Vec<String>)
    ensures
        final(injected)@ == scan(old(injected)@, texts(holds@), texts(releases@), texts(taps@)),
        texts(unknown@) == unknown_actions(texts(holds@)) + unknown_actions(texts(releases@))
            + unknown_actions(texts(taps@)),
{
    injected.just_pressed.clear();
    injected.just_released.clear();
    let mut unknown: Vec<String> = Vec::new();
    assert(texts(unknown@) =~= Seq::<Seq<char>>::empty());
    injected.serve(RequestKind::Hold, holds, &mut unknown);
    injected.serve(RequestKind::Release, releases, &mut unknown);
    injected.serve(RequestKind::Tap, taps, &mut unknown);
    assert(texts(unknown@) =~= unknown_actions(texts(holds@)) + unknown_actions(texts(releases@))
        + unknown_actions(texts(taps@)));
    unknown
}

} // verus!
