//! Action bindings: which physical inputs press which pad button.

use vstd::prelude::*;

use crate::input::{BUTTON_COUNT, ButtonSet, PadButton, lemma_index_round_trip};
use crate::keys::{KeyCode, Raw, raw_named};

verus! {

/// Action → physical bindings.
pub struct Bindings {
    slots: Vec<Option<Vec<Raw>>>,
}

impl View for Bindings {
    type V = Map<PadButton, Seq<Raw>>;

    closed spec fn view(&self) -> Map<PadButton, Seq<Raw>> {
        Map::new(
            |b: PadButton| self.slots@[b.index_of() as int] is Some,
            |b: PadButton| self.slots@[b.index_of() as int]->0@,
        )
    }
}

/// The shipped default bindings, mirrored by the input config file.
pub open spec fn standard_bindings() -> Map<PadButton, Seq<Raw>> {
    Map::empty().insert(
        PadButton::Cross,
        seq![Raw::Key(KeyCode::KeyZ), Raw::Key(KeyCode::Enter), Raw::Pad(PadButton::Cross)],
    ).insert(PadButton::Circle, seq![Raw::Key(KeyCode::KeyX), Raw::Pad(PadButton::Circle)]).insert(
        PadButton::Triangle,
        seq![Raw::Key(KeyCode::KeyI), Raw::Pad(PadButton::Triangle)],
    ).insert(PadButton::Square, seq![Raw::Key(KeyCode::KeyC), Raw::Pad(PadButton::Square)]).insert(
        PadButton::DPadUp,
        seq![Raw::Key(KeyCode::KeyW), Raw::Key(KeyCode::ArrowUp), Raw::Pad(PadButton::DPadUp)],
    ).insert(
        PadButton::DPadDown,
        seq![Raw::Key(KeyCode::KeyS), Raw::Key(KeyCode::ArrowDown), Raw::Pad(PadButton::DPadDown)],
    ).insert(
        PadButton::DPadLeft,
        seq![Raw::Key(KeyCode::KeyA), Raw::Key(KeyCode::ArrowLeft), Raw::Pad(PadButton::DPadLeft)],
    ).insert(
        PadButton::DPadRight,
        seq![
            Raw::Key(KeyCode::KeyD),
            Raw::Key(KeyCode::ArrowRight),
            Raw::Pad(PadButton::DPadRight),
        ],
    ).insert(PadButton::L1, seq![Raw::Key(KeyCode::KeyQ), Raw::Pad(PadButton::L1)]).insert(
        PadButton::R1,
        seq![Raw::Key(KeyCode::KeyE), Raw::Pad(PadButton::R1)],
    ).insert(PadButton::L2, seq![Raw::Pad(PadButton::L2)]).insert(
        PadButton::R2,
        seq![
            Raw::Key(KeyCode::ShiftLeft),
            Raw::Key(KeyCode::ShiftRight),
            Raw::Pad(PadButton::R2),
        ],
    ).insert(PadButton::L3, seq![Raw::Pad(PadButton::L3)]).insert(
        PadButton::R3,
        seq![Raw::Pad(PadButton::R3)],
    ).insert(PadButton::Start, seq![Raw::Pad(PadButton::Start)]).insert(
        PadButton::Select,
        seq![Raw::Pad(PadButton::Select)],
    )
}

/// The usable raw inputs among binding values, in order.
pub open spec fn parsed_raws(raws: Seq<Seq<char>>) -> Seq<Raw>
    decreases raws.len(),
{
    if raws.len() == 0 {
        seq![]
    } else {
        let rest = parsed_raws(raws.drop_last());
        match raw_named(raws.last()) {
            Some(r) => rest.push(r),
            None => rest,
        }
    }
}

/// How many binding values name no raw input.
pub open spec fn unusable_raws(raws: Seq<Seq<char>>) -> nat
    decreases raws.len(),
{
    if raws.len() == 0 {
        0
    } else {
        unusable_raws(raws.drop_last()) + if raws_named_nothing(raws.last()) {
            1nat
        } else {
            0nat
        }
    }
}

/// Whether a binding value names no raw input.
pub open spec fn raws_named_nothing(raw: Seq<char>) -> bool {
    raw_named(raw) is None
}

/// Whether an entry's binding values are all unusable (and there is at
/// least one), so the action keeps its standard binding.
pub open spec fn falls_back(raws: Seq<Seq<char>>) -> bool {
    raws.len() > 0 && parsed_raws(raws).len() == 0
}

/// Every button has a standard binding.
proof fn lemma_standard_binds_every_button(b: PadButton)
    ensures
        standard_bindings().contains_key(b),
{
}

/// The bindings an input config's entries describe (action name →
/// binding values, in the order they are read), plus how many entries or
/// values were unusable. Every action starts from its standard binding;
/// an entry for a known action replaces it with the usable values listed
/// (an unknown value skips that value), but an entry whose values are all
/// unusable falls back to the action's standard binding; an unknown
/// action skips its whole entry, so nothing changes for it; a later entry
/// for the same action replaces an earlier one.
pub open spec fn parsed_config(entries: Seq<(Seq<char>, Seq<Seq<char>>)>) -> (
    Map<PadButton, Seq<Raw>>,
    nat,
)
    decreases entries.len(),
{
    if entries.len() == 0 {
        (standard_bindings(), 0)
    } else {
        let (m, k) = parsed_config(entries.drop_last());
        let (action, raws) = entries.last();
        match PadButton::named(action) {
            None => (m, k + 1),
            Some(b) => if falls_back(raws) {
                (m.insert(b, standard_bindings()[b]), k + unusable_raws(raws))
            } else {
                (m.insert(b, parsed_raws(raws)), k + unusable_raws(raws))
            },
        }
    }
}

/// Every action the config leaves unmentioned keeps its standard
/// binding: an empty config is the standard bindings, and entries for
/// other (or unknown) actions never touch it.
pub proof fn lemma_unmentioned_actions_keep_standard(entries: Seq<(Seq<char>, Seq<Seq<char>>)>, b: PadButton)
    requires
        forall|i: int| 0 <= i < entries.len() ==> PadButton::named(#[trigger] entries[i].0) != Some(b),
    ensures
        parsed_config(entries).0.contains_key(b) == standard_bindings().contains_key(b),
        parsed_config(entries).0.contains_key(b) ==> parsed_config(entries).0[b] == standard_bindings()[b],
    decreases entries.len(),
{
    if entries.len() > 0 {
        let rest = entries.drop_last();
        assert forall|i: int| 0 <= i < rest.len() implies PadButton::named(#[trigger] rest[i].0) != Some(b) by {
            assert(rest[i] == entries[i]);
        }
        lemma_unmentioned_actions_keep_standard(rest, b);
        assert(PadButton::named(entries[entries.len() - 1].0) != Some(b));
    }
}

/// An entry for a known action whose binding values are all unknown
/// names warns (each counts as skipped) and keeps the action's standard
/// binding.
pub proof fn lemma_unusable_entry_keeps_standard(
    entries: Seq<(Seq<char>, Seq<Seq<char>>)>,
    action: Seq<char>,
    raws: Seq<Seq<char>>,
)
    requires
        PadButton::named(action) is Some,
        raws.len() > 0,
        forall|i: int| 0 <= i < raws.len() ==> raw_named(#[trigger] raws[i]) is None,
    ensures
        parsed_config(entries.push((action, raws))).0[PadButton::named(action)->0] == standard_bindings()[PadButton::named(
            action,
        )->0],
        parsed_config(entries.push((action, raws))).1 == parsed_config(entries).1 + raws.len(),
{
    lemma_nothing_usable(raws);
    assert(entries.push((action, raws)).drop_last() =~= entries);
}

/// Values that are all unknown names parse to nothing and all count as
/// unusable.
proof fn lemma_nothing_usable(raws: Seq<Seq<char>>)
    requires
        forall|i: int| 0 <= i < raws.len() ==> raw_named(#[trigger] raws[i]) is None,
    ensures
        parsed_raws(raws).len() == 0,
        unusable_raws(raws) == raws.len(),
    decreases raws.len(),
{
    if raws.len() > 0 {
        let rest = raws.drop_last();
        assert forall|i: int| 0 <= i < rest.len() implies raw_named(#[trigger] rest[i]) is None by {
            assert(rest[i] == raws[i]);
        }
        lemma_nothing_usable(rest);
        assert(raw_named(raws[raws.len() - 1]) is None);
    }
}

/// How many things an input config lists: its entries plus all their
/// binding values.
pub open spec fn config_size(entries: Seq<(Seq<char>, Seq<Seq<char>>)>) -> nat
    decreases entries.len(),
{
    if entries.len() == 0 {
        0
    } else {
        config_size(entries.drop_last()) + 1 + entries.last().1.len()
    }
}

/// Each unusable value is one of the values.
proof fn lemma_unusable_bound(raws: Seq<Seq<char>>)
    ensures
        unusable_raws(raws) <= raws.len(),
    decreases raws.len(),
{
    if raws.len() > 0 {
        lemma_unusable_bound(raws.drop_last());
    }
}

/// The skipped count never exceeds what the config lists.
pub proof fn lemma_skipped_bound(entries: Seq<(Seq<char>, Seq<Seq<char>>)>)
    ensures
        parsed_config(entries).1 <= config_size(entries),
    decreases entries.len(),
{
    if entries.len() > 0 {
        lemma_skipped_bound(entries.drop_last());
        lemma_unusable_bound(entries.last().1);
    }
}

/// A config's prefix lists no more than the config.
proof fn lemma_config_size_prefix(entries: Seq<(Seq<char>, Seq<Seq<char>>)>, i: int)
    requires
        0 <= i <= entries.len(),
    ensures
        config_size(entries.take(i)) <= config_size(entries),
    decreases entries.len(),
{
    if i < entries.len() {
        lemma_config_size_prefix(entries.drop_last(), i);
        assert(entries.drop_last().take(i) =~= entries.take(i));
    } else {
        assert(entries.take(i) =~= entries);
    }
}

/// An input config entry as text.
pub open spec fn entry_text(e: (String, Vec<String>)) -> (Seq<char>, Seq<Seq<char>>) {
    (e.0@, e.1@.map_values(|s: String| s@))
}

/// The entries of an input config as text.
pub open spec fn entries_text(entries: Seq<(String, Vec<String>)>) -> Seq<(Seq<char>, Seq<Seq<char>>)> {
    entries.map_values(|e: (String, Vec<String>)| entry_text(e))
}

proof fn lemma_unusable_prefix(raws: Seq<Seq<char>>, j: int)
    requires
        0 <= j <= raws.len(),
    ensures
        unusable_raws(raws.take(j)) <= unusable_raws(raws),
    decreases raws.len(),
{
    if j < raws.len() {
        lemma_unusable_prefix(raws.drop_last(), j);
        assert(raws.drop_last().take(j) =~= raws.take(j));
    } else {
        assert(raws.take(j) =~= raws);
    }
}

proof fn lemma_skipped_prefix(entries: Seq<(Seq<char>, Seq<Seq<char>>)>, i: int)
    requires
        0 <= i <= entries.len(),
    ensures
        parsed_config(entries.take(i)).1 <= parsed_config(entries).1,
    decreases entries.len(),
{
    if i < entries.len() {
        lemma_skipped_prefix(entries.drop_last(), i);
        assert(entries.drop_last().take(i) =~= entries.take(i));
    } else {
        assert(entries.take(i) =~= entries);
    }
}

/// Whether some input bound in `raws` is held.
pub open spec fn any_held(raws: Seq<Raw>, held: Seq<Raw>) -> bool {
    exists|i: int| 0 <= i < raws.len() && held.contains(#[trigger] raws[i])
}

/// The buttons whose bindings include a held input.
pub open spec fn active_buttons(bindings: Map<PadButton, Seq<Raw>>, held: Seq<Raw>) -> Set<PadButton> {
    Set::new(|b: PadButton| bindings.contains_key(b) && any_held(bindings[b], held))
}

impl Bindings {
    #[verifier::type_invariant]
    spec fn well_formed(self) -> bool {
        self.slots@.len() == BUTTON_COUNT
    }

    fn only(r: Raw) -> (v: Vec<Raw>)
        ensures
            v@ == seq![r],
    {
        let mut v: Vec<Raw> = Vec::new();
        v.push(r);
        v
    }

    fn empty_slots() -> (slots: Vec<Option<Vec<Raw>>>)
        ensures
            slots@.len() == BUTTON_COUNT,
            forall|i: int| 0 <= i < BUTTON_COUNT ==> slots@[i] is None,
    {
        let mut slots: Vec<Option<Vec<Raw>>> = Vec::new();
        let mut i: usize = 0;
        while i < BUTTON_COUNT
            invariant
                i <= BUTTON_COUNT,
                slots@.len() == i,
                forall|j: int| 0 <= j < i ==> slots@[j] is None,
            decreases BUTTON_COUNT - i,
        {
            slots.push(None);
            i = i + 1;
        }
        slots
    }

    /// No bindings at all.
    pub fn new() -> (b: Bindings)
        ensures
            b@ == Map::<PadButton, Seq<Raw>>::empty(),
    {
        let b = Bindings { slots: Bindings::empty_slots() };
        assert(b@ =~= Map::<PadButton, Seq<Raw>>::empty());
        b
    }

    /// Binds `button` to exactly `raws`, replacing what it had.
    pub fn bind(&mut self, button: PadButton, raws: &[Raw])
        ensures
            final(self)@ == old(self)@.insert(button, raws@),
    {
        let mut copy: Vec<Raw> = Vec::new();
        let mut i: usize = 0;
        while i < raws.len()
            invariant
                i <= raws@.len(),
                copy@ == raws@.take(i as int),
            decreases raws@.len() - i,
        {
            copy.push(raws[i]);
            assert(raws@.take(i + 1) =~= raws@.take(i as int).push(raws@[i as int]));
            i = i + 1;
        }
        assert(raws@.take(raws@.len() as int) =~= raws@);
        self.set_slot(button, copy);
    }

    /// Replaces one button's slot.
    fn set_slot(&mut self, button: PadButton, raws: Vec<Raw>)
        ensures
            final(self)@ == old(self)@.insert(button, raws@),
    {
        proof {
            use_type_invariant(&*self);
        }
        let ghost before = self@;
        let ghost old_slots = self.slots@;
        let mut slots = Bindings::empty_slots();
        std::mem::swap(&mut self.slots, &mut slots);
        let i = button.index();
        slots.set(i, Some(raws));
        std::mem::swap(&mut self.slots, &mut slots);
        proof {
            assert(self.slots@ == old_slots.update(i as int, Some(raws)));
            assert forall|c: PadButton| #[trigger] self@.contains_key(c) == before.insert(button, raws@).contains_key(c) by {
                lemma_index_round_trip(c, 0);
                lemma_index_round_trip(button, 0);
            }
            assert forall|c: PadButton| #[trigger] self@.contains_key(c) implies self@[c] == before.insert(button, raws@)[c] by {
                lemma_index_round_trip(c, 0);
                lemma_index_round_trip(button, 0);
            }
            assert(self@ =~= before.insert(button, raws@));
        }
    }

    /// The inputs bound to `button`, if it has an entry.
    pub fn bound(&self, button: PadButton) -> (r: Option<&Vec<Raw>>)
        ensures
            match r {
                Some(v) => self@.contains_key(button) && v@ == self@[button],
                None => !self@.contains_key(button),
            },
    {
        proof {
            use_type_invariant(self);
        }
        self.slots[button.index()].as_ref()
    }

    /// The shipped defaults, mirrored by the input config file.
    pub fn standard() -> (b: Bindings)
        ensures
            b@ == standard_bindings(),
    {
        let mut bindings = Bindings::new();
        let ghost mut m = Map::<PadButton, Seq<Raw>>::empty();
        bindings.set_slot(PadButton::Cross, vec![Raw::Key(KeyCode::KeyZ), Raw::Key(KeyCode::Enter), Raw::Pad(PadButton::Cross)]);
        proof {
            m = m.insert(PadButton::Cross, seq![Raw::Key(KeyCode::KeyZ), Raw::Key(KeyCode::Enter), Raw::Pad(PadButton::Cross)]);
        }
        assert(bindings@ == m);
        bindings.set_slot(PadButton::Circle, vec![Raw::Key(KeyCode::KeyX), Raw::Pad(PadButton::Circle)]);
        proof {
            m = m.insert(PadButton::Circle, seq![Raw::Key(KeyCode::KeyX), Raw::Pad(PadButton::Circle)]);
        }
        assert(bindings@ == m);
        bindings.set_slot(PadButton::Triangle, vec![Raw::Key(KeyCode::KeyI), Raw::Pad(PadButton::Triangle)]);
        proof {
            m = m.insert(PadButton::Triangle, seq![Raw::Key(KeyCode::KeyI), Raw::Pad(PadButton::Triangle)]);
        }
        assert(bindings@ == m);
        bindings.set_slot(PadButton::Square, vec![Raw::Key(KeyCode::KeyC), Raw::Pad(PadButton::Square)]);
        proof {
            m = m.insert(PadButton::Square, seq![Raw::Key(KeyCode::KeyC), Raw::Pad(PadButton::Square)]);
        }
        assert(bindings@ == m);
        bindings.set_slot(PadButton::DPadUp, vec![Raw::Key(KeyCode::KeyW), Raw::Key(KeyCode::ArrowUp), Raw::Pad(PadButton::DPadUp)]);
        proof {
            m = m.insert(PadButton::DPadUp, seq![Raw::Key(KeyCode::KeyW), Raw::Key(KeyCode::ArrowUp), Raw::Pad(PadButton::DPadUp)]);
        }
        assert(bindings@ == m);
        bindings.set_slot(PadButton::DPadDown, vec![
                Raw::Key(KeyCode::KeyS),
                Raw::Key(KeyCode::ArrowDown),
                Raw::Pad(PadButton::DPadDown),
            ]);
        proof {
            m = m.insert(PadButton::DPadDown, seq![
                Raw::Key(KeyCode::KeyS),
                Raw::Key(KeyCode::ArrowDown),
                Raw::Pad(PadButton::DPadDown),
            ]);
        }
        assert(bindings@ == m);
        bindings.set_slot(PadButton::DPadLeft, vec![
                Raw::Key(KeyCode::KeyA),
                Raw::Key(KeyCode::ArrowLeft),
                Raw::Pad(PadButton::DPadLeft),
            ]);
        proof {
            m = m.insert(PadButton::DPadLeft, seq![
                Raw::Key(KeyCode::KeyA),
                Raw::Key(KeyCode::ArrowLeft),
                Raw::Pad(PadButton::DPadLeft),
            ]);
        }
        assert(bindings@ == m);
        bindings.set_slot(PadButton::DPadRight, vec![
                Raw::Key(KeyCode::KeyD),
                Raw::Key(KeyCode::ArrowRight),
                Raw::Pad(PadButton::DPadRight),
            ]);
        proof {
            m = m.insert(PadButton::DPadRight, seq![
                Raw::Key(KeyCode::KeyD),
                Raw::Key(KeyCode::ArrowRight),
                Raw::Pad(PadButton::DPadRight),
            ]);
        }
        assert(bindings@ == m);
        bindings.set_slot(PadButton::L1, vec![Raw::Key(KeyCode::KeyQ), Raw::Pad(PadButton::L1)]);
        proof {
            m = m.insert(PadButton::L1, seq![Raw::Key(KeyCode::KeyQ), Raw::Pad(PadButton::L1)]);
        }
        assert(bindings@ == m);
        bindings.set_slot(PadButton::R1, vec![Raw::Key(KeyCode::KeyE), Raw::Pad(PadButton::R1)]);
        proof {
            m = m.insert(PadButton::R1, seq![Raw::Key(KeyCode::KeyE), Raw::Pad(PadButton::R1)]);
        }
        assert(bindings@ == m);
        bindings.set_slot(PadButton::L2, Bindings::only(Raw::Pad(PadButton::L2)));
        proof {
            m = m.insert(PadButton::L2, seq![Raw::Pad(PadButton::L2)]);
        }
        assert(bindings@ == m);
        bindings.set_slot(PadButton::R2, vec![
                Raw::Key(KeyCode::ShiftLeft),
                Raw::Key(KeyCode::ShiftRight),
                Raw::Pad(PadButton::R2),
            ]);
        proof {
            m = m.insert(PadButton::R2, seq![
                Raw::Key(KeyCode::ShiftLeft),
                Raw::Key(KeyCode::ShiftRight),
                Raw::Pad(PadButton::R2),
            ]);
        }
        assert(bindings@ == m);
        bindings.set_slot(PadButton::L3, Bindings::only(Raw::Pad(PadButton::L3)));
        proof {
            m = m.insert(PadButton::L3, seq![Raw::Pad(PadButton::L3)]);
        }
        assert(bindings@ == m);
        bindings.set_slot(PadButton::R3, Bindings::only(Raw::Pad(PadButton::R3)));
        proof {
            m = m.insert(PadButton::R3, seq![Raw::Pad(PadButton::R3)]);
        }
        assert(bindings@ == m);
        bindings.set_slot(PadButton::Start, Bindings::only(Raw::Pad(PadButton::Start)));
        proof {
            m = m.insert(PadButton::Start, seq![Raw::Pad(PadButton::Start)]);
        }
        assert(bindings@ == m);
        bindings.set_slot(PadButton::Select, Bindings::only(Raw::Pad(PadButton::Select)));
        proof {
            m = m.insert(PadButton::Select, seq![Raw::Pad(PadButton::Select)]);
        }
        assert(bindings@ == m);
        assert(bindings@ == standard_bindings());
        bindings
    }

    /// Reads an input config's entries (action name → binding values, in
    /// the order the config lists them) over the standard bindings,
    /// returning the bindings and how many entries or values were
    /// unusable and skipped (see [`parsed_config`]).
    pub fn parse_config(entries: &[(String, Vec<String>)]) -> (r: (Bindings, usize))
        requires
            parsed_config(entries_text(entries@)).1 <= usize::MAX,
        ensures
            r.0@ == parsed_config(entries_text(entries@)).0,
            r.1 == parsed_config(entries_text(entries@)).1,
    {
        let ghost et = entries_text(entries@);
        let standard = Bindings::standard();
        let mut bindings = Bindings::standard();
        let mut skipped: usize = 0;
        let mut i: usize = 0;
        assert(et.take(0) =~= Seq::<(Seq<char>, Seq<Seq<char>>)>::empty());
        while i < entries.len()
            invariant
                i <= entries@.len(),
                et == entries_text(entries@),
                et.len() == entries@.len(),
                parsed_config(et).1 <= usize::MAX,
                standard@ == standard_bindings(),
                bindings@ == parsed_config(et.take(i as int)).0,
                skipped == parsed_config(et.take(i as int)).1,
            decreases entries@.len() - i,
        {
            let ghost before = et.take(i as int);
            assert(et.take(i + 1).drop_last() =~= before);
            assert(et.take(i + 1).last() == entry_text(entries@[i as int]));
            proof {
                lemma_skipped_prefix(et, i + 1);
            }
            let action = &entries[i].0;
            let raws = &entries[i].1;
            match PadButton::from_config(action.as_str()) {
                None => {
                    skipped = skipped + 1;
                },
                Some(b) => {
                    let ghost rt = raws@.map_values(|s: String| s@);
                    let ghost base = skipped as nat;
                    let mut parsed: Vec<Raw> = Vec::new();
                    let mut j: usize = 0;
                    assert(rt.take(0) =~= Seq::<Seq<char>>::empty());
                    while j < raws.len()
                        invariant
                            j <= raws@.len(),
                            rt == raws@.map_values(|s: String| s@),
                            rt.len() == raws@.len(),
                            base + unusable_raws(rt) <= usize::MAX,
                            parsed@ == parsed_raws(rt.take(j as int)),
                            skipped == base + unusable_raws(rt.take(j as int)),
                        decreases raws@.len() - j,
                    {
                        assert(rt.take(j + 1).drop_last() =~= rt.take(j as int));
                        assert(rt.take(j + 1).last() == raws@[j as int]@);
                        proof {
                            lemma_unusable_prefix(rt, j + 1);
                        }
                        match Raw::from_config(raws[j].as_str()) {
                            Some(r) => {
                                parsed.push(r);
                            },
                            None => {
                                skipped = skipped + 1;
                            },
                        }
                        j = j + 1;
                    }
                    assert(rt.take(raws@.len() as int) =~= rt);
                    if raws.len() > 0 && parsed.len() == 0 {
                        proof {
                            lemma_standard_binds_every_button(b);
                        }
                        match standard.bound(b) {
                            Some(v) => bindings.bind(b, v.as_slice()),
                            None => {},
                        }
                    } else {
                        bindings.set_slot(b, parsed);
                    }
                },
            }
            i = i + 1;
        }
        assert(et.take(entries@.len() as int) =~= et);
        (bindings, skipped)
    }

    /// Reads an input config's entries like [`Self::parse_config`], after
    /// counting what the config lists: `None` when that count does not fit
    /// a `usize`, so the skipped count could not be held.
    pub fn parse_config_checked(entries: &[(String, Vec<String>)]) -> (r: Option<(Bindings, usize)>)
        ensures
            r is None <==> config_size(entries_text(entries@)) > usize::MAX,
            r matches Some(p) ==> p.0@ == parsed_config(entries_text(entries@)).0 && p.1 == parsed_config(
                entries_text(entries@),
            ).1,
    {
        let ghost et = entries_text(entries@);
        let mut total: usize = 0;
        let mut i: usize = 0;
        assert(et.take(0) =~= Seq::<(Seq<char>, Seq<Seq<char>>)>::empty());
        while i < entries.len()
            invariant
                i <= entries@.len(),
                et == entries_text(entries@),
                et.len() == entries@.len(),
                total == config_size(et.take(i as int)),
            decreases entries@.len() - i,
        {
            assert(et.take(i + 1).drop_last() =~= et.take(i as int));
            assert(et.take(i + 1).last() == entry_text(entries@[i as int]));
            proof {
                lemma_config_size_prefix(et, i + 1);
            }
            let step = entries[i].1.len();
            match total.checked_add(1) {
                None => {
                    return None;
                },
                Some(t) => match t.checked_add(step) {
                    None => {
                        return None;
                    },
                    Some(t2) => {
                        total = t2;
                    },
                },
            }
            i = i + 1;
        }
        assert(et.take(entries@.len() as int) =~= et);
        proof {
            lemma_skipped_bound(et);
        }
        Some(Bindings::parse_config(entries))
    }

    /// Whether any input bound in `raws` is held.
    fn any_raw_held(raws: &Vec<Raw>, held: &[Raw]) -> (r: bool)
        ensures
            r == any_held(raws@, held@),
    {
        let mut i: usize = 0;
        while i < raws.len()
            invariant
                i <= raws@.len(),
                forall|k: int| 0 <= k < i ==> !held@.contains(#[trigger] raws@[k]),
            decreases raws@.len() - i,
        {
            let mut j: usize = 0;
            while j < held.len()
                invariant
                    i < raws@.len(),
                    j <= held@.len(),
                    forall|k: int| 0 <= k < j ==> held@[k] != raws@[i as int],
                decreases held@.len() - j,
            {
                if held[j] == raws[i] {
                    assert(held@.contains(raws@[i as int]));
                    return true;
                }
                j = j + 1;
            }
            i = i + 1;
        }
        false
    }

    /// The buttons whose bindings include an input that is held.
    pub fn active(&self, held: &[Raw]) -> (r: ButtonSet)
        ensures
            r@ == active_buttons(self@, held@),
    {
        proof {
            use_type_invariant(self);
        }
        let mut set = ButtonSet::new();
        let mut i: usize = 0;
        while i < BUTTON_COUNT
            invariant
                i <= BUTTON_COUNT,
                self.slots@.len() == BUTTON_COUNT,
                forall|c: PadButton| #[trigger] set@.contains(c) <==> (c.index_of() < i
                    && active_buttons(self@, held@).contains(c)),
            decreases BUTTON_COUNT - i,
        {
            let b = PadButton::from_index(i);
            let hit = match &self.slots[i] {
                Some(raws) => Bindings::any_raw_held(raws, held),
                None => false,
            };
            if hit {
                set.insert(b);
            }
            proof {
                assert forall|c: PadButton| #[trigger] set@.contains(c) <==> (c.index_of() < i + 1
                    && active_buttons(self@, held@).contains(c)) by {
                    lemma_index_round_trip(c, i as nat);
                }
            }
            i = i + 1;
        }
        proof {
            assert forall|c: PadButton| #[trigger] set@.contains(c) <==> active_buttons(self@, held@).contains(c) by {
                lemma_index_round_trip(c, 0);
            }
            assert(set@ =~= active_buttons(self@, held@));
        }
        set
    }
}

} // verus!
