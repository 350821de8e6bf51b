//! The party: the world's roster of characters and who leads the field.
//!
//! The party starts empty; scripts populate it. The field body follows
//! the leader: whenever the resolvable leader changes, the body swaps to
//! that member's model; an empty or leader-less party wears the
//! placeholder capsule.

use vstd::prelude::*;

use crate::scene::{gltf_asset_path, model_file};
use crate::scripts::{PartyCommand, PartyCommandView, commands_view};

verus! {

/// One playable character: display name plus the model that
/// represents it.
pub struct Member {
    pub name: String,
    pub model: String,
}

/// A member as text: (name, model).
pub open spec fn member_view(m: Member) -> (Seq<char>, Seq<char>) {
    (m.name@, m.model@)
}

/// The roster as a map from member id, built entry by entry.
pub open spec fn roster_map(entries: Seq<(String, Member)>) -> Map<Seq<char>, (Seq<char>, Seq<char>)>
    decreases entries.len(),
{
    if entries.len() == 0 {
        Map::empty()
    } else {
        roster_map(entries.drop_last()).insert(entries.last().0@, member_view(entries.last().1))
    }
}

/// The party as values: roster, leader, and the leader whose body was
/// last put on the field.
pub struct PartyView {
    pub members: Map<Seq<char>, (Seq<char>, Seq<char>)>,
    pub leader: Option<Seq<char>>,
    pub applied: Option<Seq<char>>,
}

/// One roster change: adding a member (re)places it under its id,
/// removing one also clears the leader if it was them, and naming a
/// leader needs no member under that id yet.
pub open spec fn apply_one(p: PartyView, c: PartyCommandView) -> PartyView {
    match c {
        PartyCommandView::Add { id, name, model } => PartyView {
            members: p.members.insert(id, (name, model)),
            ..p
        },
        PartyCommandView::Remove { id } => PartyView {
            members: p.members.remove(id),
            leader: if p.leader == Some(id) {
                None
            } else {
                p.leader
            },
            ..p
        },
        PartyCommandView::Leader { id } => PartyView { leader: Some(id), ..p },
    }
}

/// Roster changes applied in call order.
pub open spec fn apply_all(p: PartyView, cs: Seq<PartyCommandView>) -> PartyView
    decreases cs.len(),
{
    if cs.len() == 0 {
        p
    } else {
        apply_one(apply_all(p, cs.drop_last()), cs.last())
    }
}

/// The leader the field should show: the leader, if they are a member.
pub open spec fn wanted(p: PartyView) -> Option<Seq<char>> {
    match p.leader {
        Some(id) => if p.members.contains_key(id) {
            Some(id)
        } else {
            None
        },
        None => None,
    }
}

/// How the field body has to change.
pub enum FieldChange {
    /// Queue this member's model (the file path, any sub-asset suffix
    /// dropped) for the field body.
    Wear { name: String, model: String },
    /// Drop any queued model and put the placeholder capsule back on.
    Capsule,
}

/// The world's roster of characters and the current field leader.
pub struct Party {
    members: Vec<(String, Member)>,
    leader: Option<String>,
    applied: Option<String>,
}

/// Applying two batches in turn is applying them joined.
pub proof fn lemma_apply_batches(p: PartyView, a: Seq<PartyCommandView>, b: Seq<PartyCommandView>)
    ensures
        apply_all(apply_all(p, a), b) == apply_all(p, a + b),
    decreases b.len(),
{
    if b.len() == 0 {
        assert(a + b =~= a);
    } else {
        lemma_apply_batches(p, a, b.drop_last());
        assert((a + b).drop_last() =~= a + b.drop_last());
        assert((a + b).last() == b.last());
    }
}

/// Removing the leader leaves the party leader-less.
pub proof fn lemma_removing_the_leader_clears_it(p: PartyView, id: Seq<char>)
    requires
        p.leader == Some(id),
    ensures
        apply_one(p, PartyCommandView::Remove { id }).leader is None,
        !apply_one(p, PartyCommandView::Remove { id }).members.contains_key(id),
        wanted(apply_one(p, PartyCommandView::Remove { id })) is None,
{
}

/// Leading someone who is not in the party yet takes effect once they
/// are added.
pub proof fn lemma_leader_takes_effect_when_added(
    p: PartyView,
    id: Seq<char>,
    name: Seq<char>,
    model: Seq<char>,
)
    requires
        !p.members.contains_key(id),
    ensures
        wanted(apply_one(p, PartyCommandView::Leader { id })) is None,
        wanted(
            apply_one(
                apply_one(p, PartyCommandView::Leader { id }),
                PartyCommandView::Add { id, name, model },
            ),
        ) == Some(id),
{
}

impl Party {
    #[verifier::type_invariant]
    spec fn well_formed(self) -> bool {
        forall|i: int, j: int|
            0 <= i < j < self.members@.len() ==> #[trigger] self.members@[i].0@
                != #[trigger] self.members@[j].0@
    }

    /// The party as values.
    pub closed spec fn view(&self) -> PartyView {
        PartyView {
            members: roster_map(self.members@),
            leader: match self.leader {
                Some(l) => Some(l@),
                None => None,
            },
            applied: match self.applied {
                Some(a) => Some(a@),
                None => None,
            },
        }
    }

    /// An empty party with no leader.
    pub fn new() -> (p: Party)
        ensures
            p.view().members == Map::<Seq<char>, (Seq<char>, Seq<char>)>::empty(),
            p.view().leader is None,
            p.view().applied is None,
    {
        Party { members: Vec::new(), leader: None, applied: None }
    }

    /// How many members the roster holds.
    pub fn len(&self) -> (n: usize)
        ensures
            n == self.view().members.len(),
    {
        proof {
            use_type_invariant(self);
            lemma_roster_len(self.members@);
        }
        self.members.len()
    }

    /// The current leader's id, if any.
    pub fn leader(&self) -> (l: Option<&String>)
        ensures
            match l {
                Some(id) => self.view().leader == Some(id@),
                None => self.view().leader is None,
            },
    {
        self.leader.as_ref()
    }

    /// The member under `id`, if any.
    pub fn member(&self, id: &String) -> (m: Option<&Member>)
        ensures
            match m {
                Some(m) => self.view().members.contains_key(id@) && self.view().members[id@]
                    == member_view(*m),
                None => !self.view().members.contains_key(id@),
            },
    {
        proof {
            use_type_invariant(self);
        }
        match self.find(id) {
            Some(i) => Some(&self.members[i].1),
            None => None,
        }
    }

    /// Where `id` sits in the roster.
    fn find(&self, id: &String) -> (r: Option<usize>)
        ensures
            match r {
                Some(i) => i < self.members@.len() && self.members@[i as int].0@ == id@
                    && roster_map(self.members@).contains_key(id@)
                    && roster_map(self.members@)[id@] == member_view(self.members@[i as int].1),
                None => !roster_map(self.members@).contains_key(id@),
            },
    {
        proof {
            use_type_invariant(self);
        }
        let mut i: usize = 0;
        while i < self.members.len()
            invariant
                i <= self.members@.len(),
                forall|k: int| 0 <= k < i ==> self.members@[k].0@ != id@,
                forall|a: int, b: int|
                    0 <= a < b < self.members@.len() ==> #[trigger] self.members@[a].0@
                        != #[trigger] self.members@[b].0@,
            decreases self.members@.len() - i,
        {
            if self.members[i].0 == *id {
                proof {
                    lemma_roster_at(self.members@, i as int);
                }
                return Some(i);
            }
            i = i + 1;
        }
        proof {
            lemma_roster_keys(self.members@, id@);
        }
        None
    }

    /// Applies script-requested roster changes, in call order.
    /// Removing the leader leaves the party leader-less; leading a member
    /// that doesn't exist yet is legal and takes effect when they're added.
    pub fn apply(&mut self, commands: &[PartyCommand])
        ensures
            final(self).view() == apply_all(old(self).view(), commands_view(commands@)),
    {
        let ghost start = self.view();
        let ghost cv = commands_view(commands@);
        let mut i: usize = 0;
        assert(cv.take(0) =~= Seq::<PartyCommandView>::empty());
        while i < commands.len()
            invariant
                i <= commands@.len(),
                cv == commands_view(commands@),
                cv.len() == commands@.len(),
                self.view() == apply_all(start, cv.take(i as int)),
            decreases commands@.len() - i,
        {
            assert(cv.take(i + 1).drop_last() =~= cv.take(i as int));
            assert(cv.take(i + 1).last() == commands@[i as int]@);
            self.apply_command(&commands[i]);
            i = i + 1;
        }
        assert(cv.take(commands@.len() as int) =~= cv);
    }

    fn apply_command(&mut self, command: &PartyCommand)
        ensures
            final(self).view() == apply_one(old(self).view(), command@),
    {
        proof {
            use_type_invariant(&*self);
        }
        match command {
            PartyCommand::Add { id, name, model } => {
                let member = Member { name: copy_text(name), model: copy_text(model) };
                self.put(copy_text(id), member);
            },
            PartyCommand::Remove { id } => {
                self.take_out(id);
                proof {
                    use_type_invariant(&*self);
                }
                let clears = match &self.leader {
                    Some(l) => *l == *id,
                    None => false,
                };
                if clears {
                    self.leader = None;
                }
            },
            PartyCommand::Leader { id } => {
                self.leader = Some(copy_text(id));
            },
        }
    }

    /// Puts a member under `id`, replacing any earlier one.
    fn put(&mut self, id: String, member: Member)
        ensures
            final(self).view() == (PartyView {
                members: old(self).view().members.insert(id@, member_view(member)),
                ..old(self).view()
            }),
    {
        proof {
            use_type_invariant(&*self);
        }
        let ghost before = self.view();
        let found = self.find(&id);
        let mut members: Vec<(String, Member)> = Vec::new();
        std::mem::swap(&mut self.members, &mut members);
        let ghost old_members = members@;
        match found {
            Some(i) => {
                members.set(i, (id, member));
                proof {
                    lemma_roster_replace(old_members, i as int, members@[i as int]);
                    assert(members@ == old_members.update(i as int, members@[i as int]));
                    assert forall|a: int, b: int| 0 <= a < b < members@.len() implies #[trigger] members@[a].0@
                        != #[trigger] members@[b].0@ by {
                        if a != i as int && b != i as int {
                            assert(members@[a] == old_members[a]);
                            assert(members@[b] == old_members[b]);
                        } else if a == i as int {
                            assert(members@[b] == old_members[b]);
                            assert(old_members[a].0@ != old_members[b].0@);
                        } else {
                            assert(members@[a] == old_members[a]);
                            assert(old_members[a].0@ != old_members[b].0@);
                        }
                    }
                }
            },
            None => {
                members.push((id, member));
                proof {
                    assert(members@.drop_last() =~= old_members);
                    assert forall|a: int, b: int| 0 <= a < b < members@.len() implies #[trigger] members@[a].0@
                        != #[trigger] members@[b].0@ by {
                        if b == members@.len() - 1 {
                            assert(members@[a] == old_members[a]);
                            lemma_roster_keys(old_members, old_members[a].0@);
                            lemma_roster_at(old_members, a);
                        } else {
                            assert(members@[a] == old_members[a]);
                            assert(members@[b] == old_members[b]);
                        }
                    }
                }
            },
        }
        std::mem::swap(&mut self.members, &mut members);
        assert(self.view().members =~= before.members.insert(id@, member_view(member)));
    }

    /// Takes the member under `id` out of the roster, if present.
    fn take_out(&mut self, id: &String)
        ensures
            final(self).view() == (PartyView {
                members: old(self).view().members.remove(id@),
                ..old(self).view()
            }),
    {
        proof {
            use_type_invariant(&*self);
        }
        let ghost before = self.view();
        match self.find(id) {
            None => {
                assert(before.members.remove(id@) =~= before.members);
            },
            Some(i) => {
                let mut members: Vec<(String, Member)> = Vec::new();
                std::mem::swap(&mut self.members, &mut members);
                let ghost old_members = members@;
                members.remove(i);
                proof {
                    assert(members@ == old_members.remove(i as int));
                    lemma_roster_remove(old_members, i as int);
                    assert forall|a: int, b: int| 0 <= a < b < members@.len() implies #[trigger] members@[a].0@
                        != #[trigger] members@[b].0@ by {
                        let oa = if a < i { a } else { a + 1 };
                        let ob = if b < i { b } else { b + 1 };
                        assert(members@[a] == old_members[oa]);
                        assert(members@[b] == old_members[ob]);
                    }
                }
                std::mem::swap(&mut self.members, &mut members);
                assert(self.view().members =~= before.members.remove(id@));
            },
        }
    }

    /// Decides this frame's field-body change. With no player on the
    /// field nothing changes; otherwise, when the resolvable leader
    /// differs from the one last applied, it becomes the applied one and
    /// the body either wears that member's model or reverts to the
    /// capsule. An unchanged party needs no change.
    pub fn sync_player_model(&mut self, has_player: bool) -> (change: Option<FieldChange>)
        ensures
            final(self).view().members == old(self).view().members,
            final(self).view().leader == old(self).view().leader,
            !has_player || old(self).view().applied == wanted(old(self).view()) ==> change is None
                && final(self).view() == old(self).view(),
            has_player && old(self).view().applied != wanted(old(self).view()) ==> {
                &&& final(self).view().applied == wanted(old(self).view())
                &&& (wanted(old(self).view()) is None ==> change matches Some(FieldChange::Capsule))
                &&& (wanted(old(self).view()) matches Some(id) ==> change matches Some(
                    FieldChange::Wear { name, model },
                ) && name@ == old(self).view().members[id].0 && model@ == model_file(
                    old(self).view().members[id].1,
                ))
            },
    {
        proof {
            use_type_invariant(&*self);
        }
        let want: Option<(String, usize)> = match &self.leader {
            Some(id) => match self.find(id) {
                Some(i) => Some((copy_text(id), i)),
                None => None,
            },
            None => None,
        };
        let same = match (&self.applied, &want) {
            (None, None) => true,
            (Some(a), Some((w, _))) => *a == *w,
            _ => false,
        };
        if same || !has_player {
            return None;
        }
        match want {
            Some((id, i)) => {
                self.applied = Some(id);
                let member = &self.members[i].1;
                Some(
                    FieldChange::Wear {
                        name: copy_text(&member.name),
                        model: gltf_asset_path(member.model.as_str()),
                    },
                )
            },
            None => {
                self.applied = None;
                Some(FieldChange::Capsule)
            },
        }
    }
}

/// A fresh copy of a string.
fn copy_text(s: &String) -> (c: String)
    ensures
        c@ == s@,
{
    s.clone()
}

proof fn lemma_roster_keys(entries: Seq<(String, Member)>, id: Seq<char>)
    ensures
        roster_map(entries).contains_key(id) <==> exists|k: int|
            0 <= k < entries.len() && #[trigger] entries[k].0@ == id,
    decreases entries.len(),
{
    if entries.len() > 0 {
        lemma_roster_keys(entries.drop_last(), id);
        if exists|k: int| 0 <= k < entries.len() && #[trigger] entries[k].0@ == id {
            let k = choose|k: int| 0 <= k < entries.len() && #[trigger] entries[k].0@ == id;
            if k < entries.len() - 1 {
                assert(entries.drop_last()[k].0@ == id);
            }
        }
        if exists|k: int| 0 <= k < entries.len() - 1 && #[trigger] entries.drop_last()[k].0@ == id {
            let k = choose|k: int| 0 <= k < entries.len() - 1 && #[trigger] entries.drop_last()[k].0@ == id;
            assert(entries[k].0@ == id);
        }
    }
}

proof fn lemma_roster_at(entries: Seq<(String, Member)>, i: int)
    requires
        0 <= i < entries.len(),
        forall|a: int, b: int| 0 <= a < b < entries.len() ==> #[trigger] entries[a].0@ != #[trigger] entries[b].0@,
    ensures
        roster_map(entries).contains_key(entries[i].0@),
        roster_map(entries)[entries[i].0@] == member_view(entries[i].1),
    decreases entries.len(),
{
    if i < entries.len() - 1 {
        let d = entries.drop_last();
        assert forall|a: int, b: int| 0 <= a < b < d.len() implies #[trigger] d[a].0@ != #[trigger] d[b].0@ by {
            assert(d[a] == entries[a] && d[b] == entries[b]);
        }
        lemma_roster_at(d, i);
        assert(entries[i] == d[i]);
        assert(entries.last().0@ != entries[i].0@);
    }
}

proof fn lemma_roster_len(entries: Seq<(String, Member)>)
    requires
        forall|a: int, b: int| 0 <= a < b < entries.len() ==> #[trigger] entries[a].0@ != #[trigger] entries[b].0@,
    ensures
        roster_map(entries).dom().finite(),
        roster_map(entries).len() == entries.len(),
    decreases entries.len(),
{
    if entries.len() > 0 {
        let d = entries.drop_last();
        assert forall|a: int, b: int| 0 <= a < b < d.len() implies #[trigger] d[a].0@ != #[trigger] d[b].0@ by {
            assert(d[a] == entries[a] && d[b] == entries[b]);
        }
        lemma_roster_len(d);
        lemma_roster_keys(d, entries.last().0@);
        if roster_map(d).contains_key(entries.last().0@) {
            let k = choose|k: int| 0 <= k < d.len() && #[trigger] d[k].0@ == entries.last().0@;
            assert(entries[k] == d[k]);
        }
    }
}

proof fn lemma_roster_replace(entries: Seq<(String, Member)>, i: int, e: (String, Member))
    requires
        0 <= i < entries.len(),
        e.0@ == entries[i].0@,
        forall|a: int, b: int| 0 <= a < b < entries.len() ==> #[trigger] entries[a].0@ != #[trigger] entries[b].0@,
    ensures
        roster_map(entries.update(i, e)) == roster_map(entries).insert(e.0@, member_view(e.1)),
    decreases entries.len(),
{
    let u = entries.update(i, e);
    if i == entries.len() - 1 {
        assert(u.drop_last() =~= entries.drop_last());
        let d = entries.drop_last();
        lemma_roster_keys(d, e.0@);
        assert(!roster_map(d).contains_key(e.0@)) by {
            if roster_map(d).contains_key(e.0@) {
                let k = choose|k: int| 0 <= k < d.len() && #[trigger] d[k].0@ == e.0@;
                assert(entries[k] == d[k]);
            }
        }
        assert(roster_map(u) =~= roster_map(entries).insert(e.0@, member_view(e.1)));
    } else {
        let d = entries.drop_last();
        assert forall|a: int, b: int| 0 <= a < b < d.len() implies #[trigger] d[a].0@ != #[trigger] d[b].0@ by {
            assert(d[a] == entries[a] && d[b] == entries[b]);
        }
        lemma_roster_replace(d, i, e);
        assert(u.drop_last() =~= d.update(i, e));
        assert(u.last() == entries.last());
        assert(entries.last().0@ != e.0@);
        assert(roster_map(u) =~= roster_map(entries).insert(e.0@, member_view(e.1)));
    }
}

proof fn lemma_roster_remove(entries: Seq<(String, Member)>, i: int)
    requires
        0 <= i < entries.len(),
        forall|a: int, b: int| 0 <= a < b < entries.len() ==> #[trigger] entries[a].0@ != #[trigger] entries[b].0@,
    ensures
        roster_map(entries.remove(i)) == roster_map(entries).remove(entries[i].0@),
    decreases entries.len(),
{
    let r = entries.remove(i);
    let d = entries.drop_last();
    if i == entries.len() - 1 {
        assert(r =~= d);
        lemma_roster_keys(d, entries[i].0@);
        assert(!roster_map(d).contains_key(entries[i].0@)) by {
            if roster_map(d).contains_key(entries[i].0@) {
                let k = choose|k: int| 0 <= k < d.len() && #[trigger] d[k].0@ == entries[i].0@;
                assert(entries[k] == d[k]);
            }
        }
        assert(roster_map(r) =~= roster_map(entries).remove(entries[i].0@));
    } else {
        assert forall|a: int, b: int| 0 <= a < b < d.len() implies #[trigger] d[a].0@ != #[trigger] d[b].0@ by {
            assert(d[a] == entries[a] && d[b] == entries[b]);
        }
        lemma_roster_remove(d, i);
        assert(r.drop_last() =~= d.remove(i));
        assert(r.last() == entries.last());
        assert(entries.last().0@ != entries[i].0@);
        assert(roster_map(r) =~= roster_map(entries).remove(entries[i].0@));
    }
}

} // verus!
