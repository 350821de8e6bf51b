//! Teleporter triggers: which trigger under the player fires, and how
//! triggers disarm and re-arm so arriving inside one doesn't chain
//! teleports.
//!
//! Each teleporter has an armed flag. A trigger fires only while armed,
//! disarms when it fires, and re-arms once the player is outside it.

use vstd::prelude::*;

verus! {

/// The armed flag of teleporter `i`; flags past the list's end (for
/// teleporters added after it was built) count as armed.
pub open spec fn armed_at(armed: Seq<bool>, i: int) -> bool {
    if i < armed.len() {
        armed[i]
    } else {
        true
    }
}

/// Whether teleporter `i` can fire: the player is inside it and it is
/// armed.
pub open spec fn ready(armed: Seq<bool>, inside: Seq<bool>, i: int) -> bool {
    0 <= i < inside.len() && inside[i] && armed_at(armed, i)
}

/// The teleporter that fires: the first ready one.
pub open spec fn first_ready(armed: Seq<bool>, inside: Seq<bool>) -> Option<int> {
    if exists|i: int| ready(armed, inside, i) {
        Some(choose|i: int| ready(armed, inside, i) && forall|j: int| 0 <= j < i ==> !ready(armed, inside, j))
    } else {
        None
    }
}

/// The flags after one check: everything the player is outside of
/// re-arms, the fired one disarms, and the rest keep their flag; the
/// list grows to cover every teleporter.
pub open spec fn rearmed(armed: Seq<bool>, inside: Seq<bool>, fired: Option<int>) -> Seq<bool> {
    Seq::new(
        if armed.len() < inside.len() {
            inside.len()
        } else {
            armed.len()
        },
        |i: int|
            if i < inside.len() {
                if !inside[i] {
                    true
                } else if fired == Some(i) {
                    false
                } else {
                    armed_at(armed, i)
                }
            } else {
                armed[i]
            },
    )
}

/// The flags a scene starts with: a teleporter already under the
/// player's arrival point starts disarmed.
pub open spec fn arrival_flags(inside: Seq<bool>) -> Seq<bool> {
    Seq::new(inside.len(), |i: int| !inside[i])
}

/// Builds the armed flags for a freshly applied scene from which
/// teleporters contain the arrival point.
pub fn arrival_arming(inside: &[bool]) -> (armed: Vec<bool>)
    ensures
        armed@ == arrival_flags(inside@),
{
    let mut armed: Vec<bool> = Vec::new();
    let mut i: usize = 0;
    while i < inside.len()
        invariant
            i <= inside@.len(),
            armed@.len() == i,
            forall|j: int| 0 <= j < i ==> armed@[j] == !inside@[j],
        decreases inside@.len() - i,
    {
        armed.push(!inside[i]);
        i = i + 1;
    }
    assert(armed@ =~= arrival_flags(inside@));
    armed
}

/// One check of the scene's triggers against the player's position
/// (`inside[i]`: whether teleporter `i` contains it). While the editor
/// is open or a transition is already pending nothing happens.
/// Otherwise every trigger the player is outside of re-arms, and the
/// first armed trigger under the player fires (its index is returned)
/// and disarms until the player leaves and re-enters.
pub fn check_teleporters(editing: bool, pending: bool, armed: &mut Vec<bool>, inside: &[bool]) -> (fired:
    Option<usize>)
    ensures
        editing || pending ==> fired is None && final(armed)@ == old(armed)@,
        !editing && !pending ==> {
            &&& fired == match first_ready(old(armed)@, inside@) {
                Some(i) => Some(i as usize),
                None => None::<usize>,
            }
            &&& final(armed)@ == rearmed(
                old(armed)@,
                inside@,
                match fired {
                    Some(i) => Some(i as int),
                    None => None,
                },
            )
        },
{
    if editing || pending {
        return None;
    }
    let ghost start = armed@;
    let mut fired: Option<usize> = None;
    let mut i: usize = 0;
    while i < inside.len()
        invariant
            i <= inside@.len(),
            armed@.len() == if start.len() < i {
                i as int
            } else {
                start.len() as int
            },
            forall|j: int| i <= j < armed@.len() ==> armed@[j] == start[j],
            match fired {
                Some(f) => f < i && ready(start, inside@, f as int) && forall|j: int|
                    0 <= j < f ==> !ready(start, inside@, j),
                None => forall|j: int| 0 <= j < i ==> !ready(start, inside@, j),
            },
            forall|j: int|
                0 <= j < i ==> armed@[j] == if !inside@[j] {
                    true
                } else if fired == Some(j as usize) {
                    false
                } else {
                    armed_at(start, j)
                },
        decreases inside@.len() - i,
    {
        let ghost before = armed@;
        let ghost fired_before = fired;
        if i >= armed.len() {
            armed.push(true);
        }
        assert(armed@[i as int] == armed_at(start, i as int));
        assert(forall|j: int| 0 <= j < i ==> armed@[j] == before[j]);
        if inside[i] {
            if armed[i] && fired.is_none() {
                fired = Some(i);
                armed.set(i, false);
            }
        } else {
            armed.set(i, true);
        }
        i = i + 1;
    }
    proof {
        let f = match fired {
            Some(i) => Some(i as int),
            None => None,
        };
        match fired {
            Some(k) => {
                assert(exists|i: int| ready(start, inside@, i));
                let c = choose|i: int|
                    ready(start, inside@, i) && forall|j: int| 0 <= j < i ==> !ready(start, inside@, j);
                if c < k {
                } else if c > k {
                    assert(!ready(start, inside@, k as int));
                }
                assert(first_ready(start, inside@) == Some(k as int));
            },
            None => {
                assert(!exists|i: int| ready(start, inside@, i));
            },
        }
        let target = rearmed(start, inside@, f);
        assert(armed@.len() == target.len());
        assert forall|j: int| 0 <= j < armed@.len() implies armed@[j] == target[j] by {
            if j < inside@.len() {
                assert((f == Some(j)) == (fired == Some(j as usize)));
            }
        }
        assert(armed@ =~= target);
    }
    fired
}

/// A trigger that fires disarms: standing still inside it fires nothing
/// more.
pub proof fn lemma_fired_trigger_stays_quiet(armed: Seq<bool>, inside: Seq<bool>)
    requires
        first_ready(armed, inside) is Some,
        forall|j: int| 0 <= j < inside.len() && inside[j] ==> j == first_ready(armed, inside)->0,
    ensures
        first_ready(rearmed(armed, inside, first_ready(armed, inside)), inside) is None,
{
    let next = rearmed(armed, inside, first_ready(armed, inside));
    let f = first_ready(armed, inside)->0;
    assert(ready(armed, inside, f) && forall|j: int| 0 <= j < f ==> !ready(armed, inside, j));
    assert forall|i: int| !ready(next, inside, i) by {
        if ready(next, inside, i) {
            assert(i == f);
        }
    }
}

/// Arriving inside a trigger does not fire it; once the player has been
/// away from every trigger, each one under the arrival point is armed
/// again, so walking back in fires.
pub proof fn lemma_arrival_needs_leave_and_reenter(at_arrival: Seq<bool>, away: Seq<bool>)
    requires
        away.len() == at_arrival.len(),
        forall|j: int| 0 <= j < away.len() ==> !away[j],
    ensures
        first_ready(arrival_flags(at_arrival), at_arrival) is None,
        forall|i: int|
            0 <= i < at_arrival.len() && at_arrival[i] ==> ready(
                rearmed(rearmed(arrival_flags(at_arrival), at_arrival, None), away, None),
                at_arrival,
                i,
            ),
        (exists|i: int| 0 <= i < at_arrival.len() && at_arrival[i]) ==> first_ready(
            rearmed(rearmed(arrival_flags(at_arrival), at_arrival, None), away, None),
            at_arrival,
        ) is Some,
{
    let start = arrival_flags(at_arrival);
    assert forall|i: int| !ready(start, at_arrival, i) by {}
    let after = rearmed(rearmed(start, at_arrival, None), away, None);
    assert forall|i: int| 0 <= i < at_arrival.len() && at_arrival[i] implies ready(after, at_arrival, i) by {
        assert(after[i]);
    }
    if exists|i: int| 0 <= i < at_arrival.len() && at_arrival[i] {
        let i = choose|i: int| 0 <= i < at_arrival.len() && at_arrival[i];
        assert(ready(after, at_arrival, i));
    }
}

} // verus!
