use wakeful::teleport::{arrival_arming, check_teleporters};

// One teleporter; `inside` says whether the player stands in it.

#[test]
fn touching_a_teleporter_queues_a_transition() {
    let mut armed = vec![true];
    assert_eq!(check_teleporters(false, false, &mut armed, &[true]), Some(0));
}

#[test]
fn standing_clear_does_not_teleport() {
    let mut armed = vec![true];
    assert_eq!(check_teleporters(false, false, &mut armed, &[false]), None);
    assert_eq!(armed, vec![true]);
}

#[test]
fn a_pending_transition_absorbs_re_triggers() {
    let mut armed = vec![true];
    assert_eq!(check_teleporters(false, true, &mut armed, &[true]), None);
    assert_eq!(armed, vec![true]);
}

#[test]
fn editing_pauses_teleports() {
    let mut armed = vec![true];
    assert_eq!(check_teleporters(true, false, &mut armed, &[true]), None);
    assert_eq!(armed, vec![true]);
}

#[test]
fn firing_disarms_until_the_player_leaves_and_reenters() {
    let mut armed = vec![true];
    assert_eq!(check_teleporters(false, false, &mut armed, &[true]), Some(0));
    assert!(!armed[0]);

    // The transition consumed the pending teleport; the player is still
    // inside the region, so it stays quiet.
    assert_eq!(check_teleporters(false, false, &mut armed, &[true]), None);

    // Leaving rearms the trigger without firing it.
    assert_eq!(check_teleporters(false, false, &mut armed, &[false]), None);
    assert!(armed[0]);

    // Re-entering fires it again.
    assert_eq!(check_teleporters(false, false, &mut armed, &[true]), Some(0));
}

#[test]
fn overlapping_triggers_fire_the_first_armed_one() {
    let mut armed = vec![false, true];
    // The first (disarmed) one is skipped; the second fires.
    assert_eq!(check_teleporters(false, false, &mut armed, &[true, true]), Some(1));
    assert_eq!(armed, vec![false, false]);
}

#[test]
fn arriving_inside_a_trigger_starts_it_disarmed() {
    assert_eq!(arrival_arming(&[true]), vec![false]);
}

#[test]
fn arriving_clear_starts_the_trigger_armed() {
    assert_eq!(arrival_arming(&[false]), vec![true]);
}

#[test]
fn teleporters_added_later_start_armed() {
    let mut armed = vec![true];
    assert_eq!(check_teleporters(false, false, &mut armed, &[false, true]), Some(1));
    assert_eq!(armed, vec![true, false]);
}

#[test]
fn flags_for_removed_teleporters_are_kept() {
    let mut armed = vec![true, false, false];
    assert_eq!(check_teleporters(false, false, &mut armed, &[false]), None);
    assert_eq!(armed, vec![true, false, false]);
}

#[test]
fn only_one_trigger_fires_per_check() {
    let mut armed = vec![true, true, true];
    assert_eq!(check_teleporters(false, false, &mut armed, &[false, true, true]), Some(1));
    assert_eq!(armed, vec![true, false, true]);
}
