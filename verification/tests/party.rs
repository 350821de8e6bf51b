use wakeful::party::{FieldChange, Party};
use wakeful::scripts::PartyCommand;

fn add(id: &str, name: &str, model: &str) -> PartyCommand {
    PartyCommand::Add { id: id.into(), name: name.into(), model: model.into() }
}

fn leader(id: &str) -> PartyCommand {
    PartyCommand::Leader { id: id.into() }
}

fn remove(id: &str) -> PartyCommand {
    PartyCommand::Remove { id: id.into() }
}

fn leader_id(party: &Party) -> Option<String> {
    party.leader().cloned()
}

#[test]
fn roster_changes_apply_in_call_order() {
    let mut party = Party::new();
    party.apply(&[add("a", "A", "a.glb"), leader("a"), add("b", "B", "b.glb"), leader("b"), remove("a")]);
    assert_eq!(leader_id(&party).as_deref(), Some("b"));
    assert_eq!(party.len(), 1);

    // Removing the leader reverts to a leader-less (capsule) party.
    party.apply(&[remove("b")]);
    assert_eq!(leader_id(&party), None);
}

#[test]
fn the_leader_drives_the_field_body() {
    let mut party = Party::new();
    party.apply(&[add("hero", "Hero", "models/character.glb"), leader("hero")]);
    match party.sync_player_model(true) {
        Some(FieldChange::Wear { name, model }) => {
            assert_eq!(name, "Hero");
            assert_eq!(model, "models/character.glb");
        }
        _ => panic!("the hero's model is queued"),
    }
    // Already applied: nothing more until the party changes.
    assert!(party.sync_player_model(true).is_none());

    // Leader change: the next sync swaps the body.
    party.apply(&[add("pip", "Pip", "models/pip.glb#Scene0"), leader("pip")]);
    match party.sync_player_model(true) {
        Some(FieldChange::Wear { name, model }) => {
            assert_eq!(name, "Pip");
            assert_eq!(model, "models/pip.glb", "the sub-asset suffix is dropped");
        }
        _ => panic!("pip's model is queued"),
    }
}

#[test]
fn losing_the_leader_reverts_to_the_capsule() {
    let mut party = Party::new();
    party.apply(&[add("hero", "Hero", "models/character.glb"), leader("hero")]);
    assert!(matches!(party.sync_player_model(true), Some(FieldChange::Wear { .. })));

    party.apply(&[remove("hero")]);
    assert!(matches!(party.sync_player_model(true), Some(FieldChange::Capsule)));
    assert!(party.sync_player_model(true).is_none());
}

#[test]
fn a_fresh_party_needs_no_body_change() {
    let mut party = Party::new();
    assert_eq!(party.len(), 0);
    assert!(party.sync_player_model(true).is_none());
}

#[test]
fn leading_a_member_not_yet_added_takes_effect_when_they_join() {
    let mut party = Party::new();
    party.apply(&[leader("ghost")]);
    assert_eq!(leader_id(&party).as_deref(), Some("ghost"));
    assert!(party.sync_player_model(true).is_none(), "no resolvable leader yet");

    party.apply(&[add("ghost", "Ghost", "ghost.glb")]);
    assert!(matches!(party.sync_player_model(true), Some(FieldChange::Wear { .. })));
}

#[test]
fn without_a_player_the_body_change_waits() {
    let mut party = Party::new();
    party.apply(&[add("hero", "Hero", "hero.glb"), leader("hero")]);
    assert!(party.sync_player_model(false).is_none());
    assert!(matches!(party.sync_player_model(true), Some(FieldChange::Wear { .. })));
}

#[test]
fn re_adding_a_member_replaces_their_entry() {
    let mut party = Party::new();
    party.apply(&[add("a", "A", "a.glb"), add("a", "Alpha", "alpha.glb")]);
    assert_eq!(party.len(), 1);
    let member = party.member(&"a".to_string()).unwrap();
    assert_eq!(member.name, "Alpha");
    assert_eq!(member.model, "alpha.glb");
    assert!(party.member(&"b".to_string()).is_none());
}

#[test]
fn removing_someone_else_keeps_the_leader() {
    let mut party = Party::new();
    party.apply(&[add("a", "A", "a.glb"), add("b", "B", "b.glb"), leader("a"), remove("b"), remove("nobody")]);
    assert_eq!(leader_id(&party).as_deref(), Some("a"));
    assert_eq!(party.len(), 1);
}
