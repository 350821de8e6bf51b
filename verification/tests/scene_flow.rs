use wakeful::scene_flow::{SceneFlow, SceneHook, SceneScriptState};

type Arrival = (i32, i32);

#[test]
fn transition_swaps_in_the_target_and_spawns_at_the_arrival() {
    let mut flow: SceneFlow<Arrival> = SceneFlow::start("scenes/devroom.scene".to_string());
    assert_eq!(flow.apply(true), Some(None), "the first scene starts the player at the origin");
    assert!(flow.teleport("scenes/room2.scene".to_string(), (3, 4)));

    assert_eq!(flow.transition(), Some("scenes/devroom.scene".to_string()));
    assert_eq!(flow.path, "scenes/room2.scene");
    assert!(!flow.applied);
    assert_eq!(flow.spawn, Some((3, 4)));
    assert!(flow.pending.is_none());

    assert_eq!(flow.apply(true), Some(Some((3, 4))));
    assert!(flow.applied);
    assert_eq!(flow.spawn, None);
}

#[test]
fn a_queued_teleport_absorbs_later_ones() {
    let mut flow: SceneFlow<Arrival> = SceneFlow::start("a.scene".to_string());
    assert!(flow.teleport("scenes/already-going.scene".to_string(), (0, 0)));
    assert!(!flow.teleport("scenes/elsewhere.scene".to_string(), (1, 1)));
    assert_eq!(flow.pending, Some(("scenes/already-going.scene".to_string(), (0, 0))));
}

#[test]
fn a_scene_applies_once_its_file_has_loaded_and_only_once() {
    let mut flow: SceneFlow<Arrival> = SceneFlow::start("a.scene".to_string());
    assert_eq!(flow.apply(false), None, "still loading");
    assert!(!flow.applied);
    assert_eq!(flow.apply(true), Some(None));
    assert_eq!(flow.apply(true), None);
}

#[test]
fn nothing_pending_means_no_transition() {
    let mut flow: SceneFlow<Arrival> = SceneFlow::start("a.scene".to_string());
    assert_eq!(flow.transition(), None);
    assert_eq!(flow.path, "a.scene");
}


#[test]
fn the_first_tick_fires_on_enter_then_on_update_each_tick() {
    let mut state = SceneScriptState::new();
    assert_eq!(state.first_hook(), Some(SceneHook::Enter));
    assert_eq!(state.hook_done(SceneHook::Enter, true), Some(SceneHook::Update));
    assert_eq!(state.hook_done(SceneHook::Update, true), None);
    for _ in 0..3 {
        assert_eq!(state.first_hook(), Some(SceneHook::Update));
        assert_eq!(state.hook_done(SceneHook::Update, true), None);
    }
    assert!(state.runs_exit());
}

#[test]
fn a_scene_script_which_errors_is_disabled_not_spammed() {
    let mut state = SceneScriptState::new();
    state.hook_done(SceneHook::Enter, true);
    assert_eq!(state.hook_done(SceneHook::Update, false), None);
    assert!(state.broken);
    assert_eq!(state.first_hook(), None);
    assert!(!state.runs_exit(), "a disabled script skips on_exit");
}

#[test]
fn a_failing_on_enter_skips_the_update_and_disables_the_script() {
    let mut state = SceneScriptState::new();
    assert_eq!(state.hook_done(SceneHook::Enter, false), None);
    assert!(state.entered && state.broken);
    assert_eq!(state.first_hook(), None);
}
