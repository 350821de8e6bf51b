use wakeful::bindings::Bindings;
use wakeful::input::{check_input_requests, InjectedInputs, InputManager, InputState, PadAxis, PadButton};
use wakeful::keys::{KeyCode, MouseButton, Raw};

fn names(list: &[&str]) -> Vec<String> {
    list.iter().map(|s| s.to_string()).collect()
}

#[test]
fn config_names_parse_round_trip() {
    assert_eq!(PadButton::from_config("cross"), Some(PadButton::Cross));
    assert_eq!(PadButton::from_config("dpad_up"), Some(PadButton::DPadUp));
    assert_eq!(PadButton::from_config("r2"), Some(PadButton::R2));
    assert_eq!(PadButton::from_config("south"), None);
    assert_eq!(PadAxis::from_config("left_stick_x"), Some(PadAxis::LeftStickX));

    assert_eq!(Raw::from_config("KeyZ"), Some(Raw::Key(KeyCode::KeyZ)));
    assert_eq!(Raw::from_config("ArrowUp"), Some(Raw::Key(KeyCode::ArrowUp)));
    assert_eq!(Raw::from_config("F5"), Some(Raw::Key(KeyCode::F5)));
    assert_eq!(Raw::from_config("Digit3"), Some(Raw::Key(KeyCode::Digit3)));
    assert_eq!(Raw::from_config("Numpad7"), Some(Raw::Key(KeyCode::Numpad7)));
    assert_eq!(Raw::from_config("MouseLeft"), Some(Raw::Mouse(MouseButton::Left)));
    assert_eq!(Raw::from_config("Cross"), Some(Raw::Pad(PadButton::Cross)));
    assert_eq!(Raw::from_config("Bogus"), None);
    assert_eq!(Raw::from_config("Key1"), None, "digits are Digit1, not Key1");
}

#[test]
fn standard_bindings_keep_todays_keyboard() {
    let bindings = Bindings::standard();
    // Movement: WASD + arrows on the dpad; run on Shift via R2.
    assert!(bindings.bound(PadButton::DPadUp).unwrap().contains(&Raw::Key(KeyCode::ArrowUp)));
    assert!(bindings.bound(PadButton::DPadUp).unwrap().contains(&Raw::Key(KeyCode::KeyW)));
    assert!(bindings.bound(PadButton::R2).unwrap().contains(&Raw::Key(KeyCode::ShiftLeft)));
    // Confirm: Z / Enter / the cross itself.
    assert!(bindings.bound(PadButton::Cross).unwrap().contains(&Raw::Key(KeyCode::KeyZ)));
    assert!(bindings.bound(PadButton::Cross).unwrap().contains(&Raw::Pad(PadButton::Cross)));
}

#[test]
fn edges_fire_once_across_ticks() {
    let mut manager = InputManager::standard();

    // Press: the edge and the held state land.
    manager.aggregate(&[Raw::Key(KeyCode::KeyZ)]);
    assert!(manager.just_pressed(PadButton::Cross));
    assert!(manager.pressed(PadButton::Cross));

    // Hold: no new edge.
    manager.aggregate(&[Raw::Key(KeyCode::KeyZ)]);
    assert!(!manager.just_pressed(PadButton::Cross));
    assert!(manager.pressed(PadButton::Cross));

    // Release: the release edge fires exactly once.
    manager.aggregate(&[]);
    assert!(manager.state().just_released(PadButton::Cross));
    assert!(!manager.pressed(PadButton::Cross));
    manager.aggregate(&[]);
    assert!(!manager.state().just_released(PadButton::Cross));
}

#[test]
fn pad_buttons_and_axes_flow_through_the_mapping() {
    let mut manager = InputManager::standard();
    manager.aggregate(&[Raw::Pad(PadButton::Cross), Raw::Pad(PadButton::R2)]);
    assert!(manager.just_pressed(PadButton::Cross), "the pad's cross is the cross");
    assert!(manager.pressed(PadButton::R2), "the pad's R2 is R2");
}

#[test]
fn the_shared_handle_sees_every_aggregate() {
    let mut manager = InputManager::standard();
    manager.aggregate(&[Raw::Key(KeyCode::Enter)]);
    let state = manager.state();

    assert!(state.just_pressed_by_name("cross").unwrap());
    assert_eq!(state.pressed_by_name("triangle"), Some(false));
    assert_eq!(state.pressed_by_name("y2"), None, "unknown names are None");
}

#[test]
fn prefixed_key_names_read_their_first_character_only() {
    assert_eq!(Raw::from_config("KeyZed"), Some(Raw::Key(KeyCode::KeyZ)));
    assert_eq!(Raw::from_config("Digit3x"), Some(Raw::Key(KeyCode::Digit3)));
    assert_eq!(Raw::from_config("Key"), None);
    assert_eq!(Raw::from_config("Keyz"), None);
    assert_eq!(Raw::from_config("Numpad"), None);
}

#[test]
fn function_keys_parse_as_whole_numbers() {
    assert_eq!(Raw::from_config("F12"), Some(Raw::Key(KeyCode::F12)));
    assert_eq!(Raw::from_config("F05"), Some(Raw::Key(KeyCode::F5)));
    assert_eq!(Raw::from_config("F+1"), Some(Raw::Key(KeyCode::F1)));
    assert_eq!(Raw::from_config("F13"), None);
    assert_eq!(Raw::from_config("F0"), None);
    assert_eq!(Raw::from_config("F"), None);
    assert_eq!(Raw::from_config("F1a"), None);
    assert_eq!(Raw::from_config("F99999999999999999999999999"), None);
}

#[test]
fn pad_names_pass_through_in_either_case() {
    assert_eq!(Raw::from_config("dpad_up"), Some(Raw::Pad(PadButton::DPadUp)));
    assert_eq!(Raw::from_config("Triangle"), Some(Raw::Pad(PadButton::Triangle)));
    assert_eq!(Raw::from_config("L2"), Some(Raw::Pad(PadButton::L2)));
    assert_eq!(Raw::from_config("select"), Some(Raw::Pad(PadButton::Select)));
    assert_eq!(Raw::from_config("MouseForward"), Some(Raw::Mouse(MouseButton::Forward)));
    assert_eq!(Raw::from_config("mouseleft"), None);
}

#[test]
fn every_button_round_trips_through_its_config_name() {
    let all = [
        ("cross", PadButton::Cross),
        ("circle", PadButton::Circle),
        ("triangle", PadButton::Triangle),
        ("square", PadButton::Square),
        ("dpad_up", PadButton::DPadUp),
        ("dpad_down", PadButton::DPadDown),
        ("dpad_left", PadButton::DPadLeft),
        ("dpad_right", PadButton::DPadRight),
        ("l1", PadButton::L1),
        ("r1", PadButton::R1),
        ("l2", PadButton::L2),
        ("r2", PadButton::R2),
        ("l3", PadButton::L3),
        ("r3", PadButton::R3),
        ("start", PadButton::Start),
        ("select", PadButton::Select),
    ];
    for (name, button) in all {
        assert_eq!(PadButton::from_config(name), Some(button), "{name}");
        assert_eq!(PadButton::from_index(button.index()), button);
    }
    assert_eq!(PadAxis::all().len(), 4);
    assert_eq!(PadAxis::from_config("right_stick_y"), Some(PadAxis::RightStickY));
    assert_eq!(PadAxis::from_config("left_stick"), None);
}

#[test]
fn a_config_overrides_entries_and_keeps_the_rest_standard() {
    let entries = vec![
        ("cross".to_string(), names(&["KeyJ", "Nope"])),
        ("warp".to_string(), names(&["KeyK"])),
        ("circle".to_string(), names(&[])),
    ];
    let (bindings, skipped) = Bindings::parse_config(&entries);
    assert_eq!(skipped, 2, "one unknown value, one unknown action");
    assert_eq!(bindings.bound(PadButton::Cross).unwrap(), &vec![Raw::Key(KeyCode::KeyJ)]);
    assert!(bindings.bound(PadButton::Circle).unwrap().is_empty());
    // Buttons the config doesn't mention keep their standard binding.
    assert!(bindings.bound(PadButton::DPadUp).unwrap().contains(&Raw::Key(KeyCode::ArrowUp)));
}

#[test]
fn a_later_entry_for_an_action_replaces_an_earlier_one() {
    let entries = vec![
        ("cross".to_string(), names(&["KeyJ"])),
        ("cross".to_string(), names(&["KeyL", "MouseRight"])),
    ];
    let (bindings, skipped) = Bindings::parse_config(&entries);
    assert_eq!(skipped, 0);
    assert_eq!(
        bindings.bound(PadButton::Cross).unwrap(),
        &vec![Raw::Key(KeyCode::KeyL), Raw::Mouse(MouseButton::Right)]
    );
}

#[test]
fn an_unbound_button_never_presses() {
    let mut bindings = Bindings::new();
    bindings.bind(PadButton::Circle, &[Raw::Key(KeyCode::KeyX)]);
    assert!(bindings.bound(PadButton::Cross).is_none());
    let mut manager = InputManager::with_bindings(bindings);
    manager.aggregate(&[Raw::Key(KeyCode::KeyZ), Raw::Key(KeyCode::KeyX)]);
    assert!(!manager.pressed(PadButton::Cross));
    assert!(manager.pressed(PadButton::Circle));
}

#[test]
fn one_button_pressed_by_two_inputs_releases_once_both_are_up() {
    let mut manager = InputManager::standard();
    manager.aggregate(&[Raw::Key(KeyCode::KeyZ), Raw::Key(KeyCode::Enter)]);
    manager.aggregate(&[Raw::Key(KeyCode::Enter)]);
    assert!(manager.pressed(PadButton::Cross));
    assert!(!manager.state().just_released(PadButton::Cross));
    manager.aggregate(&[]);
    assert!(manager.state().just_released(PadButton::Cross));
}

#[test]
fn injected_state_drives_readers_without_devices() {
    let manager = InputManager::with_just_pressed(&[PadButton::Triangle]);
    assert!(manager.just_pressed(PadButton::Triangle));
    assert!(manager.pressed(PadButton::Triangle));
    assert!(!manager.pressed(PadButton::Cross));

    let mut state = InputState::new();
    state.inject(&[PadButton::L1], &[]);
    assert_eq!(state.pressed_by_name("l1"), Some(true));
    assert_eq!(state.just_pressed_by_name("l1"), Some(false));
    assert_eq!(state.just_released_by_name("nope"), None);
}

#[test]
fn input_requests_drive_the_injected_layer() {
    let mut injected = InjectedInputs::new();

    // A tap, a hold and a request of no known kind (never listed).
    let unknown = check_input_requests(&mut injected, &names(&["dpad_up"]), &[], &names(&["triangle"]));
    assert!(unknown.is_empty());
    assert!(injected.just_pressed.contains(PadButton::Triangle));
    assert!(injected.held.contains(PadButton::DPadUp));

    // Edges clear on the next scan; the hold persists.
    check_input_requests(&mut injected, &[], &[], &[]);
    assert!(injected.just_pressed.is_empty());
    assert!(injected.held.contains(PadButton::DPadUp));

    check_input_requests(&mut injected, &[], &names(&["dpad_up"]), &[]);
    assert!(!injected.held.contains(PadButton::DPadUp));
    assert!(injected.just_released.contains(PadButton::DPadUp));
}

#[test]
fn unknown_actions_are_reported_in_serving_order() {
    let mut injected = InjectedInputs::new();
    let unknown = check_input_requests(
        &mut injected,
        &names(&["warp", "cross"]),
        &names(&["jump"]),
        &names(&["fly"]),
    );
    assert_eq!(unknown, names(&["warp", "jump", "fly"]));
    assert!(injected.held.contains(PadButton::Cross));
}

#[test]
fn a_release_without_a_hold_is_a_silent_no_op() {
    let mut injected = InjectedInputs::new();
    let unknown = check_input_requests(&mut injected, &[], &names(&["circle"]), &[]);
    assert!(unknown.is_empty());
    assert!(injected.held.is_empty());
    assert!(injected.just_released.is_empty());
}

#[test]
fn a_hold_and_tap_in_one_scan_still_read_an_edge() {
    let mut injected = InjectedInputs::new();
    check_input_requests(&mut injected, &names(&["cross"]), &[], &[]);
    // Holding again is no new press; a tap in the same scan is.
    check_input_requests(&mut injected, &names(&["cross"]), &[], &names(&["cross"]));
    assert!(injected.just_pressed.contains(PadButton::Cross));
    check_input_requests(&mut injected, &names(&["cross"]), &[], &[]);
    assert!(!injected.just_pressed.contains(PadButton::Cross));
}

#[test]
fn an_entry_of_only_unknown_names_keeps_the_standard_binding() {
    let entries = vec![("cross".to_string(), names(&["Bogus"]))];
    let (bindings, skipped) = Bindings::parse_config(&entries);
    assert_eq!(skipped, 1);
    assert_eq!(
        bindings.bound(PadButton::Cross).unwrap(),
        &vec![Raw::Key(KeyCode::KeyZ), Raw::Key(KeyCode::Enter), Raw::Pad(PadButton::Cross)]
    );
    let mut manager = InputManager::with_bindings(bindings);
    manager.aggregate(&[Raw::Key(KeyCode::KeyZ)]);
    assert!(manager.pressed(PadButton::Cross));
}

#[test]
fn the_checked_reader_counts_and_parses_like_the_plain_one() {
    let entries = vec![
        ("cross".to_string(), names(&["KeyJ", "Nope"])),
        ("warp".to_string(), names(&["KeyK"])),
    ];
    let (bindings, skipped) = Bindings::parse_config_checked(&entries).expect("a small config fits");
    assert_eq!(skipped, 2);
    assert_eq!(bindings.bound(PadButton::Cross).unwrap(), &vec![Raw::Key(KeyCode::KeyJ)]);
    assert!(Bindings::parse_config_checked(&[]).is_some());
}
