use wakeful::editor::{path_change, space_char, trimmed_path, EditorState, ScenePaths};

#[test]
fn trimmed_paths_drop_whitespace_and_emptiness() {
    assert_eq!(trimmed_path("  models/hero.gltf  "), Some("models/hero.gltf".into()));
    assert_eq!(trimmed_path("   "), None);
    assert_eq!(trimmed_path(""), None);
}

#[test]
fn trimming_matches_the_standard_library() {
    for field in ["\t a b \n", "\u{3000}x\u{a0}", "\u{200b}y", " \u{85}", "plain", "\r\n\u{2029}"] {
        assert_eq!(trimmed_path(field), Some(field.trim().to_string()).filter(|s| !s.is_empty()), "{field:?}");
    }
    for c in ['\t', '\n', '\u{b}', '\u{c}', '\r', ' ', '\u{85}', '\u{a0}', '\u{1680}', '\u{2000}', '\u{200a}', '\u{2028}', '\u{2029}', '\u{202f}', '\u{205f}', '\u{3000}', 'a', '\u{200b}', '\u{180e}', '\u{feff}', '_'] {
        assert_eq!(space_char(c), c.is_whitespace(), "{c:?}");
    }
}

#[test]
fn applying_a_field_changes_only_a_different_path() {
    let current = Some("backgrounds/room1.png".to_string());
    assert_eq!(path_change(" backgrounds/room1.png ", &current), None);
    assert_eq!(path_change("backgrounds/room2.png", &current), Some(Some("backgrounds/room2.png".to_string())));
    assert_eq!(path_change("  ", &current), Some(None));
    assert_eq!(path_change("", &None), None);
    assert_eq!(path_change("x.png", &None), Some(Some("x.png".to_string())));
}

fn paths() -> ScenePaths {
    ScenePaths { background: Some("backgrounds/room1.png".into()), character_model: None }
}

#[test]
fn opening_syncs_the_fields_from_the_scene() {
    let mut state = EditorState::new();
    state.background_field = "stale".into();
    state.character_field = "stale".into();
    state.status = Some("Saved".into());
    state.set_open(true, Some(&paths()));
    assert!(state.open);
    assert_eq!(state.status, None);
    assert_eq!(state.background_field, "backgrounds/room1.png");
    assert_eq!(state.character_field, "");

    // Closing keeps the fields as they are.
    state.background_field = "edited".into();
    state.set_open(false, Some(&paths()));
    assert!(!state.open);
    assert_eq!(state.background_field, "edited");
}

#[test]
fn the_toggle_key_is_ignored_while_typing() {
    let mut state = EditorState::new();
    state.toggle(true, true, Some(&paths()));
    assert!(!state.open);
    state.toggle(true, false, Some(&paths()));
    assert!(state.open);
    assert_eq!(state.background_field, "backgrounds/room1.png");
    state.toggle(false, false, None);
    assert!(state.open);
    state.toggle(true, false, None);
    assert!(!state.open);
}

#[test]
fn a_stroke_paints_until_released() {
    let mut state = EditorState::new();
    state.set_open(true, None);
    assert_eq!(state.stroke(true, false, false), Some(true));
    assert_eq!(state.stroke(false, false, false), Some(true), "dragging keeps painting");
    assert_eq!(state.stroke(false, false, true), None);
    assert_eq!(state.painting, None);
    assert_eq!(state.stroke(false, true, false), Some(false), "right paints blocked cells");
    assert_eq!(state.stroke(true, true, false), Some(false), "right wins a tie");
}

#[test]
fn a_closed_editor_drops_the_stroke() {
    let mut state = EditorState::new();
    assert_eq!(state.stroke(true, false, false), None);
    assert_eq!(state.painting, None);
    state.set_open(true, None);
    assert_eq!(state.stroke(false, false, false), None);
}
