use wakeful::screen::{
    decimal_text, report_violations, game_size, integer_scale, post_process_violations, presented_size, signed_decimal_text,
    GameImageCamera, UVec2,
};

fn camera(order: isize, carries_post_effects: bool) -> GameImageCamera {
    GameImageCamera { order, carries_post_effects }
}

#[test]
fn scales_to_exact_multiple() {
    assert_eq!(integer_scale(UVec2::new(1280, 960), game_size()), 4);
}

#[test]
fn fits_the_smaller_axis() {
    // width allows 6x but height only 4x
    assert_eq!(integer_scale(UVec2::new(1920, 1080), game_size()), 4);
}

#[test]
fn never_scales_below_one() {
    assert_eq!(integer_scale(UVec2::new(300, 200), game_size()), 1);
    assert_eq!(integer_scale(UVec2::new(500, 400), game_size()), 1);
}

#[test]
fn presented_size_is_game_size_times_scale() {
    assert_eq!(presented_size(UVec2::new(1920, 1080), game_size()), UVec2::new(1280, 960));
}

#[test]
fn the_game_image_is_320_by_240() {
    assert_eq!(game_size(), UVec2::new(320, 240));
}

#[test]
fn a_tiny_window_still_presents_the_whole_game_size() {
    assert_eq!(presented_size(UVec2::new(0, 0), game_size()), UVec2::new(320, 240));
    assert_eq!(presented_size(UVec2::new(640, 480), game_size()), UVec2::new(640, 480));
}

#[test]
fn a_valid_layout_has_no_violations() {
    let cameras = vec![camera(0, false), camera(2, false), camera(3, true)];
    assert!(post_process_violations(&cameras).is_empty());
}

#[test]
fn a_missing_post_process_camera_is_a_violation() {
    let cameras = vec![camera(0, false)];
    assert_eq!(post_process_violations(&cameras).len(), 1);
}

#[test]
fn two_post_process_cameras_are_a_violation() {
    let cameras = vec![camera(3, true), camera(4, true)];
    assert_eq!(post_process_violations(&cameras).len(), 1);
}

#[test]
fn content_drawing_after_post_process_is_a_violation() {
    let cameras = vec![camera(0, false), camera(3, true), camera(4, false)];
    let violations = post_process_violations(&cameras);
    assert_eq!(violations.len(), 1);
    assert!(violations[0].contains("order 4"));
}

#[test]
fn violation_messages_name_the_count_and_the_orders() {
    let none = post_process_violations(&[]);
    assert_eq!(
        none,
        vec!["expected exactly one post-process camera targeting the game image, found 0".to_string()]
    );
    let both = post_process_violations(&[camera(-2, true), camera(7, true), camera(12, false), camera(9, false)]);
    assert_eq!(
        both,
        vec![
            "expected exactly one post-process camera targeting the game image, found 2".to_string(),
            "camera at order 12 draws into the game image after the post-process camera at order 7 and renders without its effects"
                .to_string(),
        ]
    );
    let negative = post_process_violations(&[camera(-3, true), camera(-1, false)]);
    assert_eq!(
        negative,
        vec![
            "camera at order -1 draws into the game image after the post-process camera at order -3 and renders without its effects"
                .to_string()
        ]
    );
}

#[test]
fn numbers_spell_in_decimal() {
    assert_eq!(decimal_text(0), "0");
    assert_eq!(decimal_text(1907), "1907");
    assert_eq!(decimal_text(u128::MAX), u128::MAX.to_string());
    assert_eq!(signed_decimal_text(-45), "-45");
    assert_eq!(signed_decimal_text(isize::MIN), isize::MIN.to_string());
}

#[test]
fn a_steady_problem_warns_once() {
    let mut seen = Vec::new();
    let broken = post_process_violations(&[camera(0, false)]);
    assert_eq!(report_violations(&mut seen, broken.clone()), broken);
    assert!(report_violations(&mut seen, broken.clone()).is_empty());
    // Fixing the layout changes the set: nothing to print, but the
    // next break warns again.
    assert!(report_violations(&mut seen, Vec::new()).is_empty());
    assert!(seen.is_empty());
    assert_eq!(report_violations(&mut seen, broken.clone()), broken);
}
