use wakeful::debug_shot::{is_full_frame, scan_requests, scan_shot_requests, screenshot_rgb};

fn files(list: &[&str]) -> Vec<String> {
    list.iter().map(|s| s.to_string()).collect()
}

#[test]
fn scan_finds_request_nonces_in_order_and_ignores_the_rest() {
    let listing = files(&["shot-300.request", "shot-100.request", "shot-200.png", "unrelated.txt"]);
    assert_eq!(scan_requests(&listing, "shot-"), vec!["100".to_owned(), "300".to_owned()]);
    assert_eq!(scan_shot_requests(&listing), vec!["100".to_owned(), "300".to_owned()]);
}

#[test]
fn an_empty_folder_scans_as_empty() {
    assert!(scan_requests(&[], "shot-").is_empty());
}

#[test]
fn input_request_names_sort_and_keep_their_action() {
    let listing = files(&["tap-triangle.request", "hold-dpad_up.request", "tap-cross.request", "bogus-what.request"]);
    assert_eq!(scan_requests(&listing, "tap-"), files(&["cross", "triangle"]));
    assert_eq!(scan_requests(&listing, "hold-"), files(&["dpad_up"]));
    assert!(scan_requests(&listing, "release-").is_empty());
}

#[test]
fn the_suffix_must_end_the_name() {
    let listing = files(&["shot-1.request.bak", "shot-.request", "shot-2.REQUEST", "xshot-3.request"]);
    assert_eq!(scan_requests(&listing, "shot-"), files(&[""]));
}

#[test]
fn names_sort_by_code_point() {
    let listing = files(&["shot-b.request", "shot-B.request", "shot-é.request", "shot-a.request"]);
    assert_eq!(scan_requests(&listing, "shot-"), files(&["B", "a", "b", "é"]));
}

#[test]
fn only_whole_frames_are_saved() {
    assert!(is_full_frame(320 * 240 * 4));
    assert!(!is_full_frame(320 * 240 * 4 - 1));
    assert!(!is_full_frame(0));
}

#[test]
fn a_whole_frame_becomes_rgb_pixels() {
    let frame: Vec<u8> = (0..320 * 240).flat_map(|i: u32| [10, 20, (i % 256) as u8, 255]).collect();
    let rgb = screenshot_rgb(frame).expect("a whole frame converts");
    assert_eq!(rgb.len(), 320 * 240 * 3);
    assert_eq!(&rgb[..6], &[10, 20, 0, 10, 20, 1]);
}

#[test]
fn a_partial_frame_is_not_converted() {
    assert!(screenshot_rgb(vec![0; 320 * 240 * 4 - 4]).is_none());
    assert!(screenshot_rgb(vec![0; 320 * 240 * 4 + 4]).is_none());
}
