use wakeful::animation::{assign_clips, base_clip, next_step, ClipTable, StandardClip, Step};

const CLIPS: [&str; 6] = ["idle", "walk", "run", "pick_up", "shrug", "wave"];

fn clips_with(names: &[&str]) -> ClipTable {
    let node = |name: &str| {
        if names.contains(&name) {
            CLIPS.iter().position(|c| *c == name)
        } else {
            None
        }
    };
    ClipTable {
        idle: node("idle"),
        walk: node("walk"),
        run: node("run"),
        pick_up: node("pick_up"),
        shrug: node("shrug"),
        wave: node("wave"),
    }
}

#[test]
fn the_base_gait_walks_and_falls_back() {
    let clips = clips_with(&["idle", "walk", "run"]);
    let idle = clips.get("idle").unwrap();
    let walk = clips.get("walk").unwrap();
    let run = clips.get("run").unwrap();
    assert_eq!(base_clip(&clips, false, false), Some(idle));
    assert_eq!(base_clip(&clips, true, false), Some(walk));
    assert_eq!(base_clip(&clips, true, true), Some(run));

    // Without run, a running gait degrades to walk; without any
    // locomotion clip at all, nothing plays.
    let idle_walk = clips_with(&["idle", "walk"]);
    assert_eq!(base_clip(&idle_walk, true, true), idle_walk.get("walk"));
    let empty = clips_with(&[]);
    assert_eq!(base_clip(&empty, true, true), None);
}

#[test]
fn an_emote_owns_the_character_until_it_finishes() {
    let clips = clips_with(&["idle", "walk", "shrug"]);
    let shrug = clips.get("shrug").unwrap();
    let mut emote = None;

    // Requested: starts instantly.
    assert_eq!(next_step(&mut emote, Some(shrug), false, false, &clips, None), Step::StartEmote(shrug));
    // Re-requested mid-play every tick: held, not restarted.
    assert_eq!(next_step(&mut emote, Some(shrug), false, false, &clips, Some(false)), Step::HoldEmote);
    // Still running with no new request: held.
    assert_eq!(next_step(&mut emote, None, true, true, &clips, Some(false)), Step::HoldEmote);
    // Finished: released into the current gait.
    assert_eq!(
        next_step(&mut emote, None, true, false, &clips, Some(true)),
        Step::Locomotion(clips.get("walk").unwrap())
    );
    assert_eq!(emote, None);
    // Re-requested after finishing: plays again.
    assert_eq!(next_step(&mut emote, Some(shrug), false, false, &clips, Some(true)), Step::StartEmote(shrug));
}

#[test]
fn an_unknown_emote_request_is_dropped() {
    // Names resolve before the state machine; a miss reaches it as no
    // request, and locomotion carries on.
    let clips = clips_with(&["idle"]);
    let mut emote = None;
    assert_eq!(clips.get("moonwalk"), None);
    assert_eq!(next_step(&mut emote, None, false, false, &clips, None), Step::Locomotion(clips.get("idle").unwrap()));
}

#[test]
fn without_clips_nothing_plays() {
    let clips = clips_with(&[]);
    let mut emote = None;
    assert_eq!(next_step(&mut emote, None, true, false, &clips, None), Step::Nothing);
}

#[test]
fn a_different_emote_interrupts_the_running_one() {
    let clips = clips_with(&["idle", "shrug", "wave"]);
    let shrug = clips.get("shrug").unwrap();
    let wave = clips.get("wave").unwrap();
    let mut emote = Some(shrug);
    assert_eq!(next_step(&mut emote, Some(wave), false, false, &clips, Some(false)), Step::StartEmote(wave));
    assert_eq!(emote, Some(wave));
}

#[test]
fn an_emote_with_unknown_status_is_released() {
    let clips = clips_with(&["idle"]);
    let mut emote = Some(4);
    assert_eq!(next_step(&mut emote, None, false, false, &clips, None), Step::Locomotion(0));
    assert_eq!(emote, None);
}

#[test]
fn clips_are_numbered_in_standard_order_by_what_the_model_has() {
    // The model has idle, run and wave (in the standard order), so
    // they take nodes 10, 11 and 12.
    let present = [true, false, true, false, false, true];
    let table = assign_clips(&present, &[10, 11, 12]);
    assert_eq!(table.get("idle"), Some(10));
    assert_eq!(table.get("walk"), None);
    assert_eq!(table.get("run"), Some(11));
    assert_eq!(table.get("wave"), Some(12));
    assert_eq!(table.len(), 3);
    assert_eq!(StandardClip::from_name("pick_up"), Some(StandardClip::PickUp));
    assert_eq!(StandardClip::from_name("Idle"), None);
}
