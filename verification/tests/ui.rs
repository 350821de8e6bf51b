use wakeful::input::{InputState, PadButton};
use wakeful::ui::UiNavState;

fn input_with(pressed: &[PadButton], just: &[PadButton]) -> InputState {
    let mut state = InputState::new();
    state.inject(pressed, just);
    state
}

#[test]
fn navigation_wraps_and_presses_exactly_one_tick() {
    let mut nav = UiNavState::new();
    nav.declare("menu", 3);

    nav.navigate(&input_with(&[], &[PadButton::DPadDown]), 0);
    assert_eq!(nav.selected("menu"), Some(1));
    nav.navigate(&input_with(&[], &[PadButton::DPadDown]), 0);
    nav.navigate(&input_with(&[], &[PadButton::DPadDown]), 0);
    assert_eq!(nav.selected("menu"), Some(0), "wraps past the last row");

    nav.navigate(&input_with(&[], &[PadButton::DPadUp]), 0);
    assert_eq!(nav.selected("menu"), Some(2), "wraps above the first row");

    nav.navigate(&input_with(&[], &[PadButton::Cross]), 0);
    assert_eq!(nav.confirmed("menu"), 2);
    nav.navigate(&input_with(&[], &[]), 0);
    assert_eq!(nav.confirmed("menu"), -1, "a press lasts one tick");
}

#[test]
fn the_stick_navigates_on_edges_not_while_held() {
    let mut nav = UiNavState::new();
    nav.declare("menu", 2);
    let idle = input_with(&[], &[]);

    // Deflect down: one edge, one move.
    nav.navigate(&idle, 1);
    assert_eq!(nav.selected("menu"), Some(1));

    // Still held: no further moves.
    nav.navigate(&idle, 1);
    assert_eq!(nav.selected("menu"), Some(1));

    // Release, then deflect up: one edge, one move back.
    nav.navigate(&idle, 0);
    nav.navigate(&idle, -1);
    assert_eq!(nav.selected("menu"), Some(0));
}

#[test]
fn the_most_recently_created_menu_owns_the_cursor() {
    let mut nav = UiNavState::new();
    nav.declare("dialog", 2);
    nav.declare("menu", 2);

    nav.navigate(&input_with(&[], &[PadButton::DPadDown]), 0);
    assert_eq!(nav.selected("menu"), Some(1));
    assert_eq!(nav.selected("dialog"), Some(0), "untouched");

    nav.close("menu");
    nav.navigate(&input_with(&[], &[PadButton::DPadDown]), 0);
    assert_eq!(nav.selected("dialog"), Some(1), "cursor falls back");
}

#[test]
fn redeclaring_with_fewer_rows_clamps_the_cursor() {
    let mut nav = UiNavState::new();
    nav.declare("menu", 4);
    nav.navigate(&input_with(&[], &[PadButton::DPadUp]), 0);
    assert_eq!(nav.selected("menu"), Some(3));
    nav.declare("menu", 2);
    assert_eq!(nav.selected("menu"), Some(1));
    nav.declare("menu", 0);
    assert_eq!(nav.selected("menu"), Some(0));
    // Re-declaring keeps the cursor where it is.
    nav.declare("menu", 5);
    assert_eq!(nav.selected("menu"), Some(0));
}

#[test]
fn an_empty_menu_does_not_own_the_cursor() {
    let mut nav = UiNavState::new();
    nav.declare("list", 3);
    nav.declare("hud", 0);
    nav.navigate(&input_with(&[], &[PadButton::DPadDown, PadButton::Cross]), 0);
    assert_eq!(nav.selected("list"), Some(1));
    assert_eq!(nav.confirmed("list"), 1);
    assert_eq!(nav.confirmed("hud"), -1);
}

#[test]
fn re_declaring_keeps_the_creation_order() {
    let mut nav = UiNavState::new();
    nav.declare("first", 2);
    nav.declare("second", 2);
    nav.declare("first", 2);
    nav.navigate(&input_with(&[], &[PadButton::DPadDown]), 0);
    assert_eq!(nav.selected("second"), Some(1));
    assert_eq!(nav.selected("first"), Some(0));
}

#[test]
fn unknown_menus_read_as_absent() {
    let mut nav = UiNavState::new();
    assert_eq!(nav.selected("nothing"), None);
    assert_eq!(nav.confirmed("nothing"), -1);
    nav.declare("menu", 1);
    nav.clear();
    assert_eq!(nav.selected("menu"), None);
}

#[test]
fn up_and_down_together_cancel_out() {
    let mut nav = UiNavState::new();
    nav.declare("menu", 3);
    nav.navigate(&input_with(&[], &[PadButton::DPadUp, PadButton::DPadDown]), 0);
    assert_eq!(nav.selected("menu"), Some(0));
}
