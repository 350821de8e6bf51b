use wakeful::input::{InputState, PadButton};
use wakeful::ui::UiNavState;
use wakeful::ui_requests::{plan_requests, UiPlan, UiRequest};

/// A window rectangle: x, y, w, h in virtual pixels.
type Rect = (i32, i32, i32, i32);

fn window(name: &str, rect: Rect) -> UiRequest<Rect, &'static str> {
    UiRequest::Window { name: name.into(), rect }
}

fn close(name: &str) -> UiRequest<Rect, &'static str> {
    UiRequest::Close { name: name.into() }
}

fn text(window: &str, content: &'static str) -> UiRequest<Rect, &'static str> {
    UiRequest::Content { window: window.into(), content, options: None }
}

fn options(window: &str, content: &'static str, rows: usize) -> UiRequest<Rect, &'static str> {
    UiRequest::Content { window: window.into(), content, options: Some(rows) }
}

fn built(plan: &UiPlan<Rect, &'static str>) -> Vec<String> {
    plan.windows.iter().map(|w| w.name.clone()).collect()
}

#[test]
fn requests_build_and_rebuild_windows() {
    let plan = plan_requests(vec![
        window("menu", (10, 10, 100, 50)),
        text("menu", "Hello"),
        options("menu", "A|B", 2),
    ]);
    assert_eq!(built(&plan), vec!["menu".to_owned()]);
    let menu = &plan.windows[0];
    assert_eq!(menu.rect, (10, 10, 100, 50));
    assert_eq!(menu.content, vec!["Hello", "A|B"]);
    assert_eq!(menu.options, 2);

    // Re-declaring drops earlier content and takes the new rectangle.
    let plan = plan_requests(vec![
        window("menu", (10, 10, 100, 50)),
        text("menu", "Old"),
        window("menu", (20, 20, 90, 40)),
        text("menu", "Hello"),
    ]);
    assert_eq!(built(&plan), vec!["menu".to_owned()]);
    assert_eq!(plan.windows[0].rect, (20, 20, 90, 40));
    assert_eq!(plan.windows[0].content, vec!["Hello"]);
    assert_eq!(plan.windows[0].options, 0);
}

#[test]
fn content_before_a_window_declaration_is_skipped_with_one_warning() {
    let plan = plan_requests(vec![text("ghost", "hi"), text("ghost", "again"), text("other", "x")]);
    assert!(plan.windows.is_empty());
    assert_eq!(plan.undeclared, vec!["ghost".to_owned(), "other".to_owned()]);
}

#[test]
fn pause_requests_carry_the_policy() {
    assert_eq!(plan_requests(vec![UiRequest::<Rect, &'static str>::Pause(true)]).pause, Some(true));
    assert_eq!(
        plan_requests(vec![UiRequest::<Rect, &'static str>::Pause(true), UiRequest::Pause(false)]).pause,
        Some(false)
    );
    assert_eq!(plan_requests(vec![window("menu", (0, 0, 1, 1))]).pause, None);
}

#[test]
fn a_window_closed_in_the_same_batch_as_its_declaration_stays_closed() {
    let plan = plan_requests(vec![window("menu", (0, 0, 40, 40)), close("menu")]);
    assert!(plan.windows.is_empty());
    assert_eq!(plan.closes, vec!["menu".to_owned()]);

    // The reverse order (close, then a fresh declaration) rebuilds instead.
    let plan = plan_requests(vec![close("menu"), window("menu", (0, 0, 40, 40))]);
    assert_eq!(built(&plan), vec!["menu".to_owned()]);
    assert!(plan.closes.is_empty());
}

#[test]
fn content_after_a_close_is_stray() {
    let plan = plan_requests(vec![window("menu", (0, 0, 4, 4)), close("menu"), text("menu", "late")]);
    assert!(plan.windows.is_empty());
    assert_eq!(plan.undeclared, vec!["menu".to_owned()]);
}

#[test]
fn names_come_out_sorted_and_once() {
    let plan = plan_requests(vec![
        window("zeta", (0, 0, 1, 1)),
        window("alpha", (0, 0, 1, 1)),
        close("omega"),
        close("beta"),
        close("omega"),
        window("mid", (0, 0, 1, 1)),
        window("alpha", (1, 1, 2, 2)),
    ]);
    assert_eq!(built(&plan), vec!["alpha".to_owned(), "mid".to_owned(), "zeta".to_owned()]);
    assert_eq!(plan.windows[0].rect, (1, 1, 2, 2));
    assert_eq!(plan.closes, vec!["beta".to_owned(), "omega".to_owned()]);
}

#[test]
fn the_last_options_list_sets_the_row_count() {
    let plan = plan_requests(vec![
        window("menu", (0, 0, 4, 4)),
        options("menu", "first", 3),
        text("menu", "note"),
        options("menu", "second", 5),
        text("menu", "footer"),
    ]);
    assert_eq!(plan.windows[0].options, 5);
    assert_eq!(plan.windows[0].content, vec!["first", "note", "second", "footer"]);
}

#[test]
fn an_empty_batch_changes_nothing() {
    let plan = plan_requests(Vec::<UiRequest<Rect, &'static str>>::new());
    assert_eq!(plan.pause, None);
    assert!(plan.closes.is_empty() && plan.windows.is_empty() && plan.undeclared.is_empty());
}

#[test]
fn a_plan_closes_then_declares_the_menus() {
    let mut nav = UiNavState::new();
    nav.declare("old", 2);
    nav.declare("menu", 3);
    let mut input = InputState::new();
    input.inject(&[], &[PadButton::DPadDown]);
    nav.navigate(&input, 0);
    assert_eq!(nav.selected("menu"), Some(1));

    let plan = plan_requests(vec![close("old"), window("menu", (0, 0, 4, 4)), options("menu", "A|B", 2)]);
    nav.apply_plan(&plan);
    assert_eq!(nav.selected("old"), None, "closed windows are forgotten");
    assert_eq!(nav.selected("menu"), Some(1), "a rebuilt menu keeps its cursor");

    let plan = plan_requests(vec![window("menu", (0, 0, 4, 4)), options("menu", "A", 1)]);
    nav.apply_plan(&plan);
    assert_eq!(nav.selected("menu"), Some(0), "fewer rows clamp the cursor");
}
