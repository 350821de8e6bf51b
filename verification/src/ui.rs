//! Menu navigation for script-driven UI windows.
//!
//! Navigation state is keyed by window name, so rebuilding a menu never
//! resets its cursor. The most recently created options list with rows
//! owns the cursor: the dpad or a stick flick moves it (wrapping at both
//! ends), cross confirms the selected row, and the confirmation is
//! visible for exactly one tick.

use vstd::prelude::*;

use crate::input::{InputState, PadButton};
use crate::ui_requests::{name_texts, UiPlan, WindowPlan};

verus! {

/// One menu's cursor: the selected row, how many rows it has, and the
/// row confirmed this tick.
#[derive(Clone, Copy, Debug, PartialEq, Eq, Structural)]
pub struct MenuNav {
    pub selected: usize,
    pub count: usize,
    pub confirmed: Option<usize>,
}

/// The navigation state as values: menus in creation order, and the
/// stick direction seen last tick (-1, 0 or 1).
pub struct UiNavView {
    pub menus: Seq<(Seq<char>, MenuNav)>,
    pub last_stick_y: int,
}

/// Which row each menu's cursor sits on, and what was pressed this tick.
pub struct UiNavState {
    menus: Vec<(String, MenuNav)>,
    last_stick_y: i8,
}

/// Where the menu named `name` sits, if it exists.
pub open spec fn menu_index(menus: Seq<(Seq<char>, MenuNav)>, name: Seq<char>) -> Option<int> {
    if exists|i: int| 0 <= i < menus.len() && menus[i].0 == name {
        Some(choose|i: int| 0 <= i < menus.len() && menus[i].0 == name)
    } else {
        None
    }
}

/// The selection a menu keeps when it is (re)declared with `count` rows.
pub open spec fn clamped(selected: int, count: int) -> int {
    if count == 0 {
        0
    } else if selected < count - 1 {
        selected
    } else {
        count - 1
    }
}

/// (Re)declaring a menu sets its row count, clamping the selection so
/// rebuilding with fewer rows can't strand the cursor; a new menu joins
/// at the end of the creation order with the first row selected.
pub open spec fn declare_spec(v: UiNavView, name: Seq<char>, count: int) -> UiNavView {
    match menu_index(v.menus, name) {
        Some(i) => UiNavView {
            menus: v.menus.update(
                i,
                (
                    name,
                    MenuNav {
                        selected: clamped(v.menus[i].1.selected as int, count) as usize,
                        count: count as usize,
                        ..v.menus[i].1
                    },
                ),
            ),
            ..v
        },
        None => UiNavView {
            menus: v.menus.push((name, MenuNav { selected: 0, count: count as usize, confirmed: None })),
            ..v
        },
    }
}

/// Closing a menu forgets it.
pub open spec fn close_spec(v: UiNavView, name: Seq<char>) -> UiNavView {
    match menu_index(v.menus, name) {
        Some(i) => UiNavView { menus: v.menus.remove(i), ..v },
        None => v,
    }
}

/// The menu that owns the cursor: the most recently created one with
/// rows.
pub open spec fn owner(menus: Seq<(Seq<char>, MenuNav)>) -> Option<int>
    decreases menus.len(),
{
    if menus.len() == 0 {
        None
    } else if menus.last().1.count > 0 {
        Some(menus.len() - 1)
    } else {
        owner(menus.drop_last())
    }
}

/// The owner is the last menu with rows.
pub proof fn lemma_owner(menus: Seq<(Seq<char>, MenuNav)>)
    ensures
        match owner(menus) {
            Some(k) => 0 <= k < menus.len() && menus[k].1.count > 0 && forall|j: int|
                k < j < menus.len() ==> #[trigger] menus[j].1.count == 0,
            None => forall|j: int| 0 <= j < menus.len() ==> #[trigger] menus[j].1.count == 0,
        },
    decreases menus.len(),
{
    if menus.len() > 0 {
        lemma_owner(menus.drop_last());
        let d = menus.drop_last();
        assert(forall|j: int| 0 <= j < d.len() ==> d[j] == menus[j]);
    }
}

/// Menus with last tick's confirmations cleared.
pub open spec fn cleared_menus(menus: Seq<(Seq<char>, MenuNav)>) -> Seq<(Seq<char>, MenuNav)> {
    menus.map_values(|m: (Seq<char>, MenuNav)| (m.0, MenuNav { confirmed: None, ..m.1 }))
}

/// The cursor after moving up and/or down, wrapping at both ends.
pub open spec fn moved(selected: int, count: int, up: bool, down: bool) -> int {
    let after_up = if up {
        (selected + count - 1) % count
    } else {
        selected
    };
    if down {
        (after_up + 1) % count
    } else {
        after_up
    }
}

/// One tick of navigation. Last tick's confirmations clear; a stick
/// flick counts on the tick its direction changes to a new nonzero one;
/// the owning menu's cursor moves up on dpad-up or an upward flick (a
/// negative stick direction), down on dpad-down or a downward flick,
/// and cross confirms the row it lands on.
pub open spec fn navigate_spec(v: UiNavView, just_pressed: Set<PadButton>, stick_y: int) -> UiNavView {
    let cleared = cleared_menus(v.menus);
    let edge = stick_y != 0 && stick_y != v.last_stick_y;
    match owner(v.menus) {
        None => UiNavView { menus: cleared, last_stick_y: stick_y },
        Some(i) => {
            let nav = v.menus[i].1;
            let up = just_pressed.contains(PadButton::DPadUp) || (edge && stick_y < 0);
            let down = just_pressed.contains(PadButton::DPadDown) || (edge && stick_y > 0);
            let selected = moved(nav.selected as int, nav.count as int, up, down);
            let confirmed = if just_pressed.contains(PadButton::Cross) {
                Some(selected as usize)
            } else {
                None
            };
            UiNavView {
                menus: cleared.update(
                    i,
                    (v.menus[i].0, MenuNav { selected: selected as usize, count: nav.count, confirmed }),
                ),
                last_stick_y: stick_y,
            }
        },
    }
}

/// A menu's cursor is on one of its rows (the first when it has none).
pub open spec fn cursor_in_range(nav: MenuNav) -> bool {
    if nav.count == 0 {
        nav.selected == 0
    } else {
        nav.selected < nav.count
    }
}

/// Menu names are distinct and every cursor is in range.
pub open spec fn nav_well_formed(menus: Seq<(Seq<char>, MenuNav)>) -> bool {
    &&& forall|i: int, j: int| 0 <= i < j < menus.len() ==> #[trigger] menus[i].0 != #[trigger] menus[j].0
    &&& forall|i: int| 0 <= i < menus.len() ==> cursor_in_range(#[trigger] menus[i].1)
}

/// The menus' names and cursors as text.
pub open spec fn menus_view(menus: Seq<(String, MenuNav)>) -> Seq<(Seq<char>, MenuNav)> {
    menus.map_values(|m: (String, MenuNav)| (m.0@, m.1))
}

impl UiNavState {
    #[verifier::type_invariant]
    spec fn well_formed(self) -> bool {
        &&& nav_well_formed(menus_view(self.menus@))
        &&& -1 <= self.last_stick_y <= 1
    }

    /// The menus and the stick direction last seen, as values.
    pub closed spec fn view(&self) -> UiNavView {
        UiNavView { menus: menus_view(self.menus@), last_stick_y: self.last_stick_y as int }
    }

    /// No menus.
    pub fn new() -> (s: UiNavState)
        ensures
            s.view().menus == Seq::<(Seq<char>, MenuNav)>::empty(),
            s.view().last_stick_y == 0,
    {
        let s = UiNavState { menus: Vec::new(), last_stick_y: 0 };
        assert(s.view().menus =~= Seq::<(Seq<char>, MenuNav)>::empty());
        s
    }

    fn find(&self, name: &str) -> (r: Option<usize>)
        ensures
            match r {
                Some(i) => menu_index(self.view().menus, name@) == Some(i as int),
                None => menu_index(self.view().menus, name@) is None,
            },
    {
        proof {
            use_type_invariant(self);
        }
        let ghost mv = self.view().menus;
        let mut i: usize = 0;
        while i < self.menus.len()
            invariant
                i <= self.menus@.len(),
                mv == menus_view(self.menus@),
                mv.len() == self.menus@.len(),
                nav_well_formed(mv),
                forall|k: int| 0 <= k < i ==> mv[k].0 != name@,
            decreases self.menus@.len() - i,
        {
            if crate::text::same_text(self.menus[i].0.as_str(), name) {
                proof {
                    assert(mv[i as int].0 == name@);
                    let c = choose|k: int| 0 <= k < mv.len() && mv[k].0 == name@;
                    if c != i as int {
                        assert(mv[c].0 != mv[i as int].0);
                    }
                }
                return Some(i);
            }
            i = i + 1;
        }
        None
    }

    /// Takes the menu list out, leaving an empty one.
    fn take_menus(&mut self) -> (menus: Vec<(String, MenuNav)>)
        ensures
            menus@ == old(self).menus@,
            final(self).menus@.len() == 0,
            final(self).last_stick_y == old(self).last_stick_y,
            nav_well_formed(menus_view(menus@)),
            -1 <= final(self).last_stick_y <= 1,
    {
        proof {
            use_type_invariant(&*self);
        }
        let mut menus: Vec<(String, MenuNav)> = Vec::new();
        assert(nav_well_formed(menus_view(menus@)));
        std::mem::swap(&mut self.menus, &mut menus);
        menus
    }

    /// (Re)declares a menu's row count; the selected row is clamped so
    /// rebuilding with fewer rows can't strand the cursor.
    pub fn declare(&mut self, name: &str, count: usize)
        ensures
            final(self).view() == declare_spec(old(self).view(), name@, count as int),
            nav_well_formed(final(self).view().menus),
    {
        let found = self.find(name);
        let ghost before = self.view();
        let mut menus = self.take_menus();
        let ghost mv = menus_view(menus@);
        match found {
            Some(i) => {
                let old_nav = menus[i].1;
                let selected = if count == 0 {
                    0
                } else if old_nav.selected < count - 1 {
                    old_nav.selected
                } else {
                    count - 1
                };
                let nav = MenuNav { selected, count, confirmed: old_nav.confirmed };
                let entry_name = menus[i].0.clone();
                menus.set(i, (entry_name, nav));
                proof {
                    assert(menus_view(menus@) =~= mv.update(i as int, (name@, nav)));
                    let nm = menus_view(menus@);
                    assert forall|a: int, b: int| 0 <= a < b < nm.len() implies #[trigger] nm[a].0
                        != #[trigger] nm[b].0 by {
                        assert(nm[a].0 == mv[a].0 && nm[b].0 == mv[b].0);
                    }
                }
            },
            None => {
                let nav = MenuNav { selected: 0, count, confirmed: None };
                menus.push((String::from_str(name), nav));
                proof {
                    let nm = menus_view(menus@);
                    assert(nm =~= mv.push((name@, nav)));
                    assert forall|a: int, b: int| 0 <= a < b < nm.len() implies #[trigger] nm[a].0
                        != #[trigger] nm[b].0 by {
                        if b == nm.len() - 1 {
                            assert(nm[a].0 == mv[a].0);
                        }
                    }
                }
            },
        }
        self.menus = menus;
        assert(self.view().menus =~= declare_spec(before, name@, count as int).menus);
        proof {
            use_type_invariant(&*self);
        }
    }

    /// Forgets a menu.
    pub fn close(&mut self, name: &str)
        ensures
            final(self).view() == close_spec(old(self).view(), name@),
            nav_well_formed(final(self).view().menus),
    {
        let found = self.find(name);
        let ghost before = self.view();
        let mut menus = self.take_menus();
        let ghost mv = menus_view(menus@);
        if let Some(i) = found {
            menus.remove(i);
            proof {
                let nm = menus_view(menus@);
                assert(nm =~= mv.remove(i as int));
                assert forall|a: int, b: int| 0 <= a < b < nm.len() implies #[trigger] nm[a].0 != #[trigger] nm[b].0 by {
                    let oa = if a < i { a } else { a + 1 };
                    let ob = if b < i { b } else { b + 1 };
                    assert(nm[a] == mv[oa]);
                    assert(nm[b] == mv[ob]);
                }
                assert forall|a: int| 0 <= a < nm.len() implies cursor_in_range(#[trigger] nm[a].1) by {
                    let oa = if a < i { a } else { a + 1 };
                    assert(nm[a] == mv[oa]);
                }
            }
        }
        self.menus = menus;
        assert(self.view().menus =~= close_spec(before, name@).menus);
        proof {
            use_type_invariant(&*self);
        }
    }

    /// Forgets every menu and the stick history.
    pub fn clear(&mut self)
        ensures
            final(self).view().menus == Seq::<(Seq<char>, MenuNav)>::empty(),
            final(self).view().last_stick_y == 0,
    {
        *self = UiNavState::new();
    }

    /// Advances the cursor for one tick from this tick's input and the
    /// left stick's vertical direction (-1, 0 or 1, past the deadzone).
    /// Confirmations are cleared first: a press is visible for exactly
    /// one tick.
    pub fn navigate(&mut self, input: &InputState, stick_y: i8)
        requires
            -1 <= stick_y <= 1,
        ensures
            final(self).view() == navigate_spec(old(self).view(), input@.just_pressed, stick_y as int),
            nav_well_formed(final(self).view().menus),
    {
        let ghost before = self.view();
        let last = self.last_stick_y;
        let mut menus = self.take_menus();
        let ghost mv = menus_view(menus@);
        let n = menus.len();
        let mut owner_at: Option<usize> = None;
        let mut i: usize = 0;
        assert(mv.take(0) =~= Seq::<(Seq<char>, MenuNav)>::empty());
        while i < n
            invariant
                n == menus@.len(),
                i <= n,
                mv == menus_view(menus@),
                mv.len() == n,
                match owner_at {
                    Some(k) => owner(mv.take(i as int)) == Some(k as int),
                    None => owner(mv.take(i as int)) is None,
                },
            decreases n - i,
        {
            assert(mv.take(i + 1).drop_last() =~= mv.take(i as int));
            assert(mv.take(i + 1).last() == mv[i as int]);
            if menus[i].1.count > 0 {
                owner_at = Some(i);
            }
            i = i + 1;
        }
        assert(mv.take(n as int) =~= mv);
        proof {
            lemma_owner(mv);
        }
        let mut cleared: Vec<(String, MenuNav)> = Vec::new();
        let mut j: usize = 0;
        while j < n
            invariant
                n == menus@.len(),
                j <= n,
                mv == menus_view(menus@),
                menus_view(cleared@) == cleared_menus(mv).take(j as int),
            decreases n - j,
        {
            let entry_name = menus[j].0.clone();
            let nav = menus[j].1;
            let ghost prev = cleared@;
            cleared.push((entry_name, MenuNav { confirmed: None, ..nav }));
            assert(mv[j as int] == (menus@[j as int].0@, nav));
            assert(menus_view(cleared@) =~= menus_view(prev).push((mv[j as int].0, MenuNav { confirmed: None, ..nav })));
            assert(menus_view(cleared@) =~= cleared_menus(mv).take(j + 1));
            j = j + 1;
        }
        let ghost cv = cleared_menus(mv);
        assert(menus_view(cleared@) =~= cv);
        let edge = stick_y != 0 && stick_y != last;
        if let Some(k) = owner_at {
            let nav = cleared[k].1;
            assert(cv[k as int] == menus_view(cleared@)[k as int]);
            assert(nav.count == mv[k as int].1.count);
            assert(nav.selected == mv[k as int].1.selected);
            assert(cursor_in_range(mv[k as int].1));
            let up = input.just_pressed(PadButton::DPadUp) || (edge && stick_y < 0);
            let down = input.just_pressed(PadButton::DPadDown) || (edge && stick_y > 0);
            let mut selected = nav.selected;
            if up {
                selected = if selected == 0 {
                    nav.count - 1
                } else {
                    selected - 1
                };
            }
            if down {
                selected = if selected + 1 == nav.count {
                    0
                } else {
                    selected + 1
                };
            }
            proof {
                let s0 = nav.selected as int;
                let c = nav.count as int;
                let a = if up { (s0 + c - 1) % c } else { s0 };
                if up {
                    if s0 == 0 {
                        vstd::arithmetic::div_mod::lemma_mod_self_0(c);
                        vstd::arithmetic::div_mod::lemma_small_mod((c - 1) as nat, c as nat);
                    } else {
                        vstd::arithmetic::div_mod::lemma_mod_add_multiples_vanish(s0 - 1, c);
                        vstd::arithmetic::div_mod::lemma_small_mod((s0 - 1) as nat, c as nat);
                        assert(s0 + c - 1 == (s0 - 1) + c);
                    }
                }
                vstd::arithmetic::div_mod::lemma_mod_bound(s0 + c - 1, c);
                if down {
                    if a + 1 == c {
                        vstd::arithmetic::div_mod::lemma_mod_self_0(c);
                    } else {
                        vstd::arithmetic::div_mod::lemma_small_mod((a + 1) as nat, c as nat);
                    }
                }
                assert(selected as int == moved(s0, c, up, down));
            }
            let confirmed = if input.just_pressed(PadButton::Cross) {
                Some(selected)
            } else {
                None
            };
            let entry_name = cleared[k].0.clone();
            let ghost prev = cleared@;
            cleared.set(k, (entry_name, MenuNav { selected, count: nav.count, confirmed }));
            proof {
                assert(entry_name@ == mv[k as int].0);
                assert(menus_view(cleared@) =~= cv.update(
                    k as int,
                    (mv[k as int].0, MenuNav { selected, count: nav.count, confirmed }),
                ));
                assert(cursor_in_range(MenuNav { selected, count: nav.count, confirmed })) by {
                    vstd::arithmetic::div_mod::lemma_mod_bound(
                        moved(nav.selected as int, nav.count as int, up, false),
                        nav.count as int,
                    );
                }
            }
        }
        proof {
            let nm = menus_view(cleared@);
            assert forall|a: int, b: int| 0 <= a < b < nm.len() implies #[trigger] nm[a].0 != #[trigger] nm[b].0 by {
                assert(nm[a].0 == mv[a].0 && nm[b].0 == mv[b].0);
            }
            assert forall|a: int| 0 <= a < nm.len() implies cursor_in_range(#[trigger] nm[a].1) by {
                if owner_at != Some(a as usize) {
                    assert(nm[a].1.count == mv[a].1.count);
                    assert(nm[a].1.selected == mv[a].1.selected);
                }
            }
        }
        self.menus = cleared;
        self.last_stick_y = stick_y;
        assert(self.view().menus =~= navigate_spec(before, input@.just_pressed, stick_y as int).menus);
        proof {
            use_type_invariant(&*self);
        }
    }

    /// Carries a tick's reduced UI requests into the menus: the closed
    /// windows are forgotten, in order, then each built window is
    /// (re)declared with its option-row count, in order.
    pub fn apply_plan<R, C>(&mut self, plan: &UiPlan<R, C>)
        ensures
            final(self).view() == declare_all_spec(
                close_all_spec(old(self).view(), name_texts(plan.closes@)),
                plan_declarations(plan.windows@),
            ),
    {
        let ghost start = self.view();
        let ghost closes = name_texts(plan.closes@);
        let mut i: usize = 0;
        assert(closes.take(0) =~= Seq::<Seq<char>>::empty());
        while i < plan.closes.len()
            invariant
                i <= plan.closes@.len(),
                closes == name_texts(plan.closes@),
                self.view() == close_all_spec(start, closes.take(i as int)),
            decreases plan.closes@.len() - i,
        {
            assert(closes.take(i + 1).drop_last() =~= closes.take(i as int));
            assert(closes.take(i + 1).last() == plan.closes@[i as int]@);
            self.close(plan.closes[i].as_str());
            i = i + 1;
        }
        assert(closes.take(closes.len() as int) =~= closes);
        let ghost mid = self.view();
        let ghost decls = plan_declarations(plan.windows@);
        let mut j: usize = 0;
        assert(decls.take(0) =~= Seq::<(Seq<char>, int)>::empty());
        while j < plan.windows.len()
            invariant
                j <= plan.windows@.len(),
                decls == plan_declarations(plan.windows@),
                self.view() == declare_all_spec(mid, decls.take(j as int)),
            decreases plan.windows@.len() - j,
        {
            assert(decls.take(j + 1).drop_last() =~= decls.take(j as int));
            assert(decls.take(j + 1).last() == (plan.windows@[j as int].name@, plan.windows@[j as int].options as int));
            self.declare(plan.windows[j].name.as_str(), plan.windows[j].options);
            j = j + 1;
        }
        assert(decls.take(decls.len() as int) =~= decls);
    }

    /// The row confirmed in menu `name` this tick, or -1.
    pub fn confirmed(&self, name: &str) -> (r: i64)
        ensures
            r == match menu_index(self.view().menus, name@) {
                Some(i) => match self.view().menus[i].1.confirmed {
                    Some(row) => row as i64,
                    None => -1i64,
                },
                None => -1i64,
            },
    {
        proof {
            use_type_invariant(self);
        }
        match self.find(name) {
            Some(i) => match self.menus[i].1.confirmed {
                Some(row) => row as i64,
                None => -1,
            },
            None => -1,
        }
    }

    /// The row menu `name`'s cursor is on, if the menu exists.
    pub fn selected(&self, name: &str) -> (r: Option<usize>)
        ensures
            r == match menu_index(self.view().menus, name@) {
                Some(i) => Some(self.view().menus[i].1.selected),
                None => None,
            },
    {
        match self.find(name) {
            Some(i) => Some(self.menus[i].1.selected),
            None => None,
        }
    }
}

/// Windows closed in order.
pub open spec fn close_all_spec(v: UiNavView, names: Seq<Seq<char>>) -> UiNavView
    decreases names.len(),
{
    if names.len() == 0 {
        v
    } else {
        close_spec(close_all_spec(v, names.drop_last()), names.last())
    }
}

/// Windows declared in order, each with its option-row count.
pub open spec fn declare_all_spec(v: UiNavView, decls: Seq<(Seq<char>, int)>) -> UiNavView
    decreases decls.len(),
{
    if decls.len() == 0 {
        v
    } else {
        declare_spec(declare_all_spec(v, decls.drop_last()), decls.last().0, decls.last().1)
    }
}

/// The declarations a tick's plan makes: each built window's name and
/// option-row count, in order.
pub open spec fn plan_declarations<R, C>(windows: Seq<WindowPlan<R, C>>) -> Seq<(Seq<char>, int)> {
    windows.map_values(|w: WindowPlan<R, C>| (w.name@, w.options as int))
}

/// Moving down from the last row wraps to the first, and moving up from
/// the first wraps to the last.
pub proof fn lemma_navigation_wraps(count: int)
    requires
        count > 0,
    ensures
        moved(count - 1, count, false, true) == 0,
        moved(0, count, true, false) == count - 1,
{
    vstd::arithmetic::div_mod::lemma_mod_self_0(count);
    vstd::arithmetic::div_mod::lemma_small_mod((count - 1) as nat, count as nat);
}

/// The cursor always lands on a row.
pub proof fn lemma_moved_in_range(selected: int, count: int, up: bool, down: bool)
    requires
        0 <= selected < count,
    ensures
        0 <= moved(selected, count, up, down) < count,
{
    vstd::arithmetic::div_mod::lemma_mod_bound(selected + count - 1, count);
    let a = if up { (selected + count - 1) % count } else { selected };
    vstd::arithmetic::div_mod::lemma_mod_bound(a + 1, count);
}

/// A confirmation lasts one tick: a tick without cross leaves no menu
/// confirmed.
pub proof fn lemma_confirmation_lasts_one_tick(v: UiNavView, just_pressed: Set<PadButton>, stick_y: int)
    requires
        !just_pressed.contains(PadButton::Cross),
    ensures
        forall|i: int|
            0 <= i < navigate_spec(v, just_pressed, stick_y).menus.len() ==> (#[trigger] navigate_spec(
                v,
                just_pressed,
                stick_y,
            ).menus[i]).1.confirmed is None,
{
    let cleared = cleared_menus(v.menus);
    let nv = navigate_spec(v, just_pressed, stick_y);
    lemma_owner(v.menus);
    assert(cleared.len() == v.menus.len());
    assert forall|i: int| 0 <= i < nv.menus.len() implies (#[trigger] nv.menus[i]).1.confirmed is None by {
        match owner(v.menus) {
            None => {
                assert(nv.menus == cleared);
                assert(cleared[i].1.confirmed is None);
            },
            Some(k) => {
                assert(nv.menus.len() == cleared.len());
                if i != k {
                    assert(nv.menus[i] == cleared[i]);
                    assert(cleared[i].1.confirmed is None);
                }
            },
        }
    }
}

/// Only the owning menu's cursor moves; every other menu keeps its row.
pub proof fn lemma_only_the_owner_moves(v: UiNavView, just_pressed: Set<PadButton>, stick_y: int, i: int)
    requires
        0 <= i < v.menus.len(),
        owner(v.menus) != Some(i),
    ensures
        navigate_spec(v, just_pressed, stick_y).menus[i].1.selected == v.menus[i].1.selected,
        navigate_spec(v, just_pressed, stick_y).menus[i].0 == v.menus[i].0,
{
    let cleared = cleared_menus(v.menus);
    let nv = navigate_spec(v, just_pressed, stick_y);
    lemma_owner(v.menus);
    assert(cleared[i].1.selected == v.menus[i].1.selected);
    assert(cleared[i].0 == v.menus[i].0);
    match owner(v.menus) {
        None => {
            assert(nv.menus == cleared);
        },
        Some(k) => {
            assert(nv.menus[i] == cleared[i]);
        },
    }
}

/// Re-declaring a menu with at least as many rows keeps its cursor.
pub proof fn lemma_redeclare_keeps_cursor(v: UiNavView, name: Seq<char>, count: int)
    requires
        menu_index(v.menus, name) is Some,
        v.menus[menu_index(v.menus, name)->0].1.selected < count,
    ensures
        declare_spec(v, name, count).menus[menu_index(v.menus, name)->0].1.selected
            == v.menus[menu_index(v.menus, name)->0].1.selected,
{
}

/// A stick held in one direction moves the cursor once, not every tick.
pub proof fn lemma_held_stick_moves_once(v: UiNavView, stick_y: int)
    requires
        v.last_stick_y == stick_y,
        owner(v.menus) is Some,
    ensures
        0 <= owner(v.menus)->0 < v.menus.len(),
        navigate_spec(v, Set::empty(), stick_y).menus[owner(v.menus)->0].1.selected
            == v.menus[owner(v.menus)->0].1.selected,
{
    lemma_owner(v.menus);
    let i = owner(v.menus)->0;
    assert(cleared_menus(v.menus)[i].1.selected == v.menus[i].1.selected);
    assert(!Set::<PadButton>::empty().contains(PadButton::DPadUp));
    assert(!Set::<PadButton>::empty().contains(PadButton::DPadDown));
}

/// Each tick's stick direction is what the next tick compares against,
/// a centred stick included.
pub proof fn lemma_stick_direction_is_remembered(v: UiNavView, just_pressed: Set<PadButton>, stick_y: int)
    ensures
        navigate_spec(v, just_pressed, stick_y).last_stick_y == stick_y,
{
}

/// Menus with the same row counts, in the same order, have the same
/// owner.
pub proof fn lemma_owner_follows_counts(a: Seq<(Seq<char>, MenuNav)>, b: Seq<(Seq<char>, MenuNav)>)
    requires
        a.len() == b.len(),
        forall|i: int| 0 <= i < a.len() ==> #[trigger] a[i].1.count == b[i].1.count,
    ensures
        owner(a) == owner(b),
    decreases a.len(),
{
    if a.len() > 0 {
        let da = a.drop_last();
        let db = b.drop_last();
        assert forall|i: int| 0 <= i < da.len() implies #[trigger] da[i].1.count == db[i].1.count by {
            assert(da[i] == a[i] && db[i] == b[i]);
        }
        lemma_owner_follows_counts(da, db);
        assert(a.last().1.count == b.last().1.count);
    }
}

/// A tick of navigation keeps every menu's name and row count, so the
/// same menu owns the cursor afterwards.
pub proof fn lemma_navigation_keeps_menus(v: UiNavView, just_pressed: Set<PadButton>, stick_y: int)
    ensures
        navigate_spec(v, just_pressed, stick_y).menus.len() == v.menus.len(),
        forall|i: int|
            0 <= i < v.menus.len() ==> (#[trigger] navigate_spec(v, just_pressed, stick_y).menus[i]).0
                == v.menus[i].0 && navigate_spec(v, just_pressed, stick_y).menus[i].1.count
                == v.menus[i].1.count,
        owner(navigate_spec(v, just_pressed, stick_y).menus) == owner(v.menus),
{
    let nv = navigate_spec(v, just_pressed, stick_y);
    let cleared = cleared_menus(v.menus);
    lemma_owner(v.menus);
    assert forall|i: int| 0 <= i < v.menus.len() implies (#[trigger] nv.menus[i]).0 == v.menus[i].0
        && nv.menus[i].1.count == v.menus[i].1.count by {
        assert(cleared[i].0 == v.menus[i].0 && cleared[i].1.count == v.menus[i].1.count);
    }
    lemma_owner_follows_counts(nv.menus, v.menus);
}

/// Letting the stick go back to the centre for a tick and flicking it
/// again moves the cursor again: the centred tick leaves the cursor where
/// it was, and the next flick moves the owning menu's cursor one row in
/// its direction (down for 1, up for -1), wrapping at the ends, whatever
/// direction was seen before the release.
pub proof fn lemma_release_then_reflick_moves_again(v: UiNavView, stick_y: int)
    requires
        owner(v.menus) is Some,
        stick_y == 1 || stick_y == -1,
    ensures
        0 <= owner(v.menus)->0 < v.menus.len(),
        v.menus[owner(v.menus)->0].1.count > 0,
        navigate_spec(v, Set::empty(), 0).last_stick_y == 0,
        owner(navigate_spec(v, Set::empty(), 0).menus) == owner(v.menus),
        navigate_spec(v, Set::empty(), 0).menus[owner(v.menus)->0].1.selected
            == v.menus[owner(v.menus)->0].1.selected,
        stick_y == 1 ==> navigate_spec(navigate_spec(v, Set::empty(), 0), Set::empty(), stick_y).menus[owner(
            v.menus,
        )->0].1.selected == (v.menus[owner(v.menus)->0].1.selected + 1) % (v.menus[owner(v.menus)->0].1.count as int),
        stick_y == -1 ==> navigate_spec(navigate_spec(v, Set::empty(), 0), Set::empty(), stick_y).menus[owner(
            v.menus,
        )->0].1.selected == (v.menus[owner(v.menus)->0].1.selected + v.menus[owner(v.menus)->0].1.count - 1) % (
        v.menus[owner(v.menus)->0].1.count as int),
{
    lemma_owner(v.menus);
    let k = owner(v.menus)->0;
    let empty = Set::<PadButton>::empty();
    assert(!empty.contains(PadButton::DPadUp));
    assert(!empty.contains(PadButton::DPadDown));
    assert(!empty.contains(PadButton::Cross));
    let centred = navigate_spec(v, empty, 0);
    lemma_navigation_keeps_menus(v, empty, 0);
    assert(cleared_menus(v.menus)[k].1.selected == v.menus[k].1.selected);
    assert(centred.menus[k].1.selected == v.menus[k].1.selected);
    assert(centred.menus[k].1.count == v.menus[k].1.count);
}

/// The dpad moves the owning menu's cursor one row, wrapping at the
/// ends: down to the next row, up to the previous one, and both at once
/// leave it where it was; with neither (and no flick) it stays. Cross
/// confirms the row the cursor lands on.
pub proof fn lemma_dpad_moves_the_owner(v: UiNavView, just_pressed: Set<PadButton>, stick_y: int)
    requires
        nav_well_formed(v.menus),
        owner(v.menus) is Some,
        stick_y == 0 || stick_y == v.last_stick_y,
    ensures
        0 <= owner(v.menus)->0 < v.menus.len(),
        just_pressed.contains(PadButton::DPadDown) && !just_pressed.contains(PadButton::DPadUp) ==> navigate_spec(
            v,
            just_pressed,
            stick_y,
        ).menus[owner(v.menus)->0].1.selected == (v.menus[owner(v.menus)->0].1.selected + 1) % (v.menus[owner(
            v.menus,
        )->0].1.count as int),
        just_pressed.contains(PadButton::DPadUp) && !just_pressed.contains(PadButton::DPadDown) ==> navigate_spec(
            v,
            just_pressed,
            stick_y,
        ).menus[owner(v.menus)->0].1.selected == (v.menus[owner(v.menus)->0].1.selected + v.menus[owner(
            v.menus,
        )->0].1.count - 1) % (v.menus[owner(v.menus)->0].1.count as int),
        just_pressed.contains(PadButton::DPadUp) == just_pressed.contains(PadButton::DPadDown) ==> navigate_spec(
            v,
            just_pressed,
            stick_y,
        ).menus[owner(v.menus)->0].1.selected == v.menus[owner(v.menus)->0].1.selected,
        just_pressed.contains(PadButton::Cross) ==> navigate_spec(v, just_pressed, stick_y).menus[owner(
            v.menus,
        )->0].1.confirmed == Some(navigate_spec(v, just_pressed, stick_y).menus[owner(v.menus)->0].1.selected),
{
    lemma_owner(v.menus);
    let k = owner(v.menus)->0;
    let s0 = v.menus[k].1.selected as int;
    let c = v.menus[k].1.count as int;
    assert(cursor_in_range(v.menus[k].1));
    assert(0 <= s0 < c);
    if s0 == 0 {
        vstd::arithmetic::div_mod::lemma_mod_self_0(c);
        vstd::arithmetic::div_mod::lemma_small_mod((c - 1) as nat, c as nat);
        assert((s0 + c - 1) % c == c - 1);
    } else {
        vstd::arithmetic::div_mod::lemma_mod_add_multiples_vanish(s0 - 1, c);
        vstd::arithmetic::div_mod::lemma_small_mod((s0 - 1) as nat, c as nat);
        assert(s0 + c - 1 == (s0 - 1) + c);
        assert((s0 + c - 1) % c == s0 - 1);
    }
    let a = (s0 + c - 1) % c;
    if a + 1 == c {
        vstd::arithmetic::div_mod::lemma_mod_self_0(c);
    } else {
        vstd::arithmetic::div_mod::lemma_small_mod((a + 1) as nat, c as nat);
    }
    assert(moved(s0, c, true, true) == s0);
}

/// Where menu names are distinct, a name is found exactly where it
/// stands.
proof fn lemma_menu_index_at(menus: Seq<(Seq<char>, MenuNav)>, name: Seq<char>, j: int)
    requires
        nav_well_formed(menus),
        0 <= j < menus.len(),
        menus[j].0 == name,
    ensures
        menu_index(menus, name) == Some(j),
{
    let c = choose|i: int| 0 <= i < menus.len() && menus[i].0 == name;
    if c != j {
        if c < j {
            assert(menus[c].0 != menus[j].0);
        } else {
            assert(menus[j].0 != menus[c].0);
        }
    }
}

/// Declaring a menu leaves it findable by its name with the given row
/// count and the names distinct. A menu that existed keeps its place and
/// its cursor, clamped to the last row when it shrank below the cursor
/// (to the first when it has no rows); a new menu joins last with the
/// first row selected and nothing confirmed. The stick history is kept.
pub proof fn lemma_declare_clamps_the_cursor(v: UiNavView, name: Seq<char>, count: int)
    requires
        nav_well_formed(v.menus),
        0 <= count <= usize::MAX,
    ensures
        nav_well_formed(declare_spec(v, name, count).menus),
        declare_spec(v, name, count).last_stick_y == v.last_stick_y,
        menu_index(declare_spec(v, name, count).menus, name) is Some,
        declare_spec(v, name, count).menus[menu_index(declare_spec(v, name, count).menus, name)->0].1.count
            == count,
        menu_index(v.menus, name) is Some ==> menu_index(declare_spec(v, name, count).menus, name) == menu_index(
            v.menus,
            name,
        ),
        menu_index(v.menus, name) is Some ==> declare_spec(v, name, count).menus[menu_index(
            v.menus,
            name,
        )->0].1.selected == (if v.menus[menu_index(v.menus, name)->0].1.selected < count {
            v.menus[menu_index(v.menus, name)->0].1.selected as int
        } else if count > 0 {
            count - 1
        } else {
            0
        }),
        menu_index(v.menus, name) is None ==> menu_index(declare_spec(v, name, count).menus, name) == Some(
            v.menus.len() as int,
        ),
        menu_index(v.menus, name) is None ==> declare_spec(v, name, count).menus[v.menus.len() as int].1 == (
        MenuNav { selected: 0, count: count as usize, confirmed: None }),
{
    let r = declare_spec(v, name, count);
    match menu_index(v.menus, name) {
        Some(j) => {
            let c = choose|i: int| 0 <= i < v.menus.len() && v.menus[i].0 == name;
            assert(0 <= j < v.menus.len() && v.menus[j].0 == name);
            assert(r.menus.len() == v.menus.len());
            assert forall|a: int, b: int| 0 <= a < b < r.menus.len() implies #[trigger] r.menus[a].0
                != #[trigger] r.menus[b].0 by {
                assert(r.menus[a].0 == v.menus[a].0 && r.menus[b].0 == v.menus[b].0);
            }
            assert forall|a: int| 0 <= a < r.menus.len() implies cursor_in_range(#[trigger] r.menus[a].1) by {
                if a != j {
                    assert(r.menus[a] == v.menus[a]);
                }
            }
            lemma_menu_index_at(r.menus, name, j);
        },
        None => {
            let n = v.menus.len() as int;
            assert(r.menus.len() == n + 1);
            assert forall|a: int, b: int| 0 <= a < b < r.menus.len() implies #[trigger] r.menus[a].0
                != #[trigger] r.menus[b].0 by {
                assert(r.menus[a] == v.menus[a]);
                if b < n {
                    assert(r.menus[b] == v.menus[b]);
                } else {
                    assert(!(0 <= a < v.menus.len() && v.menus[a].0 == name));
                }
            }
            assert forall|a: int| 0 <= a < r.menus.len() implies cursor_in_range(#[trigger] r.menus[a].1) by {
                if a < n {
                    assert(r.menus[a] == v.menus[a]);
                }
            }
            lemma_menu_index_at(r.menus, name, n);
        },
    }
}

/// Closing a menu forgets it and nothing else: its name is no longer
/// found, every other menu is found as it was, with its cursor, and the
/// stick history is kept.
pub proof fn lemma_close_forgets_only_that_menu(v: UiNavView, name: Seq<char>, other: Seq<char>)
    requires
        nav_well_formed(v.menus),
        other != name,
    ensures
        nav_well_formed(close_spec(v, name).menus),
        close_spec(v, name).last_stick_y == v.last_stick_y,
        menu_index(close_spec(v, name).menus, name) is None,
        (menu_index(close_spec(v, name).menus, other) is Some) == (menu_index(v.menus, other) is Some),
        menu_index(v.menus, other) is Some ==> close_spec(v, name).menus[menu_index(
            close_spec(v, name).menus,
            other,
        )->0] == v.menus[menu_index(v.menus, other)->0],
{
    match menu_index(v.menus, name) {
        None => {},
        Some(i) => {
            let c = choose|k: int| 0 <= k < v.menus.len() && v.menus[k].0 == name;
            assert(0 <= i < v.menus.len() && v.menus[i].0 == name);
            let r = v.menus.remove(i);
            assert(r.len() == v.menus.len() - 1);
            assert forall|a: int| 0 <= a < r.len() implies #[trigger] r[a] == v.menus[if a < i {
                a
            } else {
                a + 1
            }] by {}
            assert forall|a: int, b: int| 0 <= a < b < r.len() implies #[trigger] r[a].0 != #[trigger] r[b].0 by {
                let oa = if a < i { a } else { a + 1 };
                let ob = if b < i { b } else { b + 1 };
                assert(r[a] == v.menus[oa]);
                assert(r[b] == v.menus[ob]);
            }
            assert forall|a: int| 0 <= a < r.len() implies cursor_in_range(#[trigger] r[a].1) by {
                let oa = if a < i { a } else { a + 1 };
                assert(r[a] == v.menus[oa]);
            }
            assert(!exists|a: int| 0 <= a < r.len() && r[a].0 == name) by {
                if exists|a: int| 0 <= a < r.len() && r[a].0 == name {
                    let a = choose|a: int| 0 <= a < r.len() && r[a].0 == name;
                    let oa = if a < i { a } else { a + 1 };
                    assert(r[a] == v.menus[oa]);
                    if oa < i {
                        assert(v.menus[oa].0 != v.menus[i].0);
                    } else {
                        assert(v.menus[i].0 != v.menus[oa].0);
                    }
                }
            }
            match menu_index(v.menus, other) {
                Some(j) => {
                    let cj = choose|k: int| 0 <= k < v.menus.len() && v.menus[k].0 == other;
                    assert(0 <= j < v.menus.len() && v.menus[j].0 == other);
                    assert(j != i);
                    let nj = if j < i { j } else { j - 1 };
                    assert(r[nj] == v.menus[j]);
                    lemma_menu_index_at(r, other, nj);
                },
                None => {
                    assert(!exists|a: int| 0 <= a < r.len() && r[a].0 == other) by {
                        if exists|a: int| 0 <= a < r.len() && r[a].0 == other {
                            let a = choose|a: int| 0 <= a < r.len() && r[a].0 == other;
                            let oa = if a < i { a } else { a + 1 };
                            assert(r[a] == v.menus[oa]);
                        }
                    }
                },
            }
        },
    }
}

/// A flick is a stick direction different from last tick's: from the
/// centre or straight from the other direction, it moves the owning
/// menu's cursor one row, down for 1 and up for -1, wrapping at the ends.
pub proof fn lemma_flick_moves_one_row(v: UiNavView, stick_y: int)
    requires
        owner(v.menus) is Some,
        stick_y == 1 || stick_y == -1,
        v.last_stick_y != stick_y,
    ensures
        0 <= owner(v.menus)->0 < v.menus.len(),
        stick_y == 1 ==> navigate_spec(v, Set::empty(), stick_y).menus[owner(v.menus)->0].1.selected == (
        v.menus[owner(v.menus)->0].1.selected + 1) % (v.menus[owner(v.menus)->0].1.count as int),
        stick_y == -1 ==> navigate_spec(v, Set::empty(), stick_y).menus[owner(v.menus)->0].1.selected == (
        v.menus[owner(v.menus)->0].1.selected + v.menus[owner(v.menus)->0].1.count - 1) % (v.menus[owner(
            v.menus,
        )->0].1.count as int),
{
    lemma_owner(v.menus);
    let empty = Set::<PadButton>::empty();
    assert(!empty.contains(PadButton::DPadUp));
    assert(!empty.contains(PadButton::DPadDown));
}

} // verus!
