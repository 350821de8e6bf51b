//! The virtual screen: the game renders into a fixed-size image that is
//! integer-scaled and letterboxed into the window, and the camera layout
//! the final post-process pass depends on.

use vstd::prelude::*;
use vstd::string::*;

use crate::text::same_text;

verus! {

/// Virtual resolution the whole game is rendered at.
pub const GAME_WIDTH: u32 = 320;

pub const GAME_HEIGHT: u32 = 240;

/// A size or position in whole pixels.
#[derive(Clone, Copy, Debug, PartialEq, Eq, Structural)]
pub struct UVec2 {
    pub x: u32,
    pub y: u32,
}

impl UVec2 {
    /// A size or position from its two coordinates.
    pub fn new(x: u32, y: u32) -> (v: UVec2)
        ensures
            v.x == x,
            v.y == y,
    {
        UVec2 { x, y }
    }
}

/// Size of the offscreen game image.
pub fn game_size() -> (s: UVec2)
    ensures
        s.x == GAME_WIDTH,
        s.y == GAME_HEIGHT,
{
    UVec2 { x: GAME_WIDTH, y: GAME_HEIGHT }
}

/// The largest whole multiple of `game` that fits inside `window`, and
/// at least 1 so tiny windows crop the picture instead of breaking the
/// math.
pub open spec fn scale_for(window: UVec2, game: UVec2) -> int {
    let sx = window.x as int / game.x as int;
    let sy = window.y as int / game.y as int;
    let s = if sx < sy {
        sx
    } else {
        sy
    };
    if s < 1 {
        1
    } else {
        s
    }
}

/// Largest whole multiple of `game` that fits inside `window`, at least 1.
pub fn integer_scale(window: UVec2, game: UVec2) -> (s: u32)
    requires
        game.x > 0,
        game.y > 0,
    ensures
        s == scale_for(window, game),
{
    let sx = window.x / game.x;
    let sy = window.y / game.y;
    let s = if sx < sy {
        sx
    } else {
        sy
    };
    if s < 1 {
        1
    } else {
        s
    }
}

/// Window-space size of the presented game image: the game size times
/// the integer scale.
pub fn presented_size(window: UVec2, game: UVec2) -> (p: UVec2)
    requires
        game.x > 0,
        game.y > 0,
    ensures
        p.x == game.x * scale_for(window, game),
        p.y == game.y * scale_for(window, game),
{
    let s = integer_scale(window, game);
    proof {
        if s > 1 {
            lemma_scaled_fits(window.x as int, game.x as int, s as int);
            lemma_scaled_fits(window.y as int, game.y as int, s as int);
        }
    }
    UVec2 { x: game.x * s, y: game.y * s }
}

/// The presented picture is the largest whole multiple of the game
/// size that fits the window: when the window holds the game image at
/// least once, the picture fits, and one more multiple would not; a
/// smaller window shows the game image once, cropped.
pub proof fn lemma_largest_fitting_multiple(window: UVec2, game: UVec2)
    requires
        game.x > 0,
        game.y > 0,
    ensures
        scale_for(window, game) >= 1,
        window.x >= game.x && window.y >= game.y ==> game.x * scale_for(window, game) <= window.x
            && game.y * scale_for(window, game) <= window.y,
        game.x * (scale_for(window, game) + 1) > window.x || game.y * (scale_for(window, game) + 1)
            > window.y,
        window.x < game.x || window.y < game.y ==> scale_for(window, game) == 1,
{
    let s = scale_for(window, game);
    let wx = window.x as int;
    let wy = window.y as int;
    let gx = game.x as int;
    let gy = game.y as int;
    vstd::arithmetic::div_mod::lemma_fundamental_div_mod(wx, gx);
    vstd::arithmetic::div_mod::lemma_fundamental_div_mod(wy, gy);
    vstd::arithmetic::div_mod::lemma_mod_bound(wx, gx);
    vstd::arithmetic::div_mod::lemma_mod_bound(wy, gy);
    vstd::arithmetic::div_mod::lemma_div_pos_is_pos(wx, gx);
    vstd::arithmetic::div_mod::lemma_div_pos_is_pos(wy, gy);
    if wx >= gx && wy >= gy {
        vstd::arithmetic::div_mod::lemma_div_is_ordered(gx, wx, gx);
        vstd::arithmetic::div_mod::lemma_div_is_ordered(gy, wy, gy);
        vstd::arithmetic::div_mod::lemma_div_by_self(gx);
        vstd::arithmetic::div_mod::lemma_div_by_self(gy);
        lemma_scaled_fits(wx, gx, s);
        lemma_scaled_fits(wy, gy, s);
    }
    if wx < gx {
        vstd::arithmetic::div_mod::lemma_basic_div(wx, gx);
    }
    if wy < gy {
        vstd::arithmetic::div_mod::lemma_basic_div(wy, gy);
    }
    let qx = wx / gx;
    let qy = wy / gy;
    assert(gx * (qx + 1) > wx) by (nonlinear_arith)
        requires
            wx == gx * qx + wx % gx,
            wx % gx < gx,
    ;
    assert(gy * (qy + 1) > wy) by (nonlinear_arith)
        requires
            wy == gy * qy + wy % gy,
            wy % gy < gy,
    ;
    if s == qx {
        assert(gx * (s + 1) > wx);
    } else if s == qy {
        assert(gy * (s + 1) > wy);
    } else if qx < 1 {
        assert(s == 1);
        assert(gx * (s + 1) > wx) by (nonlinear_arith)
            requires
                s == 1,
                gx * (qx + 1) > wx,
                qx == 0,
                gx > 0,
        ;
    } else {
        assert(s == 1 && qy == 0);
        assert(gy * (s + 1) > wy) by (nonlinear_arith)
            requires
                s == 1,
                gy * (qy + 1) > wy,
                qy == 0,
                gy > 0,
        ;
    }
}

/// A whole multiple of `game` no larger than `window / game` fits.
proof fn lemma_scaled_fits(window: int, game: int, s: int)
    requires
        game > 0,
        window >= 0,
        0 <= s <= window / game,
    ensures
        game * s <= window,
{
    vstd::arithmetic::div_mod::lemma_fundamental_div_mod(window, game);
    vstd::arithmetic::div_mod::lemma_mod_bound(window, game);
    assert(game * s <= game * (window / game)) by (nonlinear_arith)
        requires
            game > 0,
            s <= window / game,
    ;
}

/// One camera drawing into the game image, reduced to what the
/// post-process layout depends on.
#[derive(Clone, Copy, Debug, PartialEq, Eq, Structural)]
pub struct GameImageCamera {
    pub order: isize,
    pub carries_post_effects: bool,
}

/// How many cameras carry the post-process effects.
pub open spec fn effect_cameras(cameras: Seq<GameImageCamera>) -> nat
    decreases cameras.len(),
{
    if cameras.len() == 0 {
        0
    } else {
        effect_cameras(cameras.drop_last()) + if cameras.last().carries_post_effects {
            1nat
        } else {
            0nat
        }
    }
}

/// The highest draw order among cameras that carry the effects
/// (`effects` true) or among those that don't and draw after `above`.
pub open spec fn highest_order(cameras: Seq<GameImageCamera>, effects: bool, above: int) -> Option<int>
    decreases cameras.len(),
{
    if cameras.len() == 0 {
        None
    } else {
        let rest = highest_order(cameras.drop_last(), effects, above);
        let c = cameras.last();
        if c.carries_post_effects == effects && (effects || c.order > above) {
            match rest {
                Some(r) => if r >= c.order {
                    Some(r)
                } else {
                    Some(c.order as int)
                },
                None => Some(c.order as int),
            }
        } else {
            rest
        }
    }
}

/// A digit character.
pub open spec fn digit_char(d: nat) -> char {
    ('0' as int + d) as char
}

/// The decimal spelling of a natural number.
pub open spec fn decimal(n: nat) -> Seq<char>
    decreases n,
{
    if n < 10 {
        seq![digit_char(n)]
    } else {
        decimal(n / 10).push(digit_char(n % 10))
    }
}

/// The decimal spelling of an integer, with a leading `-` when negative.
pub open spec fn signed_decimal(n: int) -> Seq<char> {
    if n < 0 {
        seq!['-'] + decimal((-n) as nat)
    } else {
        decimal(n as nat)
    }
}

/// The warning when the effects are not on exactly one camera.
pub open spec fn count_violation(found: nat) -> Seq<char> {
    "expected exactly one post-process camera targeting the game image, found "@ + decimal(found)
}

/// The warning when a camera draws after the effects camera.
pub open spec fn order_violation(later: int, effects: int) -> Seq<char> {
    "camera at order "@ + signed_decimal(later) + " draws into the game image after the post-process camera at order "@
        + signed_decimal(effects) + " and renders without its effects"@
}

/// Why a camera layout would break the post-process pass: the effects
/// must be on exactly one camera, and nothing may draw after that camera
/// (content above it would render without the effects).
pub open spec fn violations(cameras: Seq<GameImageCamera>) -> Seq<Seq<char>> {
    let count = effect_cameras(cameras);
    let first = if count != 1 {
        seq![count_violation(count)]
    } else {
        Seq::empty()
    };
    match highest_order(cameras, true, 0) {
        Some(e) => match highest_order(cameras, false, e) {
            Some(l) => first.push(order_violation(l, e)),
            None => first,
        },
        None => first,
    }
}

fn digit_text(d: u128) -> (s: &'static str)
    requires
        d < 10,
    ensures
        s@ == seq![digit_char(d as nat)],
{
    proof {
        reveal_strlit("0");
        reveal_strlit("1");
        reveal_strlit("2");
        reveal_strlit("3");
        reveal_strlit("4");
        reveal_strlit("5");
        reveal_strlit("6");
        reveal_strlit("7");
        reveal_strlit("8");
        reveal_strlit("9");
    }
    let s = if d == 0 {
        "0"
    } else if d == 1 {
        "1"
    } else if d == 2 {
        "2"
    } else if d == 3 {
        "3"
    } else if d == 4 {
        "4"
    } else if d == 5 {
        "5"
    } else if d == 6 {
        "6"
    } else if d == 7 {
        "7"
    } else if d == 8 {
        "8"
    } else {
        "9"
    };
    assert(s@ =~= seq![digit_char(d as nat)]);
    s
}

/// Spells a natural number in decimal.
pub fn decimal_text(n: u128) -> (s: String)
    ensures
        s@ == decimal(n as nat),
    decreases n,
{
    let d = digit_text(n % 10);
    if n < 10 {
        String::from_str(d)
    } else {
        decimal_text(n / 10).concat(d)
    }
}

/// Spells an integer in decimal, with a leading `-` when negative.
pub fn signed_decimal_text(n: isize) -> (s: String)
    ensures
        s@ == signed_decimal(n as int),
{
    if n < 0 {
        let magnitude = (0i128 - n as i128) as u128;
        let minus = String::from_str("-");
        proof {
            reveal_strlit("-");
        }
        minus.concat(decimal_text(magnitude).as_str())
    } else {
        decimal_text(n as u128)
    }
}

/// Checks the game-image camera layout the post-process pass depends
/// on, returning one warning per broken rule.
#[verifier::spinoff_prover]
#[verifier::rlimit(30)]
pub fn post_process_violations(cameras: &[GameImageCamera]) -> (v: Vec<String>)
    ensures
        v@.map_values(|s: String| s@) == violations(cameras@),
{
    let mut count: usize = 0;
    let mut effects: Option<isize> = None;
    let mut i: usize = 0;
    assert(cameras@.take(0) =~= Seq::<GameImageCamera>::empty());
    while i < cameras.len()
        invariant
            i <= cameras@.len(),
            count == effect_cameras(cameras@.take(i as int)),
            count <= i,
            effects == match highest_order(cameras@.take(i as int), true, 0) {
                Some(e) => Some(e as isize),
                None => None::<isize>,
            },
            effects matches Some(e) ==> highest_order(cameras@.take(i as int), true, 0) == Some(e as int),
        decreases cameras@.len() - i,
    {
        assert(cameras@.take(i + 1).drop_last() =~= cameras@.take(i as int));
        assert(cameras@.take(i + 1).last() == cameras@[i as int]);
        let c = cameras[i];
        if c.carries_post_effects {
            count = count + 1;
            effects = match effects {
                Some(e) => if e >= c.order {
                    Some(e)
                } else {
                    Some(c.order)
                },
                None => Some(c.order),
            };
        }
        i = i + 1;
    }
    assert(cameras@.take(cameras@.len() as int) =~= cameras@);
    let mut out: Vec<String> = Vec::new();
    if count != 1 {
        let msg = String::from_str(
            "expected exactly one post-process camera targeting the game image, found ",
        ).concat(decimal_text(count as u128).as_str());
        out.push(msg);
    }
    let ghost first = out@.map_values(|s: String| s@);
    assert(first =~= (if effect_cameras(cameras@) != 1 {
        seq![count_violation(effect_cameras(cameras@))]
    } else {
        Seq::<Seq<char>>::empty()
    }));
    if let Some(e) = effects {
        let mut later: Option<isize> = None;
        let mut j: usize = 0;
        assert(cameras@.take(0) =~= Seq::<GameImageCamera>::empty());
        while j < cameras.len()
            invariant
                j <= cameras@.len(),
                later == match highest_order(cameras@.take(j as int), false, e as int) {
                    Some(l) => Some(l as isize),
                    None => None::<isize>,
                },
                later matches Some(l) ==> highest_order(cameras@.take(j as int), false, e as int) == Some(
                    l as int,
                ),
            decreases cameras@.len() - j,
        {
            assert(cameras@.take(j + 1).drop_last() =~= cameras@.take(j as int));
            assert(cameras@.take(j + 1).last() == cameras@[j as int]);
            let c = cameras[j];
            if !c.carries_post_effects && c.order > e {
                later = match later {
                    Some(l) => if l >= c.order {
                        Some(l)
                    } else {
                        Some(c.order)
                    },
                    None => Some(c.order),
                };
            }
            j = j + 1;
        }
        assert(cameras@.take(cameras@.len() as int) =~= cameras@);
        if let Some(l) = later {
            let msg = String::from_str("camera at order ").concat(signed_decimal_text(l).as_str()).concat(
                " draws into the game image after the post-process camera at order ",
            ).concat(signed_decimal_text(e).as_str()).concat(" and renders without its effects");
            out.push(msg);
            assert(out@.map_values(|s: String| s@) =~= first.push(order_violation(l as int, e as int)));
        }
    }
    out
}

/// Whether two lists of texts are equal, entry by entry.
fn same_texts(a: &Vec<String>, b: &Vec<String>) -> (r: bool)
    ensures
        r == (a@.map_values(|s: String| s@) == b@.map_values(|s: String| s@)),
{
    let ghost at = a@.map_values(|s: String| s@);
    let ghost bt = b@.map_values(|s: String| s@);
    if a.len() != b.len() {
        assert(at.len() != bt.len());
        return false;
    }
    let mut i: usize = 0;
    while i < a.len()
        invariant
            at == a@.map_values(|s: String| s@),
            bt == b@.map_values(|s: String| s@),
            a@.len() == b@.len(),
            i <= a@.len(),
            forall|k: int| 0 <= k < i ==> #[trigger] at[k] == bt[k],
        decreases a@.len() - i,
    {
        if !same_text(a[i].as_str(), b[i].as_str()) {
            assert(at[i as int] != bt[i as int]);
            return false;
        }
        i = i + 1;
    }
    assert(at =~= bt);
    true
}

/// The layout warnings to print and the set then remembered: the whole
/// new set when it differs from the set last printed, and nothing while
/// it stays the same.
pub open spec fn report_step(seen: Seq<Seq<char>>, violations: Seq<Seq<char>>) -> (
    Seq<Seq<char>>,
    Seq<Seq<char>>,
) {
    if seen == violations {
        (Seq::empty(), seen)
    } else {
        (violations, violations)
    }
}

/// Texts of a list of strings.
pub open spec fn texts_of(v: Seq<String>) -> Seq<Seq<char>> {
    v.map_values(|s: String| s@)
}

/// A steady problem warns once: reporting the same set again prints
/// nothing, and a changed set is printed in full.
pub proof fn lemma_steady_problem_warns_once(seen: Seq<Seq<char>>, violations: Seq<Seq<char>>)
    ensures
        report_step(report_step(seen, violations).1, violations).0.len() == 0,
        seen != violations ==> report_step(seen, violations).0 == violations,
{
}

/// Decides which layout warnings to print this frame (see
/// [`report_step`]); `seen` holds the set last printed.
pub fn report_violations(seen: &mut Vec<String>, violations: Vec<String>) -> (warn: Vec<String>)
    ensures
        (texts_of(warn@), texts_of(final(seen)@)) == report_step(texts_of(old(seen)@), texts_of(violations@)),
{
    if same_texts(seen, &violations) {
        let none: Vec<String> = Vec::new();
        assert(texts_of(none@) =~= Seq::<Seq<char>>::empty());
        return none;
    }
    let mut copy: Vec<String> = Vec::new();
    let mut i: usize = 0;
    while i < violations.len()
        invariant
            i <= violations@.len(),
            copy@.len() == i,
            forall|k: int| 0 <= k < i ==> #[trigger] copy@[k]@ == violations@[k]@,
        decreases violations@.len() - i,
    {
        copy.push(String::from_str(violations[i].as_str()));
        i = i + 1;
    }
    assert(copy@.map_values(|s: String| s@) =~= violations@.map_values(|s: String| s@));
    *seen = copy;
    violations
}

} // verus!
