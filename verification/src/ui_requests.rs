//! One tick's batch of script UI requests, reduced to what the tick
//! applies: the pause policy, the windows to close, the windows to
//! (re)build with their content and option-row count, and the windows
//! that got content before any declaration (each warned about once).
//!
//! Per window, whichever of a close or a declaration comes last in the
//! batch wins; content attaches to the latest declaration. What only
//! drawing needs (a window's rectangle, a piece of content) passes
//! through untouched as `R` and `C`.

use vstd::prelude::*;

use crate::text::{lemma_text_order, same_text, text_before, text_less};

verus! {

/// A UI request a script made this tick.
pub enum UiRequest<R, C> {
    /// Whether the field pauses while the UI shows.
    Pause(bool),
    /// Close the named window.
    Close { name: String },
    /// (Re)declare the named window at `rect`, dropping earlier content.
    Window { name: String, rect: R },
    /// Content for a window; `options` is the row count when the
    /// content is an options list.
    Content { window: String, content: C, options: Option<usize> },
}

/// What a batch amounts to.
pub struct BatchView<R, C> {
    /// The last pause request, if any.
    pub pause: Option<bool>,
    /// The windows to close.
    pub closes: Set<Seq<char>>,
    /// The windows to build: rectangle, content in order, option rows.
    pub windows: Map<Seq<char>, (R, Seq<C>, nat)>,
    /// Windows that got content while undeclared, in order of the first
    /// stray piece, each once.
    pub undeclared: Seq<Seq<char>>,
}

/// Nothing requested yet.
pub open spec fn empty_batch<R, C>() -> BatchView<R, C> {
    BatchView { pause: None, closes: Set::empty(), windows: Map::empty(), undeclared: Seq::empty() }
}

/// One request applied to what the batch amounts to so far.
pub open spec fn batch_step<R, C>(s: BatchView<R, C>, r: UiRequest<R, C>) -> BatchView<R, C> {
    match r {
        UiRequest::Pause(value) => BatchView { pause: Some(value), ..s },
        UiRequest::Close { name } => BatchView {
            closes: s.closes.insert(name@),
            windows: s.windows.remove(name@),
            ..s
        },
        UiRequest::Window { name, rect } => BatchView {
            closes: s.closes.remove(name@),
            windows: s.windows.insert(name@, (rect, Seq::empty(), 0)),
            ..s
        },
        UiRequest::Content { window, content, options } => if s.windows.contains_key(window@) {
            let entry = s.windows[window@];
            BatchView {
                windows: s.windows.insert(
                    window@,
                    (
                        entry.0,
                        entry.1.push(content),
                        match options {
                            Some(n) => n as nat,
                            None => entry.2,
                        },
                    ),
                ),
                ..s
            }
        } else if s.undeclared.contains(window@) {
            s
        } else {
            BatchView { undeclared: s.undeclared.push(window@), ..s }
        },
    }
}

/// What a batch of requests amounts to, applied in order.
pub open spec fn batch_of<R, C>(requests: Seq<UiRequest<R, C>>) -> BatchView<R, C>
    decreases requests.len(),
{
    if requests.len() == 0 {
        empty_batch()
    } else {
        batch_step(batch_of(requests.drop_last()), requests.last())
    }
}

/// A window to build this tick.
pub struct WindowPlan<R, C> {
    pub name: String,
    pub rect: R,
    pub content: Vec<C>,
    /// Rows of the last options list in the content, or 0.
    pub options: usize,
}

/// A batch reduced to what the tick applies, names in sorted order.
pub struct UiPlan<R, C> {
    pub pause: Option<bool>,
    pub closes: Vec<String>,
    pub windows: Vec<WindowPlan<R, C>>,
    pub undeclared: Vec<String>,
}

/// Names in strictly increasing order (so each occurs once).
pub open spec fn strictly_sorted(names: Seq<Seq<char>>) -> bool {
    forall|i: int, j: int| 0 <= i < j < names.len() ==> text_less(#[trigger] names[i], #[trigger] names[j])
}

/// Strings as text.
pub open spec fn name_texts(v: Seq<String>) -> Seq<Seq<char>> {
    v.map_values(|s: String| s@)
}

/// The names of planned windows.
pub open spec fn window_names<R, C>(ws: Seq<WindowPlan<R, C>>) -> Seq<Seq<char>> {
    ws.map_values(|w: WindowPlan<R, C>| w.name@)
}

/// A planned window as values.
pub open spec fn window_entry<R, C>(w: WindowPlan<R, C>) -> (R, Seq<C>, nat) {
    (w.rect, w.content@, w.options as nat)
}

/// The planned windows, sorted by name, are exactly the map's entries.
pub open spec fn windows_agree<R, C>(ws: Seq<WindowPlan<R, C>>, m: Map<Seq<char>, (R, Seq<C>, nat)>) -> bool {
    &&& strictly_sorted(window_names(ws))
    &&& m.dom() == window_names(ws).to_set()
    &&& forall|i: int| 0 <= i < ws.len() ==> m[#[trigger] ws[i].name@] == window_entry(ws[i])
}

/// A plan is what a batch amounts to.
pub open spec fn plan_of<R, C>(plan: UiPlan<R, C>, v: BatchView<R, C>) -> bool {
    &&& plan.pause == v.pause
    &&& strictly_sorted(name_texts(plan.closes@))
    &&& name_texts(plan.closes@).to_set() == v.closes
    &&& windows_agree(plan.windows@, v.windows)
    &&& name_texts(plan.undeclared@) == v.undeclared
}

/// `p` is where `n` belongs among the sorted `names`: everything before
/// it sorts before `n`, and what is at `p` does not.
pub open spec fn slot(names: Seq<Seq<char>>, n: Seq<char>, p: int) -> bool {
    &&& 0 <= p <= names.len()
    &&& forall|i: int| 0 <= i < p ==> text_less(#[trigger] names[i], n)
    &&& p < names.len() ==> !text_less(names[p], n)
}

/// A name absent at its slot is absent everywhere, and inserting it
/// there keeps the names sorted.
proof fn lemma_slot_absent(names: Seq<Seq<char>>, n: Seq<char>, p: int)
    requires
        strictly_sorted(names),
        slot(names, n, p),
        !(p < names.len() && names[p] == n),
    ensures
        !names.contains(n),
        strictly_sorted(names.insert(p, n)),
        names.insert(p, n).to_set() == names.to_set().insert(n),
{
    names.insert_ensures(p, n);
    assert forall|i: int| 0 <= i < names.len() implies names[i] != n && (i >= p ==> text_less(n, names[i])) by {
        lemma_text_order(names[i], n, names[i]);
        if i >= p {
            lemma_text_order(names[p], n, names[i]);
            lemma_text_order(n, names[p], names[i]);
            if i > p {
                assert(text_less(names[p], names[i]));
            }
        }
    }
    let ins = names.insert(p, n);
    assert forall|i: int, j: int| 0 <= i < j < ins.len() implies text_less(#[trigger] ins[i], #[trigger] ins[j]) by {
        if j < p {
            assert(ins[i] == names[i] && ins[j] == names[j]);
        } else if j == p {
            assert(ins[i] == names[i]);
        } else if i < p {
            assert(ins[i] == names[i] && ins[j] == names[j - 1]);
            lemma_text_order(names[i], n, names[j - 1]);
        } else if i == p {
            assert(ins[j] == names[j - 1]);
        } else {
            assert(ins[i] == names[i - 1] && ins[j] == names[j - 1]);
        }
    }
    assert forall|x: Seq<char>| ins.contains(x) <==> names.to_set().insert(n).contains(x) by {
        if ins.contains(x) {
            let k = choose|k: int| 0 <= k < ins.len() && ins[k] == x;
            if k < p {
                assert(names[k] == x);
            } else if k > p {
                assert(names[k - 1] == x);
            }
        }
        if names.contains(x) {
            let k = choose|k: int| 0 <= k < names.len() && names[k] == x;
            if k < p {
                assert(ins[k] == x);
            } else {
                assert(ins[k + 1] == x);
            }
        }
        if x == n {
            assert(ins[p] == n);
        }
    }
    assert(ins.to_set() =~= names.to_set().insert(n));
}

/// A name present in sorted names occurs once, and removing it keeps
/// the rest sorted.
proof fn lemma_slot_present(names: Seq<Seq<char>>, p: int)
    requires
        strictly_sorted(names),
        0 <= p < names.len(),
    ensures
        forall|i: int| 0 <= i < names.len() && i != p ==> names[i] != names[p],
        strictly_sorted(names.remove(p)),
        names.remove(p).to_set() == names.to_set().remove(names[p]),
{
    names.remove_ensures(p);
    assert forall|i: int| 0 <= i < names.len() && i != p implies names[i] != names[p] by {
        lemma_text_order(names[i], names[p], names[i]);
        lemma_text_order(names[p], names[i], names[p]);
        if i < p {
            assert(text_less(names[i], names[p]));
        } else {
            assert(text_less(names[p], names[i]));
        }
    }
    let rem = names.remove(p);
    assert forall|i: int, j: int| 0 <= i < j < rem.len() implies text_less(#[trigger] rem[i], #[trigger] rem[j]) by {
        if j < p {
            assert(rem[i] == names[i] && rem[j] == names[j]);
        } else if i < p {
            assert(rem[i] == names[i] && rem[j] == names[j + 1]);
        } else {
            assert(rem[i] == names[i + 1] && rem[j] == names[j + 1]);
        }
    }
    assert forall|x: Seq<char>| rem.contains(x) <==> names.to_set().remove(names[p]).contains(x) by {
        if rem.contains(x) {
            let k = choose|k: int| 0 <= k < rem.len() && rem[k] == x;
            if k < p {
                assert(names[k] == x);
            } else {
                assert(names[k + 1] == x);
            }
        }
        if names.contains(x) && x != names[p] {
            let k = choose|k: int| 0 <= k < names.len() && names[k] == x;
            if k < p {
                assert(rem[k] == x);
            } else {
                assert(rem[k - 1] == x);
            }
        }
    }
    assert(rem.to_set() =~= names.to_set().remove(names[p]));
}

/// Where `name` belongs among sorted names.
fn name_slot(names: &Vec<String>, name: &str) -> (p: usize)
    ensures
        slot(name_texts(names@), name@, p as int),
{
    let ghost ks = name_texts(names@);
    let mut p: usize = 0;
    while p < names.len() && text_before(names[p].as_str(), name)
        invariant
            ks == name_texts(names@),
            p <= names@.len(),
            forall|i: int| 0 <= i < p ==> text_less(#[trigger] ks[i], name@),
        decreases names@.len() - p,
    {
        p = p + 1;
    }
    p
}

/// Where `name` belongs among windows sorted by name.
fn window_slot<R, C>(ws: &Vec<WindowPlan<R, C>>, name: &str) -> (p: usize)
    ensures
        slot(window_names(ws@), name@, p as int),
{
    let ghost ks = window_names(ws@);
    let mut p: usize = 0;
    while p < ws.len() && text_before(ws[p].name.as_str(), name)
        invariant
            ks == window_names(ws@),
            p <= ws@.len(),
            forall|i: int| 0 <= i < p ==> text_less(#[trigger] ks[i], name@),
        decreases ws@.len() - p,
    {
        p = p + 1;
    }
    p
}

/// Whether `name` is among `names`.
fn has_name(names: &Vec<String>, name: &str) -> (r: bool)
    ensures
        r == name_texts(names@).contains(name@),
{
    let ghost ks = name_texts(names@);
    let mut i: usize = 0;
    while i < names.len()
        invariant
            ks == name_texts(names@),
            i <= names@.len(),
            forall|k: int| 0 <= k < i ==> #[trigger] ks[k] != name@,
        decreases names@.len() - i,
    {
        if same_text(names[i].as_str(), name) {
            assert(ks[i as int] == name@);
            return true;
        }
        i = i + 1;
    }
    false
}

/// Adds `name` to a sorted set of names.
fn add_name(names: &mut Vec<String>, name: &str)
    requires
        strictly_sorted(name_texts(old(names)@)),
    ensures
        strictly_sorted(name_texts(final(names)@)),
        name_texts(final(names)@).to_set() == name_texts(old(names)@).to_set().insert(name@),
{
    let ghost ks = name_texts(names@);
    let p = name_slot(names, name);
    if p < names.len() && same_text(names[p].as_str(), name) {
        assert(ks[p as int] == name@);
        assert(ks.to_set().insert(name@) =~= ks.to_set());
        return;
    }
    proof {
        lemma_slot_absent(ks, name@, p as int);
    }
    names.insert(p, String::from_str(name));
    assert(name_texts(names@) =~= ks.insert(p as int, name@));
}

/// Takes `name` out of a sorted set of names.
fn drop_name(names: &mut Vec<String>, name: &str)
    requires
        strictly_sorted(name_texts(old(names)@)),
    ensures
        strictly_sorted(name_texts(final(names)@)),
        name_texts(final(names)@).to_set() == name_texts(old(names)@).to_set().remove(name@),
{
    let ghost ks = name_texts(names@);
    let p = name_slot(names, name);
    if p < names.len() && same_text(names[p].as_str(), name) {
        proof {
            lemma_slot_present(ks, p as int);
        }
        names.remove(p);
        assert(name_texts(names@) =~= ks.remove(p as int));
    } else {
        proof {
            lemma_slot_absent(ks, name@, p as int);
        }
        assert(ks.to_set().remove(name@) =~= ks.to_set());
    }
}

/// (Re)declares a window: it starts over at `rect` with no content.
fn declare_window<R, C>(
    ws: &mut Vec<WindowPlan<R, C>>,
    name: String,
    rect: R,
    Ghost(m): Ghost<Map<Seq<char>, (R, Seq<C>, nat)>>,
)
    requires
        windows_agree(old(ws)@, m),
    ensures
        windows_agree(final(ws)@, m.insert(name@, (rect, Seq::empty(), 0))),
{
    let ghost old_ws = ws@;
    let ghost ks = window_names(ws@);
    let ghost n = name@;
    let ghost m2 = m.insert(n, (rect, Seq::<C>::empty(), 0nat));
    let p = window_slot(ws, name.as_str());
    let found = p < ws.len() && same_text(ws[p].name.as_str(), name.as_str());
    let fresh = WindowPlan { name, rect, content: Vec::new(), options: 0 };
    assert(window_entry(fresh) == (rect, Seq::<C>::empty(), 0nat));
    if found {
        proof {
            lemma_slot_present(ks, p as int);
        }
        ws.remove(p);
        ws.insert(p, fresh);
        assert(ws@ =~= old_ws.update(p as int, fresh));
        assert(window_names(ws@) =~= ks);
        assert(m2.dom() =~= ks.to_set()) by {
            assert(ks.contains(n)) by {
                assert(ks[p as int] == n);
            }
        }
        assert forall|i: int| 0 <= i < ws@.len() implies m2[#[trigger] ws@[i].name@] == window_entry(ws@[i]) by {
            if i != p {
                assert(ks[i] != ks[p as int]);
                assert(ws@[i] == old_ws[i]);
            }
        }
    } else {
        proof {
            lemma_slot_absent(ks, n, p as int);
            old_ws.insert_ensures(p as int, fresh);
        }
        ws.insert(p, fresh);
        assert(window_names(ws@) =~= ks.insert(p as int, n));
        assert forall|i: int| 0 <= i < ws@.len() implies m2[#[trigger] ws@[i].name@] == window_entry(ws@[i]) by {
            if i < p {
                assert(ws@[i] == old_ws[i]);
                assert(ks[i] != n);
            } else if i > p {
                assert(ws@[i] == old_ws[i - 1]);
                assert(ks[i - 1] != n);
            }
        }
    }
}

/// Closes a window: it is built no more this tick.
fn close_window<R, C>(ws: &mut Vec<WindowPlan<R, C>>, name: &str, Ghost(m): Ghost<Map<Seq<char>, (R, Seq<C>, nat)>>)
    requires
        windows_agree(old(ws)@, m),
    ensures
        windows_agree(final(ws)@, m.remove(name@)),
{
    let ghost old_ws = ws@;
    let ghost ks = window_names(ws@);
    let ghost m2 = m.remove(name@);
    let p = window_slot(ws, name);
    if p < ws.len() && same_text(ws[p].name.as_str(), name) {
        proof {
            lemma_slot_present(ks, p as int);
            old_ws.remove_ensures(p as int);
        }
        ws.remove(p);
        assert(window_names(ws@) =~= ks.remove(p as int));
        assert(m2.dom() =~= ks.remove(p as int).to_set());
        assert forall|i: int| 0 <= i < ws@.len() implies m2[#[trigger] ws@[i].name@] == window_entry(ws@[i]) by {
            if i < p {
                assert(ws@[i] == old_ws[i]);
                assert(ks[i] != ks[p as int]);
            } else {
                assert(ws@[i] == old_ws[i + 1]);
                assert(ks[i + 1] != ks[p as int]);
            }
        }
    } else {
        proof {
            lemma_slot_absent(ks, name@, p as int);
        }
        assert(m2.dom() =~= ks.to_set());
        assert(m2 =~= m);
    }
}

/// Content for a window: appended to it when it is declared, and its
/// option-row count follows an options list.
fn add_content<R, C>(
    ws: &mut Vec<WindowPlan<R, C>>,
    window: &str,
    content: C,
    options: Option<usize>,
    Ghost(m): Ghost<Map<Seq<char>, (R, Seq<C>, nat)>>,
) -> (found: bool)
    requires
        windows_agree(old(ws)@, m),
    ensures
        found == m.contains_key(window@),
        found ==> windows_agree(
            final(ws)@,
            m.insert(
                window@,
                (
                    m[window@].0,
                    m[window@].1.push(content),
                    match options {
                        Some(n) => n as nat,
                        None => m[window@].2,
                    },
                ),
            ),
        ),
        !found ==> final(ws)@ == old(ws)@,
{
    let ghost old_ws = ws@;
    let ghost ks = window_names(ws@);
    let p = window_slot(ws, window);
    if p < ws.len() && same_text(ws[p].name.as_str(), window) {
        proof {
            lemma_slot_present(ks, p as int);
        }
        assert(m.contains_key(window@)) by {
            assert(ks[p as int] == window@);
            assert(ks.contains(window@));
        }
        let ghost entry = m[window@];
        let mut w = ws.remove(p);
        assert(w == old_ws[p as int]);
        assert(window_entry(w) == entry);
        w.content.push(content);
        match options {
            Some(n) => {
                w.options = n;
            },
            None => {},
        }
        let ghost e2 = window_entry(w);
        ws.insert(p, w);
        assert(ws@ =~= old_ws.update(p as int, w));
        assert(window_names(ws@) =~= ks);
        let ghost m2 = m.insert(window@, e2);
        assert(m2.dom() =~= ks.to_set());
        assert forall|i: int| 0 <= i < ws@.len() implies m2[#[trigger] ws@[i].name@] == window_entry(ws@[i]) by {
            if i != p {
                assert(ks[i] != ks[p as int]);
                assert(ws@[i] == old_ws[i]);
            }
        }
        true
    } else {
        proof {
            lemma_slot_absent(ks, window@, p as int);
        }
        assert(!m.contains_key(window@));
        false
    }
}

/// Reduces one tick's requests, in the order scripts made them, to what
/// the tick applies (see [`batch_of`]).
pub fn plan_requests<R, C>(requests: Vec<UiRequest<R, C>>) -> (plan: UiPlan<R, C>)
    ensures
        plan_of(plan, batch_of(requests@)),
{
    let ghost all = requests@;
    let mut rest = requests;
    let mut plan = UiPlan { pause: None, closes: Vec::new(), windows: Vec::new(), undeclared: Vec::new() };
    let ghost mut done: int = 0;
    assert(all.take(0) =~= Seq::<UiRequest<R, C>>::empty());
    assert(name_texts(plan.closes@) =~= Seq::<Seq<char>>::empty());
    assert(name_texts(plan.closes@).to_set() =~= Set::<Seq<char>>::empty());
    assert(window_names(plan.windows@) =~= Seq::<Seq<char>>::empty());
    assert(window_names(plan.windows@).to_set() =~= Set::<Seq<char>>::empty());
    assert(Map::<Seq<char>, (R, Seq<C>, nat)>::empty().dom() =~= Set::<Seq<char>>::empty());
    assert(name_texts(plan.undeclared@) =~= Seq::<Seq<char>>::empty());
    while rest.len() > 0
        invariant
            0 <= done <= all.len(),
            rest@ == all.skip(done),
            plan_of(plan, batch_of(all.take(done))),
        decreases rest@.len(),
    {
        let ghost before = batch_of(all.take(done));
        let r = rest.remove(0);
        proof {
            assert(all.take(done + 1).drop_last() =~= all.take(done));
            assert(all.take(done + 1).last() == r);
            assert(rest@ =~= all.skip(done + 1));
        }
        match r {
            UiRequest::Pause(value) => {
                plan.pause = Some(value);
            },
            UiRequest::Close { name } => {
                add_name(&mut plan.closes, name.as_str());
                close_window(&mut plan.windows, name.as_str(), Ghost(before.windows));
            },
            UiRequest::Window { name, rect } => {
                drop_name(&mut plan.closes, name.as_str());
                declare_window(&mut plan.windows, name, rect, Ghost(before.windows));
            },
            UiRequest::Content { window, content, options } => {
                let found = add_content(&mut plan.windows, window.as_str(), content, options, Ghost(before.windows));
                if !found && !has_name(&plan.undeclared, window.as_str()) {
                    let ghost u = name_texts(plan.undeclared@);
                    let ghost wn = window@;
                    plan.undeclared.push(window);
                    assert(name_texts(plan.undeclared@) =~= u.push(wn));
                }
            },
        }
        proof {
            done = done + 1;
        }
    }
    assert(all.take(done) =~= all);
    plan
}

/// Whichever of a close and a declaration of a window comes last in a
/// batch decides it: a batch ending in a close leaves the window closed
/// and unbuilt, one ending in a declaration builds it afresh (no content,
/// no option rows) and cancels any close.
pub proof fn lemma_last_word_wins<R, C>(requests: Seq<UiRequest<R, C>>, name: String, rect: R)
    ensures
        batch_of(requests.push(UiRequest::Close { name })).closes.contains(name@),
        !batch_of(requests.push(UiRequest::Close { name })).windows.contains_key(name@),
        !batch_of(requests.push(UiRequest::Window { name, rect })).closes.contains(name@),
        batch_of(requests.push(UiRequest::Window { name, rect })).windows.contains_key(name@),
        batch_of(requests.push(UiRequest::Window { name, rect })).windows[name@] == (
            rect,
            Seq::<C>::empty(),
            0nat,
        ),
{
    assert(requests.push(UiRequest::Close { name }).drop_last() =~= requests);
    assert(requests.push(UiRequest::Window { name, rect }).drop_last() =~= requests);
}

/// The last pause request in a batch sets the policy; requests of other
/// kinds leave it as it was.
pub proof fn lemma_last_pause_wins<R, C>(requests: Seq<UiRequest<R, C>>, value: bool, r: UiRequest<R, C>)
    ensures
        batch_of(requests.push(UiRequest::Pause(value))).pause == Some(value),
        !(r is Pause) ==> batch_of(requests.push(r)).pause == batch_of(requests).pause,
{
    assert(requests.push(UiRequest::Pause(value)).drop_last() =~= requests);
    assert(requests.push(r).drop_last() =~= requests);
}

/// A window that gets content while undeclared is warned about once per
/// batch, however much stray content it gets: no name is listed twice,
/// and a listed name stays listed.
pub proof fn lemma_one_warning_per_window<R, C>(requests: Seq<UiRequest<R, C>>, r: UiRequest<R, C>)
    ensures
        forall|i: int, j: int|
            0 <= i < j < batch_of(requests).undeclared.len() ==> batch_of(requests).undeclared[i]
                != batch_of(requests).undeclared[j],
        forall|k: int|
            0 <= k < batch_of(requests).undeclared.len() ==> batch_of(requests.push(r)).undeclared[k]
                == batch_of(requests).undeclared[k],
    decreases requests.len(),
{
    assert(requests.push(r).drop_last() =~= requests);
    if requests.len() > 0 {
        lemma_one_warning_per_window(requests.drop_last(), requests.last());
        assert(requests.drop_last().push(requests.last()) =~= requests);
        let before = batch_of(requests.drop_last()).undeclared;
        let after = batch_of(requests).undeclared;
        assert forall|i: int, j: int| 0 <= i < j < after.len() implies after[i] != after[j] by {
            if j >= before.len() {
                assert(!before.contains(after[j]));
                assert(after[i] == before[i]);
            }
        }
    }
}

} // verus!
