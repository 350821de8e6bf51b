//! The scene editor's own state and decisions: opening and closing the
//! panel, the path text fields, and the paint stroke that flips walkable
//! cells under the mouse.

use vstd::prelude::*;
use vstd::string::*;

use crate::text::same_text;

verus! {

/// Whether a character is white space: Unicode's `White_Space` set, the
/// characters `char::is_whitespace` accepts.
pub open spec fn is_space(c: char) -> bool {
    let n = c as int;
    ||| 0x9 <= n <= 0xD
    ||| n == 0x20
    ||| n == 0x85
    ||| n == 0xA0
    ||| n == 0x1680
    ||| 0x2000 <= n <= 0x200A
    ||| n == 0x2028
    ||| n == 0x2029
    ||| n == 0x202F
    ||| n == 0x205F
    ||| n == 0x3000
}

/// `s` without its leading white space.
pub open spec fn trim_start(s: Seq<char>) -> Seq<char>
    decreases s.len(),
{
    if s.len() > 0 && is_space(s[0]) {
        trim_start(s.skip(1))
    } else {
        s
    }
}

/// `s` without its trailing white space.
pub open spec fn trim_end(s: Seq<char>) -> Seq<char>
    decreases s.len(),
{
    if s.len() > 0 && is_space(s.last()) {
        trim_end(s.drop_last())
    } else {
        s
    }
}

/// `s` without leading and trailing white space.
pub open spec fn trimmed(s: Seq<char>) -> Seq<char> {
    trim_end(trim_start(s))
}

/// The asset path a text field holds: its trimmed text, or none when
/// that is empty.
pub open spec fn field_path(field: Seq<char>) -> Option<Seq<char>> {
    if trimmed(field).len() == 0 {
        None
    } else {
        Some(trimmed(field))
    }
}

/// An optional string as optional text.
pub open spec fn opt_text(o: Option<String>) -> Option<Seq<char>> {
    match o {
        Some(s) => Some(s@),
        None => None,
    }
}

/// Whether a character is white space (see [`is_space`]).
pub fn space_char(c: char) -> (r: bool)
    ensures
        r == is_space(c),
{
    let n = c as u32;
    (0x9 <= n && n <= 0xD) || n == 0x20 || n == 0x85 || n == 0xA0 || n == 0x1680 || (0x2000 <= n && n
        <= 0x200A) || n == 0x2028 || n == 0x2029 || n == 0x202F || n == 0x205F || n == 0x3000
}

/// Trims the text field into an asset path: white space stripped, and
/// an empty field becomes `None`.
pub fn trimmed_path(field: &str) -> (r: Option<String>)
    ensures
        opt_text(r) == field_path(field@),
{
    let ghost s = field@;
    let n = field.unicode_len();
    let mut a: usize = 0;
    assert(s.skip(0) =~= s);
    while a < n && space_char(field.get_char(a))
        invariant
            n == s.len(),
            s == field@,
            a <= n,
            trim_start(s) == trim_start(s.skip(a as int)),
        decreases n - a,
    {
        assert(s.skip(a as int).skip(1) =~= s.skip(a + 1));
        a = a + 1;
    }
    let ghost start = s.skip(a as int);
    assert(trim_start(s) == start);
    let mut b: usize = n;
    assert(start.take(start.len() as int) =~= start);
    while b > a && space_char(field.get_char(b - 1))
        invariant
            n == s.len(),
            s == field@,
            a <= b <= n,
            start == s.skip(a as int),
            trim_end(start) == trim_end(start.take(b - a)),
        decreases b,
    {
        assert(start.take(b - a).last() == s[b - 1]);
        assert(start.take(b - a).drop_last() =~= start.take(b - 1 - a));
        b = b - 1;
    }
    assert(start.take(b - a) =~= s.subrange(a as int, b as int));
    if b == a {
        None
    } else {
        Some(field.substring_char(a, b).to_owned())
    }
}

/// What applying a path field does to the scene's current path: the new
/// path when it differs, or nothing when the field already says what the
/// scene has.
pub fn path_change(field: &str, current: &Option<String>) -> (r: Option<Option<String>>)
    ensures
        (r is None) == (field_path(field@) == opt_text(*current)),
        r matches Some(p) ==> opt_text(p) == field_path(field@),
{
    let path = trimmed_path(field);
    let same = match (&path, current) {
        (None, None) => true,
        (Some(p), Some(c)) => same_text(p.as_str(), c.as_str()),
        _ => false,
    };
    if same {
        None
    } else {
        Some(path)
    }
}

/// The two scene paths the editor's text fields mirror.
pub struct ScenePaths {
    pub background: Option<String>,
    pub character_model: Option<String>,
}

/// The editor panel's state.
pub struct EditorState {
    pub open: bool,
    /// The walkable value being painted during a stroke: `Some(true)`
    /// for a left drag, `Some(false)` for a right drag, `None` when idle.
    pub painting: Option<bool>,
    pub background_field: String,
    pub character_field: String,
    /// The last save's outcome, shown under the save button.
    pub status: Option<String>,
}

/// A field's text for a scene path: the path, or empty.
pub open spec fn field_text(path: Option<String>) -> Seq<char> {
    match path {
        Some(p) => p@,
        None => Seq::empty(),
    }
}

impl EditorState {
    /// Closed, idle, empty fields.
    pub fn new() -> (s: EditorState)
        ensures
            !s.open,
            s.painting is None,
            s.background_field@.len() == 0,
            s.character_field@.len() == 0,
            s.status is None,
    {
        EditorState {
            open: false,
            painting: None,
            background_field: String::new(),
            character_field: String::new(),
            status: None,
        }
    }

    /// Opens or closes the editor, clearing the status; opening over a
    /// loaded scene re-syncs the text fields from its paths.
    pub fn set_open(&mut self, open: bool, scene: Option<&ScenePaths>)
        ensures
            final(self).open == open,
            final(self).status is None,
            final(self).painting == old(self).painting,
            open && scene is Some ==> final(self).background_field@ == field_text(scene->0.background)
                && final(self).character_field@ == field_text(scene->0.character_model),
            !(open && scene is Some) ==> final(self).background_field@ == old(self).background_field@
                && final(self).character_field@ == old(self).character_field@,
    {
        self.open = open;
        self.status = None;
        if open {
            if let Some(paths) = scene {
                self.background_field = text_of(&paths.background);
                self.character_field = text_of(&paths.character_model);
            }
        }
    }

    /// The toggle key: flips the editor unless a text field is taking
    /// the keystroke.
    pub fn toggle(&mut self, key_pressed: bool, typing: bool, scene: Option<&ScenePaths>)
        ensures
            key_pressed && !typing ==> final(self).open == !old(self).open && final(self).status is None,
            !(key_pressed && !typing) ==> final(self).open == old(self).open && final(self).status
                == old(self).status,
            final(self).painting == old(self).painting,
            key_pressed && !typing && !old(self).open && scene is Some ==> final(self).background_field@
                == field_text(scene->0.background) && final(self).character_field@ == field_text(
                scene->0.character_model,
            ),
            !(key_pressed && !typing && !old(self).open && scene is Some) ==> final(self).background_field@
                == old(self).background_field@ && final(self).character_field@
                == old(self).character_field@,
    {
        if key_pressed && !typing {
            let open = !self.open;
            self.set_open(open, scene);
        }
    }

    /// One frame of the paint stroke: a left press starts painting
    /// walkable cells, a right press blocked ones, releasing either ends
    /// the stroke, and a closed editor drops it. Returns the value to
    /// paint under the cursor this frame, if any.
    pub fn stroke(&mut self, left_pressed: bool, right_pressed: bool, released: bool) -> (paint: Option<bool>)
        ensures
            ({
                let held = if released {
                    None
                } else if right_pressed {
                    Some(false)
                } else if left_pressed {
                    Some(true)
                } else {
                    old(self).painting
                };
                &&& final(self).painting == (if old(self).open {
                    held
                } else {
                    None
                })
                &&& paint == (if old(self).open {
                    held
                } else {
                    None
                })
            }),
            final(self).open == old(self).open,
            final(self).status == old(self).status,
            final(self).background_field == old(self).background_field,
            final(self).character_field == old(self).character_field,
    {
        if left_pressed {
            self.painting = Some(true);
        }
        if right_pressed {
            self.painting = Some(false);
        }
        if released {
            self.painting = None;
        }
        match self.painting {
            None => None,
            Some(value) => {
                if !self.open {
                    self.painting = None;
                    return None;
                }
                Some(value)
            },
        }
    }
}

/// A path's field text.
fn text_of(path: &Option<String>) -> (s: String)
    ensures
        s@ == field_text(*path),
{
    match path {
        Some(p) => String::from_str(p.as_str()),
        None => String::new(),
    }
}

/// Where `trim_start` cuts: everything before is white space, and what
/// it keeps begins with a character that is not.
proof fn lemma_trim_start_at(s: Seq<char>) -> (a: int)
    ensures
        0 <= a <= s.len(),
        trim_start(s) == s.skip(a),
        forall|i: int| 0 <= i < a ==> is_space(#[trigger] s[i]),
        a < s.len() ==> !is_space(s[a]),
    decreases s.len(),
{
    if s.len() > 0 && is_space(s[0]) {
        let t = s.skip(1);
        let a1 = lemma_trim_start_at(t);
        assert(t.skip(a1) =~= s.skip(a1 + 1));
        assert forall|i: int| 0 <= i < a1 + 1 implies is_space(#[trigger] s[i]) by {
            if i > 0 {
                assert(s[i] == t[i - 1]);
            }
        }
        a1 + 1
    } else {
        assert(s.skip(0) =~= s);
        0
    }
}

/// Where `trim_end` cuts: everything after is white space, and what it
/// keeps ends with a character that is not.
proof fn lemma_trim_end_at(s: Seq<char>) -> (b: int)
    ensures
        0 <= b <= s.len(),
        trim_end(s) == s.take(b),
        forall|i: int| b <= i < s.len() ==> is_space(#[trigger] s[i]),
        b > 0 ==> !is_space(s[b - 1]),
    decreases s.len(),
{
    if s.len() > 0 && is_space(s.last()) {
        let t = s.drop_last();
        let b1 = lemma_trim_end_at(t);
        assert(t.take(b1) =~= s.take(b1));
        assert forall|i: int| b1 <= i < s.len() implies is_space(#[trigger] s[i]) by {
            if i < s.len() - 1 {
                assert(s[i] == t[i]);
            }
        }
        b1
    } else {
        assert(s.take(s.len() as int) =~= s);
        s.len() as int
    }
}

/// Trimming strips white space at both ends and nothing else: the
/// trimmed text is a run of the text with only white space before and
/// after it, and it neither begins nor ends with white space. So a path
/// field holds no path exactly when it is all white space.
pub proof fn lemma_trimming_strips_edge_space(s: Seq<char>)
    ensures
        exists|a: int, b: int|
            0 <= a <= b <= s.len() && trimmed(s) == s.subrange(a, b) && (forall|i: int|
                0 <= i < a ==> is_space(#[trigger] s[i])) && (forall|i: int|
                b <= i < s.len() ==> is_space(#[trigger] s[i])),
        trimmed(s).len() > 0 ==> !is_space(trimmed(s)[0]) && !is_space(trimmed(s).last()),
        field_path(s) is None <==> (forall|i: int| 0 <= i < s.len() ==> is_space(#[trigger] s[i])),
{
    let a = lemma_trim_start_at(s);
    let t = s.skip(a);
    let b = lemma_trim_end_at(t);
    assert(trimmed(s) == t.take(b));
    assert(t.take(b) =~= s.subrange(a, a + b));
    assert forall|i: int| a + b <= i < s.len() implies is_space(#[trigger] s[i]) by {
        assert(s[i] == t[i - a]);
    }
    if trimmed(s).len() > 0 {
        assert(trimmed(s)[0] == s[a]);
        assert(trimmed(s).last() == t[b - 1]);
    }
    if trimmed(s).len() == 0 {
        assert(b == 0);
        assert forall|i: int| 0 <= i < s.len() implies is_space(#[trigger] s[i]) by {
            if i >= a {
                assert(s[i] == t[i - a]);
            }
        }
    } else {
        assert(!is_space(s[a]));
    }
    assert(0 <= a <= a + b <= s.len() && trimmed(s) == s.subrange(a, a + b) && (forall|i: int|
        0 <= i < a ==> is_space(#[trigger] s[i])) && (forall|i: int|
        a + b <= i < s.len() ==> is_space(#[trigger] s[i])));
}

} // verus!
